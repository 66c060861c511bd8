//! The status with which each request over HTTP is answered.

use vstd::prelude::*;
use crate::errors::ErrorKind;
use crate::refresh::Action;

verus! {

/// The request was carried out.
pub const OK: u16 = 200;

/// The request was taken on: a download goes on behind it.
pub const ACCEPTED: u16 = 202;

/// What was asked for is not known.
pub const NOT_FOUND: u16 = 404;

/// Something failed on this side.
pub const INTERNAL_SERVER_ERROR: u16 = 500;

/// The status that reports a failure: what is not found is told apart
/// from everything else.
pub open spec fn status_of(e: ErrorKind) -> u16 {
    match e {
        ErrorKind::NotFound => NOT_FOUND,
        _ => INTERNAL_SERVER_ERROR,
    }
}

/// The status that reports the failure `e`.
pub fn status(e: ErrorKind) -> (r: u16)
    ensures
        r == status_of(e),
{
    match e {
        ErrorKind::NotFound => NOT_FOUND,
        _ => INTERNAL_SERVER_ERROR,
    }
}

/// The status of the answer to a question for one server: a server whose
/// configuration cannot be read counts as not found.
pub fn get_server(found: bool) -> (r: u16)
    ensures
        r == if found { OK } else { NOT_FOUND },
{
    if found {
        OK
    } else {
        NOT_FOUND
    }
}

/// The status of the answer to a question for all servers.
pub fn list_servers(listed: bool) -> (r: u16)
    ensures
        r == if listed { OK } else { INTERNAL_SERVER_ERROR },
{
    if listed {
        OK
    } else {
        INTERNAL_SERVER_ERROR
    }
}

/// What a start over HTTP is answered with.
pub open spec fn start_status(found: bool, decision: Result<Action, ErrorKind>, begun: bool) -> u16 {
    if !found {
        NOT_FOUND
    } else {
        match decision {
            Err(_) => INTERNAL_SERVER_ERROR,
            Ok(action) => if !begun {
                INTERNAL_SERVER_ERROR
            } else if action is Download {
                ACCEPTED
            } else {
                OK
            },
        }
    }
}

/// The status of the answer to a start. `found` says whether the server is
/// known; `decision` is what the update unit asks for once the registry has
/// answered, or why it could not be asked; `begun` says whether what the
/// decision asks for was set going: the download, or else the launch. A
/// start that has to download first is accepted, and the server launches
/// when the download is done.
pub fn start_server(found: bool, decision: &Result<Action, ErrorKind>, begun: bool) -> (r: u16)
    ensures
        r == start_status(found, *decision, begun),
{
    if !found {
        NOT_FOUND
    } else {
        match decision {
            Err(_) => INTERNAL_SERVER_ERROR,
            Ok(action) => {
                if !begun {
                    INTERNAL_SERVER_ERROR
                } else {
                    match action {
                        Action::Download(_) => ACCEPTED,
                        _ => OK,
                    }
                }
            },
        }
    }
}

} // verus!
