//! File system paths. The library names files and directories; joining a
//! name to a directory, and showing a path as text, is left to the standard
//! library.

use vstd::prelude::*;
use std::path::PathBuf;

verus! {

#[verifier::external_type_specification]
#[verifier::external_body]
pub struct ExPathBuf(PathBuf);

/// What `Path::join` makes of a path and a name. It depends on the two
/// alone: neither the disk nor the environment is looked at.
pub uninterp spec fn joined(base: PathBuf, name: Seq<char>) -> PathBuf;

/// What `Path::to_string_lossy` makes of a path: its text, with a
/// replacement character for what is not Unicode.
pub uninterp spec fn shown(path: PathBuf) -> Seq<char>;

/// `Path::join` of the standard library: the path `name` adjoined to `base`.
#[verifier::external_body]
pub(crate) fn join(base: &PathBuf, name: &str) -> (r: PathBuf)
    ensures
        r == joined(*base, name@),
{
    base.join(name)
}

/// `Path::to_string_lossy` of the standard library: the path as text.
#[verifier::external_body]
pub(crate) fn display(path: &PathBuf) -> (r: String)
    ensures
        r@ == shown(*path),
{
    path.to_string_lossy().into_owned()
}

} // verus!
