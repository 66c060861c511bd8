//! The kinds of server that the library knows, and what it asks of each.

use vstd::prelude::*;
use vstd::string::*;
use std::path::PathBuf;
use crate::config::{MinecraftVersion, ServerConfig, ServerVersion};
use crate::errors::ErrorKind;
use crate::text::same_text;

pub mod paper;

verus! {

/// A flavour of server artifact.
#[derive(Debug, Clone, Copy, PartialEq, Eq, Structural)]
pub enum ServerKind {
    Paper,
}

/// The kind that a tag names.
pub open spec fn kind_of(tag: Seq<char>) -> Option<ServerKind> {
    if tag == "paper"@ {
        Some(ServerKind::Paper)
    } else {
        None
    }
}

/// The tag of a kind.
pub open spec fn tag_of(kind: ServerKind) -> Seq<char> {
    match kind {
        ServerKind::Paper => "paper"@,
    }
}

/// A tag names the kind whose tag it is, and no other text names a kind.
pub proof fn lemma_kind_tag(kind: ServerKind, tag: Seq<char>)
    ensures
        kind_of(tag_of(kind)) == Some(kind),
        kind_of(tag) == Some(kind) ==> tag_of(kind) == tag,
{
}

impl ServerKind {
    /// The kind that `s` names.
    pub fn from_str(s: &str) -> (r: Result<ServerKind, ErrorKind>)
        ensures
            r == match kind_of(s@) {
                Some(kind) => Ok::<ServerKind, ErrorKind>(kind),
                None => Err::<ServerKind, ErrorKind>(ErrorKind::InvalidKind),
            },
    {
        if same_text(s, "paper") {
            Ok(ServerKind::Paper)
        } else {
            Err(ErrorKind::InvalidKind)
        }
    }

    /// The tag that names this kind.
    pub fn to_string(&self) -> (r: String)
        ensures
            r@ == tag_of(*self),
    {
        match self {
            ServerKind::Paper => String::from_str("paper"),
        }
    }

    /// Whether the cached build `patch` is the newest, given the build
    /// number that the registry reports as its latest. With nothing cached
    /// the answer is no, whatever the registry reports.
    pub fn is_latest_patch(&self, latest: u32, patch: Option<u32>) -> (r: bool)
        ensures
            r == (patch is Some && latest <= patch->0),
    {
        match self {
            ServerKind::Paper => paper::is_latest_patch(latest, patch),
        }
    }

    /// The newest of the releases that the registry lists.
    pub fn get_latest(&self, versions: &Vec<MinecraftVersion>) -> (r: Result<
        MinecraftVersion,
        ErrorKind,
    >)
        ensures
            versions@.len() == 0 <==> r == Err::<MinecraftVersion, ErrorKind>(ErrorKind::NoVersions),
            r is Ok ==> paper::is_newest(r->Ok_0, versions@),
            r is Ok || versions@.len() == 0,
    {
        match self {
            ServerKind::Paper => paper::get_latest(versions),
        }
    }

    /// The newest build of a release, from the registry's answer to the
    /// question for its builds: the status of the answer and the number that
    /// was decoded from its body, if one was.
    pub fn get_latest_patch(&self, status: u16, latest: Option<u32>) -> (r: Result<u32, ErrorKind>)
        ensures
            r == paper::latest_patch_of(status, latest),
    {
        match self {
            ServerKind::Paper => paper::get_latest_patch(status, latest),
        }
    }

    /// Reads the registry's answer to the request for the build `build` of
    /// `version`: the version then pins that build, and the answer carries
    /// the artifact unless the registry does not know the build.
    pub fn download_response(&self, version: &mut ServerVersion, build: u32, status: u16) -> (r:
        Result<(), ErrorKind>)
        ensures
            final(version).minecraft == old(version).minecraft,
            final(version).patch == Some(build),
            r == paper::download_of(status),
    {
        match self {
            ServerKind::Paper => paper::download_response(version, build, status),
        }
    }

    /// The directories that a server of this kind has from its creation on.
    /// Creation puts nothing into them.
    pub fn directories(&self, name: &str, data_dir: &PathBuf) -> (r: Vec<PathBuf>)
        ensures
            r@ == paper::directories_of(*data_dir, name@),
    {
        match self {
            ServerKind::Paper => paper::server_directories(name, data_dir),
        }
    }

    /// What has to exist on disk before a server of this kind can start:
    /// its directories, and the file that accepts the license.
    pub fn initialize(&self, config: &ServerConfig, data_dir: &PathBuf) -> (r: paper::Layout)
        ensures
            r@ == paper::layout_of(*data_dir, config.name@),
    {
        match self {
            ServerKind::Paper => paper::initialize(config, data_dir),
        }
    }

    /// The command that starts the server `config` from the artifact `jar`:
    /// the Java runtime, run in the directory of configurations, with the
    /// extra Java arguments, the artifact, the arguments of the server and
    /// the extra server arguments, in this order.
    pub fn launch(
        &self,
        config: &ServerConfig,
        jar: &PathBuf,
        configs: PathBuf,
        worlds: &PathBuf,
        plugins: &PathBuf,
    ) -> (r: paper::Command)
        ensures
            r@ == paper::launch_of(config@, *jar, configs, *worlds, *plugins),
    {
        match self {
            ServerKind::Paper => paper::launch(config, jar, configs, worlds, plugins),
        }
    }
}

} // verus!
