//! What the commands decide: names, confirmations and the steps of a start.

use vstd::prelude::*;
use vstd::string::*;
use crate::cacher::{
    distinct_keys, entries_map, file_name_of, CacheMeta, CachedJarMetaKey, KeyView,
};
use crate::config::{format_minecraft, format_server, ServerConfig, ServerConfigView, ServerVersion};
use crate::errors::ErrorKind;
use crate::refresh::{settle, settled, Outcome};
use crate::servers::{key_for, resolve, resolved, Server};
use crate::text::{concat3, same_text};

verus! {

/// A command of the program.
#[derive(Debug, Clone, Copy, PartialEq, Eq, Structural)]
pub enum Command {
    Download,
    List,
    Create,
    Start,
    Remove,
    CacheUpgrade,
    CachePurge,
}

/// The command that a word of the command line names, for the words that
/// stand alone.
pub open spec fn command_of(word: Seq<char>) -> Option<Command> {
    if word == "download"@ {
        Some(Command::Download)
    } else if word == "list"@ {
        Some(Command::List)
    } else if word == "create"@ {
        Some(Command::Create)
    } else if word == "start"@ {
        Some(Command::Start)
    } else if word == "remove"@ {
        Some(Command::Remove)
    } else {
        None
    }
}

/// The command that a word behind `cache` names.
pub open spec fn cache_command_of(word: Seq<char>) -> Option<Command> {
    if word == "upgrade"@ {
        Some(Command::CacheUpgrade)
    } else if word == "purge"@ {
        Some(Command::CachePurge)
    } else {
        None
    }
}

/// The command that `word` names.
pub fn command(word: &str) -> (r: Option<Command>)
    ensures
        r == command_of(word@),
{
    if same_text(word, "download") {
        Some(Command::Download)
    } else if same_text(word, "list") {
        Some(Command::List)
    } else if same_text(word, "create") {
        Some(Command::Create)
    } else if same_text(word, "start") {
        Some(Command::Start)
    } else if same_text(word, "remove") {
        Some(Command::Remove)
    } else {
        None
    }
}

/// The command that `word` names behind `cache`.
pub fn cache(word: &str) -> (r: Option<Command>)
    ensures
        r == cache_command_of(word@),
{
    if same_text(word, "upgrade") {
        Some(Command::CacheUpgrade)
    } else if same_text(word, "purge") {
        Some(Command::CachePurge)
    } else {
        None
    }
}

/// The name of the file into which `download` writes where none is given.
pub open spec fn default_output(version: ServerVersion) -> Seq<char> {
    "paper-"@ + format_minecraft(version.minecraft) + ".jar"@
}

/// The file into which `download` writes: the one that was asked for, or
/// the default for the version.
pub fn download(version: &ServerVersion, output: Option<&str>) -> (r: String)
    ensures
        r@ == match output {
            Some(given) => given@,
            None => default_output(*version),
        },
{
    match output {
        Some(given) => String::from_str(given),
        None => {
            let v = version.minecraft.to_string();
            concat3("paper-", v.as_str(), ".jar")
        },
    }
}

/// The sentence that has to be typed before a server is removed.
pub open spec fn confirmation_of(name: Seq<char>) -> Seq<char> {
    "Yes, erase "@ + name + " completely and irrecoverably."@
}

/// The sentence that has to be typed before the server `name` is removed.
pub fn confirmation(name: &str) -> (r: String)
    ensures
        r@ == confirmation_of(name@),
{
    concat3("Yes, erase ", name, " completely and irrecoverably.")
}

/// Whether the server `name` is to be removed: only if `input` is the
/// confirmation sentence, letter for letter.
pub fn remove(name: &str, input: &str) -> (r: bool)
    ensures
        r == (input@ == confirmation_of(name@)),
{
    let wanted = confirmation(name);
    same_text(input, wanted.as_str())
}

/// One line of the list of servers: a name and the text of its version.
#[derive(Debug, Clone)]
pub struct Line {
    pub name: String,
    pub version: String,
}

/// The list of servers, one line each, in the order given.
pub fn list(servers: &Vec<Server>) -> (r: Vec<Line>)
    ensures
        r@.len() == servers@.len(),
        forall|i: int|
            0 <= i < servers@.len() ==> (#[trigger] r@[i]).name@ == servers@[i].config.name@
                && r@[i].version@ == format_server(servers@[i].config.version),
{
    let mut r: Vec<Line> = Vec::new();
    let mut i: usize = 0;
    while i < servers.len()
        invariant
            i <= servers@.len(),
            r@.len() == i,
            forall|j: int|
                0 <= j < i ==> (#[trigger] r@[j]).name@ == servers@[j].config.name@
                    && r@[j].version@ == format_server(servers@[j].config.version),
        decreases servers@.len() - i,
    {
        r.push(
            Line {
                name: servers[i].config.name.clone(),
                version: servers[i].config.version.to_string(),
            },
        );
        i += 1;
    }
    r
}

/// Ends the update that precedes a start: the outcome of the unit for the
/// server's artifact is written into the index, and the configuration is
/// bound to its artifact. A failed unit stops the start and leaves the
/// index as it was.
pub fn start(meta: &mut CacheMeta, config: &ServerConfig, outcome: Outcome) -> (r: Result<
    CachedJarMetaKey,
    ErrorKind,
>)
    ensures
        final(meta)@ == settled(old(meta)@, key_for(config@), outcome),
        match r {
            Ok(key) => !(outcome is Failed) && resolved(final(meta)@, config@) == Ok::<
                KeyView,
                ErrorKind,
            >(key@),
            Err(e) => match outcome {
                Outcome::Failed(cause) => e == cause,
                _ => resolved(final(meta)@, config@) == Err::<KeyView, ErrorKind>(e),
            },
        },
{
    let key = CachedJarMetaKey { version: config.version.minecraft, kind: config.kind.clone() };
    match settle(meta, key, outcome) {
        Ok(_) => resolve(config, meta),
        Err(e) => Err(e),
    }
}

/// A start whose unit downloaded a build finds its artifact.
pub proof fn lemma_start_after_download(index: Map<KeyView, u32>, config: ServerConfigView, build: u32)
    ensures
        resolved(settled(index, key_for(config), Outcome::Downloaded(build)), config) == Ok::<
            KeyView,
            ErrorKind,
        >(key_for(config)),
{
}

/// Empties the index and names the files of the artifacts that it held, for
/// the caller to delete.
pub fn purge(meta: &mut CacheMeta) -> (r: Vec<String>)
    ensures
        final(meta)@ == Map::<KeyView, u32>::empty(),
        exists|listing: Seq<(CachedJarMetaKey, u32)>|
            distinct_keys(listing) && #[trigger] entries_map(listing) == old(meta)@ && r@.len()
                == listing.len() && forall|i: int|
                0 <= i < listing.len() ==> (#[trigger] r@[i])@ == file_name_of(listing[i].0@),
{
    let entries = meta.entries();
    let mut r: Vec<String> = Vec::new();
    let mut i: usize = 0;
    while i < entries.len()
        invariant
            i <= entries@.len(),
            r@.len() == i,
            forall|j: int| 0 <= j < i ==> (#[trigger] r@[j])@ == file_name_of(entries@[j].0@),
        decreases entries@.len() - i,
    {
        r.push(entries[i].0.file_name());
        i += 1;
    }
    meta.clear();
    assert(distinct_keys(entries@) && entries_map(entries@) == old(meta)@ && r@.len()
        == entries@.len());
    r
}

} // verus!
