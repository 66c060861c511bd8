//! Servers: where their files are, how they are created and listed, and
//! which cached artifact one of them runs.

use vstd::prelude::*;
use vstd::string::*;
use std::path::PathBuf;
use crate::cacher::{CacheMeta, CachedJar, CachedJarMetaKey, KeyView};
use crate::config::{
    config_document, config_of_text, ServerConfig, ServerConfigView, ServerVersion,
};
use crate::document::written_pretty;
use crate::errors::ErrorKind;
use crate::paths::{join, joined};
use crate::server_kinds::paper::{directories_of, launch, launch_of, Command};
use crate::server_kinds::{kind_of, ServerKind};
use crate::text::concat2;

verus! {

/// A server that the library manages.
#[derive(Debug, Clone)]
pub struct Server {
    pub config: ServerConfig,
}

/// The name of the file that holds the configuration of the server `name`.
pub open spec fn config_file_name(name: Seq<char>) -> Seq<char> {
    name + ".toml"@
}

/// The name of the file that holds the configuration of the server `name`.
pub fn config_file(name: &str) -> (r: String)
    ensures
        r@ == config_file_name(name@),
{
    concat2(name, ".toml")
}

impl ServerConfig {
    /// The directory of the server below the directory of all servers' data:
    /// the one that has the server's name.
    pub fn path(&self, data_dir: &PathBuf) -> (r: PathBuf)
        ensures
            r == joined(*data_dir, self.name@),
    {
        join(data_dir, self.name.as_str())
    }

    /// The file of this configuration below the directory of all
    /// configurations: the one that `config_file` names.
    pub fn config_path(&self, servers_dir: &PathBuf) -> (r: PathBuf)
        ensures
            r == joined(*servers_dir, config_file_name(self.name@)),
    {
        let name = config_file(self.name.as_str());
        join(servers_dir, name.as_str())
    }
}

/// The configuration of a server that was just created: nothing is added
/// to its command line.
pub open spec fn fresh_config(name: Seq<char>, version: ServerVersion, kind: Seq<char>) -> ServerConfigView {
    ServerConfigView {
        version,
        name,
        kind,
        extra_java_args: Seq::empty(),
        extra_server_args: Seq::empty(),
    }
}

/// What creating a server comes to: the server, the text of its
/// configuration document, and the directories to make for it. The
/// directories stay empty: no file is planned inside them.
#[derive(Debug)]
pub struct Creation {
    pub server: Server,
    pub document: String,
    pub directories: Vec<PathBuf>,
}

impl Server {
    /// The server that the text of a configuration document describes.
    pub fn get(document: &str) -> (r: Result<Server, ErrorKind>)
        ensures
            match r {
                Ok(server) => config_of_text(document@) == Ok::<ServerConfigView, ErrorKind>(
                    server.config@,
                ),
                Err(e) => config_of_text(document@) == Err::<ServerConfigView, ErrorKind>(e),
            },
    {
        match ServerConfig::new(document) {
            Ok(config) => Ok(Server { config }),
            Err(e) => Err(e),
        }
    }

    /// A new server: `kind` must name a known kind. The server gets no extra
    /// arguments. Beside the server comes the text of its configuration
    /// document and the directories of its kind, which creation leaves empty.
    pub fn create(name: &str, version: ServerVersion, kind: String, data_dir: &PathBuf) -> (r: Result<
        Creation,
        ErrorKind,
    >)
        ensures
            match r {
                Ok(made) => kind_of(kind@) is Some && made.server.config@ == fresh_config(
                    name@,
                    version,
                    kind@,
                ) && written_pretty(config_document(fresh_config(name@, version, kind@))) == Some(
                    made.document@,
                ) && made.directories@ == directories_of(*data_dir, name@),
                Err(e) => if kind_of(kind@) is None {
                    e == ErrorKind::InvalidKind
                } else {
                    e == ErrorKind::Encode && written_pretty(
                        config_document(fresh_config(name@, version, kind@)),
                    ) is None
                },
            },
    {
        let server_kind = match ServerKind::from_str(kind.as_str()) {
            Ok(found) => found,
            Err(e) => {
                return Err(e);
            },
        };
        let config = ServerConfig {
            version,
            name: String::from_str(name),
            kind,
            extra_java_args: Vec::new(),
            extra_server_args: Vec::new(),
        };
        assert(config@.extra_java_args =~= Seq::<Seq<char>>::empty());
        assert(config@.extra_server_args =~= Seq::<Seq<char>>::empty());
        let directories = server_kind.directories(name, data_dir);
        let document = match config.to_toml() {
            Ok(text) => text,
            Err(e) => {
                return Err(e);
            },
        };
        Ok(Creation { server: Server { config }, document, directories })
    }

    /// The file of the server's configuration below `servers_dir`.
    pub fn config_path(&self, servers_dir: &PathBuf) -> (r: PathBuf)
        ensures
            r == joined(*servers_dir, config_file_name(self.config.name@)),
    {
        self.config.config_path(servers_dir)
    }

    /// The directory of the server below `data_dir`.
    pub fn server_path(&self, data_dir: &PathBuf) -> (r: PathBuf)
        ensures
            r == joined(*data_dir, self.config.name@),
    {
        self.config.path(data_dir)
    }
}

/// The servers that a list of configuration documents describes, each read
/// on its own: one that cannot be read does not stop the others.
pub fn iter_servers(documents: &Vec<String>) -> (r: Vec<Result<Server, ErrorKind>>)
    ensures
        r@.len() == documents@.len(),
        forall|i: int|
            0 <= i < documents@.len() ==> match #[trigger] r@[i] {
                Ok(server) => config_of_text(documents@[i]@) == Ok::<ServerConfigView, ErrorKind>(
                    server.config@,
                ),
                Err(e) => config_of_text(documents@[i]@) == Err::<ServerConfigView, ErrorKind>(e),
            },
{
    let mut r: Vec<Result<Server, ErrorKind>> = Vec::new();
    let mut i: usize = 0;
    while i < documents.len()
        invariant
            i <= documents@.len(),
            r@.len() == i,
            forall|j: int|
                0 <= j < i ==> match #[trigger] r@[j] {
                    Ok(server) => config_of_text(documents@[j]@) == Ok::<ServerConfigView, ErrorKind>(
                        server.config@,
                    ),
                    Err(e) => config_of_text(documents@[j]@) == Err::<ServerConfigView, ErrorKind>(
                        e,
                    ),
                },
        decreases documents@.len() - i,
    {
        r.push(Server::get(documents[i].as_str()));
        i += 1;
    }
    r
}

/// The servers that a list of configuration documents describes, in the
/// order of the list. The first document that cannot be read ends the
/// listing with its error.
pub fn get_servers(documents: &Vec<String>) -> (r: Result<Vec<Server>, ErrorKind>)
    ensures
        match r {
            Ok(servers) => servers@.len() == documents@.len() && forall|i: int|
                0 <= i < documents@.len() ==> config_of_text(#[trigger] documents@[i]@) == Ok::<
                    ServerConfigView,
                    ErrorKind,
                >(servers@[i].config@),
            Err(e) => exists|i: int|
                0 <= i < documents@.len() && config_of_text(#[trigger] documents@[i]@) == Err::<
                    ServerConfigView,
                    ErrorKind,
                >(e) && forall|j: int| 0 <= j < i ==> config_of_text(#[trigger] documents@[j]@) is Ok,
        },
{
    let mut servers: Vec<Server> = Vec::new();
    let mut i: usize = 0;
    while i < documents.len()
        invariant
            i <= documents@.len(),
            servers@.len() == i,
            forall|j: int|
                0 <= j < i ==> config_of_text(#[trigger] documents@[j]@) == Ok::<
                    ServerConfigView,
                    ErrorKind,
                >(servers@[j].config@),
        decreases documents@.len() - i,
    {
        match Server::get(documents[i].as_str()) {
            Ok(server) => {
                servers.push(server);
            },
            Err(e) => {
                assert(config_of_text(documents@[i as int]@) == Err::<ServerConfigView, ErrorKind>(e));
                return Err(e);
            },
        }
        i += 1;
    }
    Ok(servers)
}

// ---------------------------------------------------------------------------
// Which artifact a server runs
// ---------------------------------------------------------------------------

/// The cache key of the artifact that a configuration asks for: its kind
/// and its Minecraft release. The build that it may pin plays no part.
pub open spec fn key_for(config: ServerConfigView) -> KeyView {
    KeyView { kind: config.kind, version: config.version.minecraft }
}

/// The key under which the index holds the artifact for a configuration, or
/// a mismatch where it holds none.
pub open spec fn resolved(index: Map<KeyView, u32>, config: ServerConfigView) -> Result<
    KeyView,
    ErrorKind,
> {
    if index.contains_key(key_for(config)) {
        Ok(key_for(config))
    } else {
        Err(ErrorKind::VersionMismatch)
    }
}

/// Binds a configuration to the cached artifact that it runs: the entry of
/// the index for the configuration's kind and Minecraft release, whatever
/// build it holds.
pub fn resolve(config: &ServerConfig, meta: &CacheMeta) -> (r: Result<CachedJarMetaKey, ErrorKind>)
    ensures
        match r {
            Ok(key) => resolved(meta@, config@) == Ok::<KeyView, ErrorKind>(key@),
            Err(e) => resolved(meta@, config@) == Err::<KeyView, ErrorKind>(e),
        },
{
    let key = CachedJarMetaKey { version: config.version.minecraft, kind: config.kind.clone() };
    match meta.get(&key) {
        Some(_) => Ok(key),
        None => Err(ErrorKind::VersionMismatch),
    }
}

/// Where no entry of the index is for the configuration's Minecraft
/// release, there is a mismatch; where the index has an entry for the
/// configuration's kind and release, the configuration is bound to it,
/// whatever build the entry holds and whatever build the configuration pins.
pub proof fn lemma_resolve(index: Map<KeyView, u32>, config: ServerConfigView, build: u32)
    ensures
        (forall|key: KeyView| index.contains_key(key) ==> key.version != config.version.minecraft)
            ==> resolved(index, config) == Err::<KeyView, ErrorKind>(ErrorKind::VersionMismatch),
        resolved(index.insert(key_for(config), build), config) == Ok::<KeyView, ErrorKind>(
            key_for(config),
        ),
        forall|pinned: Option<u32>|
            resolved(
                index,
                ServerConfigView {
                    version: ServerVersion { minecraft: config.version.minecraft, patch: pinned },
                    ..config
                },
            ) is Ok <==> #[trigger] resolved(index, config) is Ok,
{
    assert forall|pinned: Option<u32>|
        resolved(
            index,
            ServerConfigView {
                version: ServerVersion { minecraft: config.version.minecraft, patch: pinned },
                ..config
            },
        ) is Ok <==> #[trigger] resolved(index, config) is Ok by {
        let other = ServerConfigView {
            version: ServerVersion { minecraft: config.version.minecraft, patch: pinned },
            ..config
        };
        assert(key_for(other) == key_for(config));
    }
}

impl CachedJar {
    /// The command that starts `server` from this artifact, with the
    /// server's directories of configurations, worlds and plugins. The
    /// artifact must be a build of the server's Minecraft release; its build
    /// number need not be the one that the server pins.
    pub fn start_server(&self, server: &Server, configs: PathBuf, worlds: &PathBuf, plugins: &PathBuf) -> (r:
        Result<Command, ErrorKind>)
        ensures
            match r {
                Ok(command) => server.config.version.minecraft == self.version.minecraft
                    && command@ == launch_of(
                    server.config@,
                    self.path,
                    configs,
                    *worlds,
                    *plugins,
                ),
                Err(e) => e == ErrorKind::VersionMismatch && server.config.version.minecraft
                    != self.version.minecraft,
            },
    {
        if server.config.version.minecraft == self.version.minecraft {
            Ok(launch(&server.config, &self.path, configs, worlds, plugins))
        } else {
            Err(ErrorKind::VersionMismatch)
        }
    }
}

} // verus!
