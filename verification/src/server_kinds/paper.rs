//! Paper: where its registry lives, how its answers are read, and how a
//! Paper server is started.

use vstd::prelude::*;
use vstd::string::*;
use std::path::PathBuf;
use crate::config::{
    decimal, decimal_string, format_minecraft, version_before, MinecraftVersion, ServerConfig,
    ServerConfigView, ServerVersion,
};
use crate::text::{extend_texts, texts_of};
use crate::errors::ErrorKind;
use crate::paths::{display, join, joined, shown};

verus! {

/// The update side of Paper.
pub struct PaperUpdater;

/// The launch side of Paper.
pub struct PaperServer;

// ---------------------------------------------------------------------------
// The registry
// ---------------------------------------------------------------------------

/// Whether the cached build `patch` is the newest, given the registry's
/// latest build: it is unless the registry has a newer one. With nothing
/// cached the answer is no, whatever the registry reports.
pub fn is_latest_patch(latest: u32, patch: Option<u32>) -> (r: bool)
    ensures
        r == (patch is Some && latest <= patch->0),
{
    match patch {
        Some(build) => latest <= build,
        None => false,
    }
}

/// The release `v` is one of `versions`, and none of them is newer.
pub open spec fn is_newest(v: MinecraftVersion, versions: Seq<MinecraftVersion>) -> bool {
    versions.contains(v) && forall|i: int|
        0 <= i < versions.len() ==> !version_before(v, #[trigger] versions[i])
}

/// The newest of the releases that the registry lists. An empty list has none.
pub fn get_latest(versions: &Vec<MinecraftVersion>) -> (r: Result<MinecraftVersion, ErrorKind>)
    ensures
        versions@.len() == 0 <==> r == Err::<MinecraftVersion, ErrorKind>(ErrorKind::NoVersions),
        r is Ok ==> is_newest(r->Ok_0, versions@),
        r is Ok || versions@.len() == 0,
{
    if versions.len() == 0 {
        return Err(ErrorKind::NoVersions);
    }
    let mut best = versions[0];
    let mut i: usize = 1;
    while i < versions.len()
        invariant
            1 <= i <= versions@.len(),
            versions@.contains(best),
            forall|j: int| 0 <= j < i ==> !version_before(best, #[trigger] versions@[j]),
        decreases versions@.len() - i,
    {
        if best.is_before(&versions[i]) {
            best = versions[i];
        }
        i += 1;
    }
    Ok(best)
}

/// What the answer to the question for a release's builds says: a release
/// that the registry does not know is not found; an answer whose body holds
/// no build number counts as a failure of the network.
pub open spec fn latest_patch_of(status: u16, latest: Option<u32>) -> Result<u32, ErrorKind> {
    if status == 404 {
        Err(ErrorKind::NotFound)
    } else {
        match latest {
            Some(build) => Ok(build),
            None => Err(ErrorKind::Network),
        }
    }
}

/// The newest build of a release, from the status of the registry's answer
/// and the build number decoded from its body, if one was.
pub fn get_latest_patch(status: u16, latest: Option<u32>) -> (r: Result<u32, ErrorKind>)
    ensures
        r == latest_patch_of(status, latest),
{
    if status == 404 {
        Err(ErrorKind::NotFound)
    } else {
        match latest {
            Some(build) => Ok(build),
            None => Err(ErrorKind::Network),
        }
    }
}

/// What the status of the answer to a download request says.
pub open spec fn download_of(status: u16) -> Result<(), ErrorKind> {
    if status == 404 {
        Err(ErrorKind::NotFound)
    } else {
        Ok(())
    }
}

/// The build that a download asks for: the one that the version pins, or
/// else the registry's latest.
pub open spec fn requested_build(pinned: Option<u32>, latest: Option<u32>) -> Option<u32> {
    match pinned {
        Some(build) => Some(build),
        None => latest,
    }
}

/// The build that a download asks for: the one that the version pins, or
/// else the registry's latest. Where the version pins none and no latest
/// build is given, there is none to ask for yet: the registry has to be
/// asked for its latest first.
pub fn build_to_request(pinned: Option<u32>, latest: Option<u32>) -> (r: Option<u32>)
    ensures
        r == requested_build(pinned, latest),
{
    match pinned {
        Some(build) => Some(build),
        None => latest,
    }
}

/// Reads the answer to the request for the build `build` of `version`.
/// The version then pins that build, whatever the answer; its release is
/// as it was. The answer carries the artifact unless the registry does not
/// know the build.
pub fn download_response(version: &mut ServerVersion, build: u32, status: u16) -> (r: Result<
    (),
    ErrorKind,
>)
    ensures
        final(version).minecraft == old(version).minecraft,
        final(version).patch == Some(build),
        r == download_of(status),
{
    version.patch = Some(build);
    if status == 404 {
        Err(ErrorKind::NotFound)
    } else {
        Ok(())
    }
}

/// The address of the list of releases.
pub fn versions_url() -> (r: String)
    ensures
        r@ == "https://papermc.io/api/v1/paper"@,
{
    String::from_str("https://papermc.io/api/v1/paper")
}

/// The address of the builds of a release.
pub fn builds_url(version: &MinecraftVersion) -> (r: String)
    ensures
        r@ == "https://papermc.io/api/v1/paper/"@ + format_minecraft(*version),
{
    let mut r = String::from_str("https://papermc.io/api/v1/paper/");
    let v = version.to_string();
    r.append(v.as_str());
    r
}

/// The address of one build of a release.
pub open spec fn download_url_of(version: MinecraftVersion, build: u32) -> Seq<char> {
    "https://papermc.io/api/v1/paper/"@ + format_minecraft(version) + "/"@ + decimal(build as nat)
        + "/download"@
}

/// The address from which the artifact of `version` is downloaded, and the
/// build that it is: the build that the version pins, or else the
/// registry's latest. Nothing where the version pins no build and `latest`
/// gives none.
pub fn get_download_url(version: &ServerVersion, latest: Option<u32>) -> (r: Option<(String, u32)>)
    ensures
        match r {
            Some((url, build)) => requested_build(version.patch, latest) == Some(build) && url@
                == download_url_of(version.minecraft, build),
            None => requested_build(version.patch, latest) is None,
        },
{
    match build_to_request(version.patch, latest) {
        Some(build) => {
            let mut url = builds_url(&version.minecraft);
            url.append("/");
            let digits = decimal_string(build);
            url.append(digits.as_str());
            url.append("/download");
            Some((url, build))
        },
        None => None,
    }
}

// ---------------------------------------------------------------------------
// The server on disk
// ---------------------------------------------------------------------------

/// What has to exist before a server starts.
#[derive(Debug)]
pub struct Layout {
    /// The directories of the server, to be created with their parents.
    pub directories: Vec<PathBuf>,
    /// The file that accepts the license.
    pub eula: PathBuf,
    /// What that file holds.
    pub eula_text: String,
}

/// What has to exist before a server starts, as a mathematical value.
pub struct LayoutView {
    pub directories: Seq<PathBuf>,
    pub eula: PathBuf,
    pub eula_text: Seq<char>,
}

impl View for Layout {
    type V = LayoutView;

    open spec fn view(&self) -> LayoutView {
        LayoutView {
            directories: self.directories@,
            eula: self.eula,
            eula_text: self.eula_text@,
        }
    }
}

/// The directories of the server `name` below `data_dir`: in the directory
/// that has the server's name, one for configurations, one for worlds and
/// one for plugins.
pub open spec fn directories_of(data_dir: PathBuf, name: Seq<char>) -> Seq<PathBuf> {
    let home = joined(data_dir, name);
    seq![joined(home, "configs"@), joined(home, "worlds"@), joined(home, "plugins"@)]
}

/// What has to exist before the server `name` starts, below `data_dir`: its
/// directories, and the license file, with its line, in the directory of
/// configurations.
pub open spec fn layout_of(data_dir: PathBuf, name: Seq<char>) -> LayoutView {
    LayoutView {
        directories: directories_of(data_dir, name),
        eula: joined(joined(joined(data_dir, name), "configs"@), "eula.txt"@),
        eula_text: eula_line(),
    }
}

/// The names of the directories of a server, inside its own directory.
pub open spec fn directory_names() -> Seq<Seq<char>> {
    seq!["configs"@, "worlds"@, "plugins"@]
}

/// The line that accepts the license.
pub open spec fn eula_line() -> Seq<char> {
    "eula=true\n"@
}

/// The names of the directories of a server: for its configuration, its
/// worlds and its plugins.
pub fn directories() -> (r: Vec<String>)
    ensures
        texts_of(r@) == directory_names(),
{
    let mut r: Vec<String> = Vec::new();
    r.push(String::from_str("configs"));
    r.push(String::from_str("worlds"));
    r.push(String::from_str("plugins"));
    assert(texts_of(r@) =~= directory_names());
    r
}

/// The directories of the server `name` below `data_dir`. A server that
/// was just created has these, and nothing in them.
pub fn server_directories(name: &str, data_dir: &PathBuf) -> (r: Vec<PathBuf>)
    ensures
        r@ == directories_of(*data_dir, name@),
{
    let home = join(data_dir, name);
    let names = directories();
    assert(texts_of(names@).len() == names@.len());
    assert(directory_names().len() == 3);
    let mut made: Vec<PathBuf> = Vec::new();
    let mut i: usize = 0;
    while i < names.len()
        invariant
            i <= names@.len(),
            names@.len() == 3,
            texts_of(names@) == directory_names(),
            made@.len() == i,
            forall|j: int| 0 <= j < i ==> #[trigger] made@[j] == joined(home, directory_names()[j]),
        decreases names@.len() - i,
    {
        assert(texts_of(names@)[i as int] == names@[i as int]@);
        made.push(join(&home, names[i].as_str()));
        i += 1;
    }
    assert(made@ =~= directories_of(*data_dir, name@));
    made
}

/// What has to exist before the server `config` starts: its directories
/// below `data_dir`, and the license file in the directory of
/// configurations.
pub fn initialize(config: &ServerConfig, data_dir: &PathBuf) -> (r: Layout)
    ensures
        r@ == layout_of(*data_dir, config.name@),
{
    let directories = server_directories(config.name.as_str(), data_dir);
    let home = join(data_dir, config.name.as_str());
    let configs = join(&home, "configs");
    Layout {
        directories,
        eula: join(&configs, "eula.txt"),
        eula_text: String::from_str("eula=true\n"),
    }
}

// ---------------------------------------------------------------------------
// The command line
// ---------------------------------------------------------------------------

/// The paths of the settings files of a server.
#[derive(Debug, Clone)]
pub struct SettingsFiles {
    pub paper: String,
    pub spigot: String,
    pub bukkit: String,
    pub properties: String,
    pub commands: String,
}

/// The arguments of a Paper server: no window, each settings file behind its
/// option, then the directory of worlds and the directory of plugins.
pub open spec fn argument_list(
    paper: Seq<char>,
    spigot: Seq<char>,
    bukkit: Seq<char>,
    properties: Seq<char>,
    commands: Seq<char>,
    worlds: Seq<char>,
    plugins: Seq<char>,
) -> Seq<Seq<char>> {
    seq![
        "--nogui"@,
        "--paper-settings"@,
        paper,
        "--spigot-settings"@,
        spigot,
        "--bukkit-settings"@,
        bukkit,
        "--config"@,
        properties,
        "--commands-settings"@,
        commands,
        "--universe"@,
        worlds,
        "--plugins"@,
        plugins,
    ]
}

/// The arguments of a Paper server whose settings files, worlds and plugins
/// are at the given places.
pub fn arguments(files: &SettingsFiles, worlds: &str, plugins: &str) -> (r: Vec<String>)
    ensures
        texts_of(r@) == argument_list(
            files.paper@,
            files.spigot@,
            files.bukkit@,
            files.properties@,
            files.commands@,
            worlds@,
            plugins@,
        ),
{
    let mut r: Vec<String> = Vec::new();
    r.push(String::from_str("--nogui"));
    r.push(String::from_str("--paper-settings"));
    r.push(files.paper.clone());
    r.push(String::from_str("--spigot-settings"));
    r.push(files.spigot.clone());
    r.push(String::from_str("--bukkit-settings"));
    r.push(files.bukkit.clone());
    r.push(String::from_str("--config"));
    r.push(files.properties.clone());
    r.push(String::from_str("--commands-settings"));
    r.push(files.commands.clone());
    r.push(String::from_str("--universe"));
    r.push(String::from_str(worlds));
    r.push(String::from_str("--plugins"));
    r.push(String::from_str(plugins));
    assert(texts_of(r@) =~= argument_list(
        files.paper@,
        files.spigot@,
        files.bukkit@,
        files.properties@,
        files.commands@,
        worlds@,
        plugins@,
    ));
    r
}

/// The arguments of a Paper server whose directories of configurations,
/// worlds and plugins are the given ones. The three paths are taken as they
/// are: the caller resolves them to absolute paths first.
pub fn server_args(configs: &PathBuf, worlds: &PathBuf, plugins: &PathBuf) -> (r: Vec<String>)
    ensures
        texts_of(r@) == server_argument_list(*configs, *worlds, *plugins),
{
    let files = SettingsFiles {
        paper: display(&join(configs, "paper.yml")),
        spigot: display(&join(configs, "spigot.yml")),
        bukkit: display(&join(configs, "bukkit.yml")),
        properties: display(&join(configs, "server.properties")),
        commands: display(&join(configs, "commands.yml")),
    };
    let worlds_text = display(worlds);
    let plugins_text = display(plugins);
    arguments(&files, worlds_text.as_str(), plugins_text.as_str())
}

/// The arguments of a Paper server whose directories of configurations,
/// worlds and plugins are the given ones.
pub open spec fn server_argument_list(configs: PathBuf, worlds: PathBuf, plugins: PathBuf) -> Seq<
    Seq<char>,
> {
    argument_list(
        shown(joined(configs, "paper.yml"@)),
        shown(joined(configs, "spigot.yml"@)),
        shown(joined(configs, "bukkit.yml"@)),
        shown(joined(configs, "server.properties"@)),
        shown(joined(configs, "commands.yml"@)),
        shown(worlds),
        shown(plugins),
    )
}

/// A program, its arguments and the directory in which it runs.
#[derive(Debug)]
pub struct Command {
    pub program: String,
    pub arguments: Vec<String>,
    pub directory: PathBuf,
}

/// A command as a mathematical value.
pub struct CommandView {
    pub program: Seq<char>,
    pub arguments: Seq<Seq<char>>,
    pub directory: PathBuf,
}

impl View for Command {
    type V = CommandView;

    open spec fn view(&self) -> CommandView {
        CommandView {
            program: self.program@,
            arguments: texts_of(self.arguments@),
            directory: self.directory,
        }
    }
}

/// The program that runs a server.
pub open spec fn runtime() -> Seq<char> {
    "java"@
}

/// The arguments of the runtime: the extra Java arguments of the
/// configuration, the artifact, the arguments of the server, and the extra
/// server arguments of the configuration.
pub open spec fn command_line(config: ServerConfigView, jar: Seq<char>, server_args: Seq<Seq<char>>) -> Seq<
    Seq<char>,
> {
    config.extra_java_args + seq!["-jar"@, jar] + server_args + config.extra_server_args
}

/// The command that starts the server `config` from the artifact `jar`:
/// the runtime, run in the directory of configurations, with the arguments
/// of `command_line`.
pub open spec fn launch_of(
    config: ServerConfigView,
    jar: PathBuf,
    configs: PathBuf,
    worlds: PathBuf,
    plugins: PathBuf,
) -> CommandView {
    CommandView {
        program: runtime(),
        arguments: command_line(config, shown(jar), server_argument_list(configs, worlds, plugins)),
        directory: configs,
    }
}

/// The arguments of the runtime for the server `config`, the artifact at
/// `jar` and the given arguments of the server.
pub fn command_arguments(config: &ServerConfig, jar: &str, server_args: &Vec<String>) -> (r: Vec<
    String,
>)
    ensures
        texts_of(r@) == command_line(config@, jar@, texts_of(server_args@)),
{
    let mut arguments: Vec<String> = Vec::new();
    assert(texts_of(arguments@) =~= Seq::<Seq<char>>::empty());
    extend_texts(&mut arguments, &config.extra_java_args);
    let ghost java = texts_of(arguments@);
    arguments.push(String::from_str("-jar"));
    arguments.push(String::from_str(jar));
    assert(texts_of(arguments@) =~= java + seq!["-jar"@, jar@]);
    extend_texts(&mut arguments, server_args);
    extend_texts(&mut arguments, &config.extra_server_args);
    assert(texts_of(arguments@) =~= command_line(config@, jar@, texts_of(server_args@)));
    arguments
}

/// The command that starts the server `config` from the artifact `jar`.
/// The three directories are taken as they are: the caller resolves them
/// to absolute paths first. The command runs in the directory of
/// configurations. Nothing is spawned here.
pub fn launch(
    config: &ServerConfig,
    jar: &PathBuf,
    configs: PathBuf,
    worlds: &PathBuf,
    plugins: &PathBuf,
) -> (r: Command)
    ensures
        r@ == launch_of(config@, *jar, configs, *worlds, *plugins),
{
    let server = server_args(&configs, worlds, plugins);
    let artifact = display(jar);
    let arguments = command_arguments(config, artifact.as_str(), &server);
    Command { program: String::from_str("java"), arguments, directory: configs }
}

} // verus!
