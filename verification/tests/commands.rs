use rustone::actions::{cache, command, confirmation, download, list, purge, remove, Command};
use rustone::cacher::{CacheMeta, CachedJarMetaKey};
use rustone::config::{MinecraftVersion, ServerConfig, ServerVersion};
use rustone::errors::{ErrorKind, ServoError};
use rustone::refresh::Action;
use rustone::routes::{
    get_server, list_servers, start_server, status, ACCEPTED, INTERNAL_SERVER_ERROR, NOT_FOUND, OK,
};
use rustone::servers::Server;
use rustone::text::{concat2, concat3, extend_texts, same_text};

#[test]
fn commands_are_named_by_words() {
    assert_eq!(command("download"), Some(Command::Download));
    assert_eq!(command("list"), Some(Command::List));
    assert_eq!(command("create"), Some(Command::Create));
    assert_eq!(command("start"), Some(Command::Start));
    assert_eq!(command("remove"), Some(Command::Remove));
    assert_eq!(command("cache"), None);
    assert_eq!(command("upgrade"), None);
    assert_eq!(cache("upgrade"), Some(Command::CacheUpgrade));
    assert_eq!(cache("purge"), Some(Command::CachePurge));
    assert_eq!(cache("list"), None);
}

#[test]
fn a_download_goes_where_it_is_told_or_to_its_default() {
    let version = ServerVersion::new("1.12.2-4").unwrap();
    assert_eq!(download(&version, None), "paper-1.12.2.jar");
    assert_eq!(download(&version, Some("server.jar")), "server.jar");
    assert_eq!(download(&ServerVersion::new("1.17").unwrap(), None), "paper-1.17.jar");
}

#[test]
fn a_removal_needs_the_exact_sentence() {
    assert_eq!(confirmation("lobby"), "Yes, erase lobby completely and irrecoverably.");
    assert!(remove("lobby", "Yes, erase lobby completely and irrecoverably."));
    assert!(!remove("lobby", "yes, erase lobby completely and irrecoverably."));
    assert!(!remove("lobby", "Yes, erase lobby completely and irrecoverably"));
    assert!(!remove("lobby", "Yes, erase hub completely and irrecoverably."));
    assert!(!remove("lobby", ""));
}

#[test]
fn servers_are_listed_by_name_and_version() {
    let server = |name: &str, version: &str| Server {
        config: ServerConfig {
            version: ServerVersion::new(version).unwrap(),
            name: name.to_string(),
            kind: "paper".to_string(),
            extra_java_args: Vec::new(),
            extra_server_args: Vec::new(),
        },
    };
    let lines = list(&vec![server("a", "1.12.2-4"), server("b", "1.17")]);
    assert_eq!(lines.len(), 2);
    assert_eq!(lines[0].name, "a");
    assert_eq!(lines[0].version, "1.12.2-4");
    assert_eq!(lines[1].name, "b");
    assert_eq!(lines[1].version, "1.17");
}

#[test]
fn a_purge_names_the_files_and_empties_the_index() {
    let mut meta = CacheMeta::new();
    meta.insert(
        CachedJarMetaKey { version: MinecraftVersion(1, 12, Some(2)), kind: "paper".to_string() },
        4,
    );
    meta.insert(
        CachedJarMetaKey { version: MinecraftVersion(1, 17, None), kind: "paper".to_string() },
        5,
    );
    let files = purge(&mut meta);
    assert_eq!(files, vec!["paper-1.12.2.jar".to_string(), "paper-1.17.jar".to_string()]);
    assert_eq!(meta.len(), 0);
    assert!(purge(&mut meta).is_empty());
}

#[test]
fn failures_have_their_status() {
    assert_eq!((OK, ACCEPTED, NOT_FOUND, INTERNAL_SERVER_ERROR), (200, 202, 404, 500));
    assert_eq!(status(ErrorKind::NotFound), 404);
    assert_eq!(status(ErrorKind::Io), 500);
    assert_eq!(status(ErrorKind::Network), 500);
    assert_eq!(status(ErrorKind::VersionMismatch), 500);
    assert_eq!(status(ErrorKind::Encode), 500);
    assert_eq!(get_server(true), 200);
    assert_eq!(get_server(false), 404);
    assert_eq!(list_servers(true), 200);
    assert_eq!(list_servers(false), 500);
}

#[test]
fn a_start_is_answered_by_what_it_set_going() {
    assert_eq!(start_server(false, &Ok(Action::Finish), true), 404);
    assert_eq!(start_server(false, &Err(ErrorKind::Network), false), 404);
    assert_eq!(start_server(true, &Err(ErrorKind::Network), true), 500);
    assert_eq!(start_server(true, &Err(ErrorKind::InvalidKind), false), 500);
    assert_eq!(start_server(true, &Ok(Action::Download(4)), true), 202);
    assert_eq!(start_server(true, &Ok(Action::Download(4)), false), 500);
    assert_eq!(start_server(true, &Ok(Action::Finish), true), 200);
    assert_eq!(start_server(true, &Ok(Action::Finish), false), 500);
}

#[test]
fn texts_are_compared_and_joined() {
    assert!(same_text("paper", "paper"));
    assert!(!same_text("paper", "papers"));
    assert!(same_text("", ""));
    assert_eq!(concat2("a", "bc"), "abc");
    assert_eq!(concat3("a", "", "bc"), "abc");
    let list = vec!["x".to_string(), "y".to_string()];
    let mut all = vec!["w".to_string()];
    extend_texts(&mut all, &list);
    assert_eq!(all, vec!["w".to_string(), "x".to_string(), "y".to_string()]);
}

#[test]
fn a_failure_in_words_keeps_its_words() {
    let failure = ServoError::new("Not enough arguments");
    assert_eq!(failure.description(), "Not enough arguments");
    assert_eq!(failure.to_string(), "Not enough arguments");
    let boxed = ServoError::boxnew("could not load config file");
    assert_eq!(boxed.description(), "could not load config file");
    assert_eq!(ServoError::new("").to_string(), "");
    assert_eq!(ServoError::new(" caf\u{e9}\n").description(), " caf\u{e9}\n");
}
