use rustone::actions::start;
use rustone::cacher::{CacheMeta, CachedJarMetaKey};
use rustone::config::{MinecraftVersion, ServerConfig, ServerVersion};
use rustone::errors::ErrorKind;
use rustone::refresh::{begin, bulk_refresh, settle, step, Action, Event, Failure, Outcome, Phase};

fn key(minor: u32) -> CachedJarMetaKey {
    CachedJarMetaKey { version: MinecraftVersion(1, minor, None), kind: "paper".to_string() }
}

fn run(cached: Option<u32>, latest: Result<u32, ErrorKind>, transfer: Result<(), ErrorKind>) -> (Outcome, u32) {
    let (mut phase, mut action) = begin();
    let mut downloads = 0;
    loop {
        let event = match action {
            Action::AskLatest => Event::Latest(latest),
            Action::Download(_) => {
                downloads += 1;
                Event::Transferred(transfer)
            }
            Action::Finish => break,
        };
        let next = step(cached, phase, event);
        phase = next.0;
        action = next.1;
    }
    match phase {
        Phase::Done(outcome) => (outcome, downloads),
        _ => unreachable!(),
    }
}

#[test]
fn a_unit_starts_by_asking() {
    assert_eq!(begin(), (Phase::Asking, Action::AskLatest));
}

#[test]
fn a_missing_artifact_is_downloaded_once() {
    assert_eq!(step(None, Phase::Asking, Event::Latest(Ok(7))), (Phase::Transferring(7), Action::Download(7)));
    assert_eq!(run(None, Ok(7), Ok(())), (Outcome::Downloaded(7), 1));
    assert_eq!(run(None, Ok(0), Ok(())), (Outcome::Downloaded(0), 1));
}

#[test]
fn a_current_artifact_is_not_downloaded() {
    assert_eq!(step(Some(7), Phase::Asking, Event::Latest(Ok(7))), (Phase::Done(Outcome::Kept), Action::Finish));
    assert_eq!(run(Some(7), Ok(7), Ok(())), (Outcome::Kept, 0));
    assert_eq!(run(Some(7), Ok(6), Ok(())), (Outcome::Kept, 0));
}

#[test]
fn a_stale_artifact_is_downloaded_once() {
    assert_eq!(run(Some(7), Ok(8), Ok(())), (Outcome::Downloaded(8), 1));
}

#[test]
fn failures_end_a_unit() {
    assert_eq!(run(Some(7), Err(ErrorKind::Network), Ok(())), (Outcome::Failed(ErrorKind::Network), 0));
    assert_eq!(run(None, Err(ErrorKind::NotFound), Ok(())), (Outcome::Failed(ErrorKind::NotFound), 0));
    assert_eq!(run(Some(7), Ok(8), Err(ErrorKind::Io)), (Outcome::Failed(ErrorKind::Io), 1));
}

#[test]
fn events_out_of_turn_change_nothing() {
    assert_eq!(
        step(None, Phase::Asking, Event::Transferred(Ok(()))),
        (Phase::Asking, Action::AskLatest)
    );
    assert_eq!(
        step(None, Phase::Transferring(3), Event::Latest(Ok(9))),
        (Phase::Transferring(3), Action::Download(3))
    );
    assert_eq!(
        step(None, Phase::Done(Outcome::Kept), Event::Latest(Ok(9))),
        (Phase::Done(Outcome::Kept), Action::Finish)
    );
}

#[test]
fn only_a_finished_download_reaches_the_index() {
    let mut meta = CacheMeta::new();
    meta.insert(key(12), 7);
    assert_eq!(settle(&mut meta, key(12), Outcome::Failed(ErrorKind::Network)), Err(ErrorKind::Network));
    assert_eq!(meta.get(&key(12)), Some(7));
    assert_eq!(settle(&mut meta, key(12), Outcome::Kept), Ok(()));
    assert_eq!(meta.get(&key(12)), Some(7));
    assert_eq!(settle(&mut meta, key(12), Outcome::Downloaded(9)), Ok(()));
    assert_eq!(meta.get(&key(12)), Some(9));
    assert_eq!(settle(&mut meta, key(13), Outcome::Failed(ErrorKind::Io)), Err(ErrorKind::Io));
    assert_eq!(meta.get(&key(13)), None);
    assert_eq!(settle(&mut meta, key(13), Outcome::Downloaded(1)), Ok(()));
    assert_eq!(meta.get(&key(13)), Some(1));
    assert_eq!(meta.len(), 2);
}

#[test]
fn a_refresh_downloads_what_is_newer_and_nothing_else() {
    let mut meta = CacheMeta::new();
    let cached = [5u32, 7, 9, 11];
    let latest = [5u32, 8, 3, 12];
    for (i, build) in cached.iter().enumerate() {
        meta.insert(key(i as u32), *build);
    }
    let mut units = Vec::new();
    let mut downloads = 0;
    for (i, entry) in meta.entries().into_iter().enumerate() {
        let (outcome, made) = run(Some(entry.1), Ok(latest[i]), Ok(()));
        downloads += made;
        units.push((entry.0, outcome));
    }
    assert_eq!(downloads, 2);
    assert_eq!(bulk_refresh(&mut meta, &units), Ok(2));
    assert_eq!(meta.len(), 4);
    assert_eq!(meta.get(&key(0)), Some(5));
    assert_eq!(meta.get(&key(1)), Some(8));
    assert_eq!(meta.get(&key(2)), Some(9));
    assert_eq!(meta.get(&key(3)), Some(12));
}

#[test]
fn a_failed_unit_stops_no_other() {
    let mut meta = CacheMeta::new();
    meta.insert(key(0), 1);
    meta.insert(key(1), 1);
    meta.insert(key(2), 1);
    let units = vec![
        (key(0), Outcome::Failed(ErrorKind::Network)),
        (key(1), Outcome::Downloaded(2)),
        (key(2), Outcome::Failed(ErrorKind::NotFound)),
    ];
    assert_eq!(
        bulk_refresh(&mut meta, &units),
        Err(vec![
            Failure { unit: 0, error: ErrorKind::Network },
            Failure { unit: 2, error: ErrorKind::NotFound },
        ])
    );
    assert_eq!(meta.get(&key(0)), Some(1));
    assert_eq!(meta.get(&key(1)), Some(2));
    assert_eq!(meta.get(&key(2)), Some(1));
}

#[test]
fn a_refresh_of_nothing_succeeds() {
    let mut meta = CacheMeta::new();
    assert_eq!(bulk_refresh(&mut meta, &Vec::new()), Ok(0));
    assert_eq!(meta.len(), 0);
}

fn config(version: &str) -> ServerConfig {
    ServerConfig {
        version: ServerVersion::new(version).unwrap(),
        name: "myserver".to_string(),
        kind: "paper".to_string(),
        extra_java_args: Vec::new(),
        extra_server_args: Vec::new(),
    }
}

#[test]
fn a_start_binds_the_server_to_what_was_downloaded() {
    let mut meta = CacheMeta::new();
    let found = start(&mut meta, &config("1.12.2"), Outcome::Downloaded(7)).unwrap();
    assert_eq!(found.version, MinecraftVersion(1, 12, Some(2)));
    assert_eq!(found.kind, "paper");
    assert_eq!(meta.get(&found), Some(7));
    let again = start(&mut meta, &config("1.12.2-3"), Outcome::Kept).unwrap();
    assert_eq!(again, found);
    assert_eq!(meta.get(&found), Some(7));
}

#[test]
fn a_start_fails_with_its_unit_or_without_artifact() {
    let mut meta = CacheMeta::new();
    assert_eq!(
        start(&mut meta, &config("1.12.2"), Outcome::Failed(ErrorKind::Network)),
        Err(ErrorKind::Network)
    );
    assert_eq!(meta.len(), 0);
    assert_eq!(start(&mut meta, &config("1.12.2"), Outcome::Kept), Err(ErrorKind::VersionMismatch));
}
