use rustone::cacher::{
    cache_jar, erase_cache, get_cached, get_cached_patch, is_latest, read_cache_meta,
    write_cache_meta, CacheMeta, CachedJarMetaKey,
};
use rustone::config::MinecraftVersion;
use rustone::errors::{ErrorKind, Field, VersionPart};
use std::path::PathBuf;

fn paper(major: u32, minor: u32, patch: Option<u32>) -> CachedJarMetaKey {
    CachedJarMetaKey { version: MinecraftVersion(major, minor, patch), kind: "paper".to_string() }
}

#[test]
fn a_cached_build_is_found_again() {
    let mut meta = CacheMeta::new();
    let key = paper(1, 12, Some(2));
    assert_eq!(get_cached_patch(&meta, &key), None);
    let jar = cache_jar(&mut meta, key.version, 7, key.kind.clone(), &PathBuf::from("cache"));
    assert_eq!(jar.version.minecraft, MinecraftVersion(1, 12, Some(2)));
    assert_eq!(jar.version.patch, Some(7));
    assert_eq!(jar.path, PathBuf::from("cache").join("paper-1.12.2.jar"));
    assert_eq!(get_cached_patch(&meta, &key), Some(7));
}

#[test]
fn a_second_build_replaces_the_first() {
    let mut meta = CacheMeta::new();
    let key = paper(1, 12, Some(2));
    cache_jar(&mut meta, key.version, 7, key.kind.clone(), &PathBuf::from("cache"));
    cache_jar(&mut meta, key.version, 9, key.kind.clone(), &PathBuf::from("cache"));
    assert_eq!(get_cached_patch(&meta, &key), Some(9));
    assert_eq!(meta.len(), 1);
    let entries = meta.entries();
    assert_eq!(entries.len(), 1);
    assert_eq!(entries[0], (key, 9));
}

#[test]
fn other_keys_keep_their_builds() {
    let mut meta = CacheMeta::new();
    let a = paper(1, 12, Some(2));
    let b = paper(1, 17, None);
    let c = CachedJarMetaKey { version: a.version, kind: "forge".to_string() };
    meta.insert(a.duplicate(), 1);
    meta.insert(b.duplicate(), 2);
    meta.insert(c.duplicate(), 3);
    meta.insert(b.duplicate(), 20);
    assert_eq!(meta.len(), 3);
    assert_eq!(meta.get(&a), Some(1));
    assert_eq!(meta.get(&b), Some(20));
    assert_eq!(meta.get(&c), Some(3));
    assert_eq!(meta.get(&paper(1, 12, None)), None);
    assert_eq!(meta.entries(), vec![(a, 1), (b, 20), (c, 3)]);
}

#[test]
fn erasing_forgets_every_entry() {
    let mut meta = CacheMeta::new();
    meta.insert(paper(1, 12, Some(2)), 1);
    meta.insert(paper(1, 17, None), 2);
    erase_cache(&mut meta);
    assert_eq!(meta.len(), 0);
    assert_eq!(get_cached_patch(&meta, &paper(1, 12, Some(2))), None);
}

#[test]
fn staleness_is_decided_conservatively() {
    let mut meta = CacheMeta::new();
    let key = paper(1, 12, Some(2));
    assert!(!is_latest(&meta, &key, &Ok(3)));
    meta.insert(key.duplicate(), 7);
    assert!(is_latest(&meta, &key, &Ok(7)));
    assert!(is_latest(&meta, &key, &Ok(6)));
    assert!(!is_latest(&meta, &key, &Ok(8)));
    assert!(!is_latest(&meta, &key, &Err(ErrorKind::Network)));
    assert!(!is_latest(&meta, &key, &Err(ErrorKind::NotFound)));
    assert!(!is_latest(&meta, &paper(1, 13, None), &Ok(0)));
}

#[test]
fn an_artifact_needs_entry_and_file() {
    let mut meta = CacheMeta::new();
    let key = paper(1, 12, Some(2));
    let cache = PathBuf::from("cache");
    assert!(get_cached(&meta, &key, &cache, true).is_none());
    meta.insert(key.duplicate(), 7);
    assert!(get_cached(&meta, &key, &cache, false).is_none());
    let jar = get_cached(&meta, &key, &cache, true).unwrap();
    assert_eq!(jar.version.minecraft, key.version);
    assert_eq!(jar.version.patch, Some(7));
    assert_eq!(jar.path, cache.join("paper-1.12.2.jar"));
}

#[test]
fn keys_have_a_text_and_a_file_name() {
    let key = paper(1, 12, Some(2));
    assert_eq!(key.to_string(), "paper@1.12.2");
    assert_eq!(key.file_name(), "paper-1.12.2.jar");
    assert_eq!(paper(1, 17, None).to_string(), "paper@1.17");
    assert_eq!(paper(1, 17, None).file_name(), "paper-1.17.jar");
    assert_eq!(
        key.path(&PathBuf::from("cache")),
        PathBuf::from("cache").join("paper-1.12.2.jar")
    );
}

#[test]
fn keys_are_read_from_their_text() {
    assert_eq!(CachedJarMetaKey::parse("paper@1.12.2").unwrap(), paper(1, 12, Some(2)));
    assert_eq!(CachedJarMetaKey::parse("paper@1.17").unwrap(), paper(1, 17, None));
    assert_eq!(CachedJarMetaKey::parse("paper@1.17-5").unwrap(), paper(1, 17, None));
    assert_eq!(CachedJarMetaKey::parse("paper@1.12.2-5").unwrap(), paper(1, 12, Some(2)));
    assert_eq!(
        CachedJarMetaKey::parse("@1.17").unwrap(),
        CachedJarMetaKey { version: MinecraftVersion(1, 17, None), kind: String::new() }
    );
    assert_eq!(CachedJarMetaKey::parse("paper").unwrap_err(), ErrorKind::CacheKey);
    assert_eq!(CachedJarMetaKey::parse("").unwrap_err(), ErrorKind::CacheKey);
    assert_eq!(
        CachedJarMetaKey::parse("paper@").unwrap_err(),
        ErrorKind::Parse(VersionPart::Major)
    );
    assert_eq!(
        CachedJarMetaKey::parse("a@b@1.2").unwrap_err(),
        ErrorKind::Parse(VersionPart::Major)
    );
    assert_eq!(
        CachedJarMetaKey::parse("p\u{e9}per@1").unwrap_err(),
        ErrorKind::Parse(VersionPart::Minor)
    );
    let key = CachedJarMetaKey::parse("p\u{e9}per@1.2").unwrap();
    assert_eq!(key.kind, "p\u{e9}per");
    assert_eq!(CachedJarMetaKey::parse(&key.to_string()).unwrap(), key);
}

#[test]
fn no_document_is_an_empty_cache() {
    let meta = read_cache_meta(None).unwrap();
    assert_eq!(meta.len(), 0);
}

#[test]
fn the_index_is_read_from_its_document() {
    let meta = read_cache_meta(Some("[jars]\n\"paper@1.12.2\" = 4\n\"paper@1.17\" = 12\n")).unwrap();
    assert_eq!(meta.len(), 2);
    assert_eq!(meta.get(&paper(1, 12, Some(2))), Some(4));
    assert_eq!(meta.get(&paper(1, 17, None)), Some(12));
    let empty = read_cache_meta(Some("[jars]\n")).unwrap();
    assert_eq!(empty.len(), 0);
}

#[test]
fn a_wrong_document_is_refused() {
    assert_eq!(read_cache_meta(Some("[jars")).unwrap_err(), ErrorKind::Syntax);
    assert_eq!(read_cache_meta(Some("")).unwrap_err(), ErrorKind::Field(Field::Jars));
    assert_eq!(read_cache_meta(Some("jars = 3")).unwrap_err(), ErrorKind::Field(Field::Jars));
    assert_eq!(
        read_cache_meta(Some("[jars]\npaper = 4\n")).unwrap_err(),
        ErrorKind::CacheKey
    );
    assert_eq!(
        read_cache_meta(Some("[jars]\n\"paper@1\" = 4\n")).unwrap_err(),
        ErrorKind::Parse(VersionPart::Minor)
    );
    assert_eq!(
        read_cache_meta(Some("[jars]\n\"paper@1.12\" = \"4\"\n")).unwrap_err(),
        ErrorKind::BuildNumber
    );
    assert_eq!(
        read_cache_meta(Some("[jars]\n\"paper@1.12\" = -1\n")).unwrap_err(),
        ErrorKind::BuildNumber
    );
    assert_eq!(
        read_cache_meta(Some("[jars]\n\"paper@1.12\" = 4294967296\n")).unwrap_err(),
        ErrorKind::BuildNumber
    );
    let edge = read_cache_meta(Some("[jars]\n\"paper@1.12\" = 4294967295\n")).unwrap();
    assert_eq!(edge.get(&paper(1, 12, None)), Some(4294967295));
}

#[test]
fn the_document_of_an_index_reads_back() {
    let mut meta = CacheMeta::new();
    meta.insert(paper(1, 12, Some(2)), 7);
    meta.insert(paper(1, 17, None), 0);
    meta.insert(paper(1, 12, Some(2)), 9);
    let text = write_cache_meta(&meta).unwrap();
    let document: toml::Value = text.parse().unwrap();
    let jars = document.get("jars").unwrap().as_table().unwrap();
    assert_eq!(jars.len(), 2);
    assert_eq!(jars.get("paper@1.12.2").unwrap().as_integer(), Some(9));
    assert_eq!(jars.get("paper@1.17").unwrap().as_integer(), Some(0));
    let again = read_cache_meta(Some(&text)).unwrap();
    assert_eq!(again.len(), 2);
    assert_eq!(again.get(&paper(1, 12, Some(2))), Some(9));
    assert_eq!(again.get(&paper(1, 17, None)), Some(0));
}

#[test]
fn the_document_of_an_empty_index_reads_back() {
    let text = write_cache_meta(&CacheMeta::new()).unwrap();
    let document = CacheMeta::new().to_document();
    assert!(document.get("jars").unwrap().as_table().unwrap().is_empty());
    assert_eq!(read_cache_meta(Some(&text)).unwrap().len(), 0);
}

#[test]
fn the_index_is_read_from_a_parsed_document() {
    let mut jars = toml::value::Table::new();
    jars.insert("paper@1.16.5".to_string(), toml::Value::Integer(3));
    let mut root = toml::value::Table::new();
    root.insert("jars".to_string(), toml::Value::Table(jars));
    let meta = CacheMeta::from_document(&toml::Value::Table(root)).unwrap();
    assert_eq!(meta.get(&paper(1, 16, Some(5))), Some(3));
    assert_eq!(
        CacheMeta::from_document(&toml::Value::Integer(1)).unwrap_err(),
        ErrorKind::Field(Field::Jars)
    );
}

#[test]
fn of_two_texts_for_one_key_the_later_text_wins() {
    let document = "[jars]\n\"paper@1.12-5\" = 1\n\"paper@1.12\" = 2\n\"paper@01.12\" = 3\n";
    let meta = read_cache_meta(Some(document)).unwrap();
    assert_eq!(meta.len(), 1);
    assert_eq!(meta.get(&paper(1, 12, None)), Some(1));
    let other = "[jars]\n\"paper@1.12\" = 2\n\"paper@01.12\" = 3\n";
    assert_eq!(read_cache_meta(Some(other)).unwrap().get(&paper(1, 12, None)), Some(2));
}

#[test]
fn the_first_wrong_entry_is_reported() {
    let document = "[jars]\n\"zzz\" = 1\n\"paper@1\" = 2\n\"paper@1.12\" = -3\n";
    assert_eq!(
        read_cache_meta(Some(document)).unwrap_err(),
        ErrorKind::Parse(VersionPart::Minor)
    );
    let other = "[jars]\n\"zzz\" = 1\n\"paper@1.12\" = -3\n\"a@x\" = 2\n";
    assert_eq!(
        read_cache_meta(Some(other)).unwrap_err(),
        ErrorKind::Parse(VersionPart::Major)
    );
    let third = "[jars]\n\"zzz\" = 1\n\"paper@1.12\" = -3\n\"Zzz\" = 2\n";
    assert_eq!(read_cache_meta(Some(third)).unwrap_err(), ErrorKind::CacheKey);
    let fourth = "[jars]\n\"zzz\" = 1\n\"paper@1.12\" = -3\n";
    assert_eq!(read_cache_meta(Some(fourth)).unwrap_err(), ErrorKind::BuildNumber);
}
