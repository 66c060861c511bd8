use rustone::config::{decimal_string, MinecraftVersion, ServerConfig, ServerVersion};
use rustone::errors::{ErrorKind, Field, VersionPart};

#[test]
fn version_parse() {
    let version = ServerVersion::new("1.12.2-4").unwrap();
    assert_eq!(version.patch.unwrap(), 4);
    assert_eq!(version.minecraft, MinecraftVersion(1, 12, Some(2)));
}

#[test]
fn lib_version_parse() {
    let version = ServerVersion::new("1.12.2-4").unwrap();
    assert_eq!(version.patch.unwrap(), 4);
    assert_eq!(version.minecraft, MinecraftVersion(1, 12, Some(2)));
}

#[test]
fn config_parse() {
    let config = ServerConfig::new("name = 'something'\nversion = '1.12.2-4'").unwrap();
    assert_eq!(config.name, "something");
    assert_eq!(config.version, ServerVersion::new("1.12.2-4").unwrap());
}

#[test]
fn lib_config_parse() {
    let config = ServerConfig::new("name = 'something'\nversion = '1.12.2-4'").unwrap();
    assert_eq!(config.name, "something");
    assert_eq!(config.version, ServerVersion::new("1.12.2-4").unwrap());
}

#[test]
fn incorrect_version_is_an_error() {
    assert_eq!(
        ServerVersion::new("blah.blah-blah").unwrap_err(),
        ErrorKind::Parse(VersionPart::Major)
    );
}

#[test]
fn incorrect_config_is_an_error() {
    let error = ServerConfig::new("version = '1.12.2-4'").unwrap_err();
    assert_eq!(error, ErrorKind::Field(Field::Name));
    assert!(error.message().contains("invalid server configuration"));
}

#[test]
fn one_component_is_refused() {
    assert_eq!(ServerVersion::new("1").unwrap_err(), ErrorKind::Parse(VersionPart::Minor));
}

#[test]
fn two_components_have_no_patch_and_no_build() {
    let version = ServerVersion::new("1.12").unwrap();
    assert_eq!(version.minecraft, MinecraftVersion(1, 12, None));
    assert_eq!(version.patch, None);
}

#[test]
fn three_components_have_a_patch_and_no_build() {
    let version = ServerVersion::new("1.12.2").unwrap();
    assert_eq!(version.minecraft, MinecraftVersion(1, 12, Some(2)));
    assert_eq!(version.patch, None);
}

#[test]
fn four_components_have_patch_and_build() {
    let version = ServerVersion::new("1.12.2-4").unwrap();
    assert_eq!(version.minecraft, MinecraftVersion(1, 12, Some(2)));
    assert_eq!(version.patch, Some(4));
}

#[test]
fn each_component_is_named_when_it_is_wrong() {
    assert_eq!(ServerVersion::new("").unwrap_err(), ErrorKind::Parse(VersionPart::Major));
    assert_eq!(ServerVersion::new("x.1").unwrap_err(), ErrorKind::Parse(VersionPart::Major));
    assert_eq!(ServerVersion::new("1.").unwrap_err(), ErrorKind::Parse(VersionPart::Minor));
    assert_eq!(ServerVersion::new("1.x").unwrap_err(), ErrorKind::Parse(VersionPart::Minor));
    assert_eq!(ServerVersion::new("1.2.x").unwrap_err(), ErrorKind::Parse(VersionPart::Patch));
    assert_eq!(ServerVersion::new("1.2.").unwrap_err(), ErrorKind::Parse(VersionPart::Patch));
    assert_eq!(ServerVersion::new("1.2.3-x").unwrap_err(), ErrorKind::Parse(VersionPart::Build));
    assert_eq!(ServerVersion::new("1.2.3-").unwrap_err(), ErrorKind::Parse(VersionPart::Build));
}

#[test]
fn the_dash_introduces_the_build() {
    let no_patch = ServerVersion::new("1.12-4").unwrap();
    assert_eq!(no_patch.minecraft, MinecraftVersion(1, 12, None));
    assert_eq!(no_patch.patch, Some(4));
    let full = ServerVersion::new("1.12.2-4").unwrap();
    assert_eq!(full.minecraft, MinecraftVersion(1, 12, Some(2)));
    assert_eq!(full.patch, Some(4));
    assert_eq!(ServerVersion::new("1-12-2-4").unwrap_err(), ErrorKind::Parse(VersionPart::Minor));
    assert_eq!(ServerVersion::new("1-12").unwrap_err(), ErrorKind::Parse(VersionPart::Minor));
    assert_eq!(ServerVersion::new("-4").unwrap_err(), ErrorKind::Parse(VersionPart::Major));
    assert_eq!(ServerVersion::new("1.12-x").unwrap_err(), ErrorKind::Parse(VersionPart::Build));
    assert_eq!(ServerVersion::new("1.12-").unwrap_err(), ErrorKind::Parse(VersionPart::Build));
    assert_eq!(ServerVersion::new("1.x-4").unwrap_err(), ErrorKind::Parse(VersionPart::Minor));
}

#[test]
fn pieces_behind_the_build_are_ignored() {
    for text in ["1.2.3-4.rest", "1.2.3-4-5", "1.2.3.4", "1.2.3.4.5", "1.2.3.4.x", "1.2.3.4-x"] {
        let version = ServerVersion::new(text).unwrap();
        assert_eq!(version.minecraft, MinecraftVersion(1, 2, Some(3)));
        assert_eq!(version.patch, Some(4));
    }
}

#[test]
fn a_fourth_piece_is_the_build() {
    let dotted = ServerVersion::new("1.12.2.4").unwrap();
    assert_eq!(dotted.minecraft, MinecraftVersion(1, 12, Some(2)));
    assert_eq!(dotted.patch, Some(4));
    let both = ServerVersion::new("1.2.3.9-4").unwrap();
    assert_eq!(both.minecraft, MinecraftVersion(1, 2, Some(3)));
    assert_eq!(both.patch, Some(9));
    assert_eq!(ServerVersion::new("1.12.2.x").unwrap_err(), ErrorKind::Parse(VersionPart::Build));
    assert_eq!(ServerVersion::new("1.2.3.").unwrap_err(), ErrorKind::Parse(VersionPart::Build));
    assert_eq!(ServerVersion::new("1.2.3.x-4").unwrap_err(), ErrorKind::Parse(VersionPart::Build));
    assert_eq!(ServerVersion::new("1.2.3..4").unwrap_err(), ErrorKind::Parse(VersionPart::Build));
    assert_eq!(ServerVersion::new("1.2.x.4").unwrap_err(), ErrorKind::Parse(VersionPart::Patch));
    assert_eq!(ServerVersion::new("blah.blah-blah").unwrap_err(), ErrorKind::Parse(VersionPart::Major));
}

#[test]
fn numbers_follow_the_integer_grammar() {
    assert_eq!(ServerVersion::new("+1.012").unwrap().minecraft, MinecraftVersion(1, 12, None));
    assert_eq!(
        ServerVersion::new("4294967295.0").unwrap().minecraft,
        MinecraftVersion(4294967295, 0, None)
    );
    assert_eq!(
        ServerVersion::new("4294967296.0").unwrap_err(),
        ErrorKind::Parse(VersionPart::Major)
    );
    assert_eq!(
        ServerVersion::new("1.99999999999999999999").unwrap_err(),
        ErrorKind::Parse(VersionPart::Minor)
    );
    assert_eq!(ServerVersion::new("+.1").unwrap_err(), ErrorKind::Parse(VersionPart::Major));
    assert_eq!(ServerVersion::new("1 .1").unwrap_err(), ErrorKind::Parse(VersionPart::Major));
    assert_eq!(ServerVersion::new("\u{ff11}.1").unwrap_err(), ErrorKind::Parse(VersionPart::Major));
}

#[test]
fn versions_are_written_in_canonical_form() {
    let full = ServerVersion { minecraft: MinecraftVersion(1, 12, Some(2)), patch: Some(4) };
    assert_eq!(full.to_string(), "1.12.2-4");
    let no_build = ServerVersion { minecraft: MinecraftVersion(1, 12, Some(2)), patch: None };
    assert_eq!(no_build.to_string(), "1.12.2");
    let short = ServerVersion { minecraft: MinecraftVersion(1, 17, None), patch: None };
    assert_eq!(short.to_string(), "1.17");
    let odd = ServerVersion { minecraft: MinecraftVersion(1, 17, None), patch: Some(5) };
    assert_eq!(odd.to_string(), "1.17-5");
    assert_eq!(MinecraftVersion(0, 0, Some(0)).to_string(), "0.0.0");
    assert_eq!(MinecraftVersion(4294967295, 10, Some(100)).to_string(), "4294967295.10.100");
}

#[test]
fn decimal_notation_is_the_shortest() {
    assert_eq!(decimal_string(0), "0");
    assert_eq!(decimal_string(7), "7");
    assert_eq!(decimal_string(10), "10");
    assert_eq!(decimal_string(1203), "1203");
    assert_eq!(decimal_string(u32::MAX), "4294967295");
}

#[test]
fn writing_and_reading_gives_the_version_back() {
    for text in ["1.12", "1.12.2", "1.12.2-4", "0.0.0-0", "+1.02.003-0004", "1.17-5", "1.2.3.4.5"] {
        let first = ServerVersion::new(text).unwrap();
        let again = ServerVersion::new(&first.to_string()).unwrap();
        assert_eq!(again.minecraft, first.minecraft);
        assert_eq!(again.patch, first.patch);
    }
}

#[test]
fn every_version_is_read_back_from_its_text() {
    for minecraft in [MinecraftVersion(1, 17, None), MinecraftVersion(1, 12, Some(2))] {
        for patch in [None, Some(0), Some(5), Some(4294967295)] {
            let version = ServerVersion { minecraft, patch };
            let again = ServerVersion::new(&version.to_string()).unwrap();
            assert_eq!(again.minecraft, minecraft);
            assert_eq!(again.patch, patch);
        }
    }
    let odd = ServerVersion { minecraft: MinecraftVersion(1, 17, None), patch: Some(5) };
    assert_eq!(odd.to_string(), "1.17-5");
}

#[test]
fn server_versions_compare_by_release_only() {
    let a = ServerVersion::new("1.12.2-4").unwrap();
    let b = ServerVersion::new("1.12.2-9").unwrap();
    let c = ServerVersion::new("1.12.1-4").unwrap();
    assert!(a == b);
    assert!(a != c);
}

#[test]
fn minecraft_versions_are_read_from_three_pieces() {
    assert_eq!(MinecraftVersion::parse("1.12.2").unwrap(), MinecraftVersion(1, 12, Some(2)));
    assert_eq!(MinecraftVersion::parse("1.12.2-4").unwrap(), MinecraftVersion(1, 12, Some(2)));
    assert_eq!(MinecraftVersion::parse("1.17").unwrap(), MinecraftVersion(1, 17, None));
    assert_eq!(MinecraftVersion::parse("1.17-5").unwrap(), MinecraftVersion(1, 17, None));
    assert_eq!(MinecraftVersion::parse("1.17-x").unwrap(), MinecraftVersion(1, 17, None));
    assert_eq!(MinecraftVersion::parse("1.17.1.8").unwrap(), MinecraftVersion(1, 17, Some(1)));
    assert_eq!("1.17-5".parse::<MinecraftVersion>().unwrap(), MinecraftVersion(1, 17, None));
    assert_eq!("1.12.2".parse::<MinecraftVersion>().unwrap(), MinecraftVersion(1, 12, Some(2)));
    assert_eq!(
        MinecraftVersion::parse("1").unwrap_err(),
        ErrorKind::Parse(VersionPart::Minor)
    );
    assert_eq!(
        "1.2.z".parse::<MinecraftVersion>().unwrap_err(),
        ErrorKind::Parse(VersionPart::Patch)
    );
}

#[test]
fn releases_are_ordered_by_major_minor_patch() {
    let a = MinecraftVersion(1, 12, None);
    let b = MinecraftVersion(1, 12, Some(0));
    let c = MinecraftVersion(1, 12, Some(2));
    let d = MinecraftVersion(1, 13, None);
    let e = MinecraftVersion(2, 0, Some(0));
    let all = [a, b, c, d, e];
    for i in 0..all.len() {
        for j in 0..all.len() {
            assert_eq!(all[i].is_before(&all[j]), i < j);
        }
    }
}

#[test]
fn every_failure_has_its_message() {
    assert_eq!(
        ErrorKind::Parse(VersionPart::Major).message(),
        "invalid version: the major number is missing or not a number"
    );
    assert_eq!(ErrorKind::InvalidKind.message(), "not a valid server type");
    assert_eq!(ErrorKind::NoVersions.message(), "no versions available");
    assert_eq!(
        ErrorKind::CacheKey.message(),
        "failed to parse cache metadata: cache key must contain a '@'"
    );
    assert_eq!(
        ErrorKind::VersionMismatch.message(),
        "no cached artifact matches the server's Minecraft version"
    );
}
