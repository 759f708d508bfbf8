use std::collections::BTreeMap;

use infer_version::{
    assemble, build_number_at, build_stamp, expand_version, make_build_number, package_info, parse_u32_chars,
    read_infos, revision_hash, CalendarTime, Version, VersionInfoError, VersionUnit,
    FUNC_ITEMS_SOURCE,
};

const DEMO_MANIFEST: &str = "[package]\nname = \"demo\"\nversion = \"1.2.3\"\n";

fn demo_head() -> Vec<u8> {
    vec![
        0xab, 0xcd, 0xef, 0x12, 0x34, 0x56, 0x78, 0x90, 0x01, 0x23, 0x45, 0x67, 0x89, 0xab, 0xcd,
        0xef, 0xfe, 0xdc, 0xba, 0x98,
    ]
}

const DEMO_SHA: &str = "abcdef12345678900123456789abcdeffedcba98";

fn time(year: i32, month: i32, day: i32, hour: i32, min: i32, sec: i32) -> CalendarTime {
    CalendarTime {
        tm_year: year - 1900,
        tm_mon: month - 1,
        tm_mday: day,
        tm_hour: hour,
        tm_min: min,
        tm_sec: sec,
    }
}

fn demo_time() -> CalendarTime {
    time(2024, 1, 15, 9, 30, 0)
}

fn demo_unit() -> VersionUnit {
    let head = demo_head();
    assemble(Some(DEMO_MANIFEST), &demo_time(), Some(&head)).unwrap()
}

#[test]
fn version_parses_three_segments() {
    assert_eq!(Version::new("1.2.3"), Ok(Version { major: 1, minor: 2, patch: 3 }));
}

#[test]
fn version_ignores_extra_segments() {
    assert_eq!(Version::new("10.20.30.beta"), Ok(Version { major: 10, minor: 20, patch: 30 }));
}

#[test]
fn version_round_trip() {
    for s in ["0.0.0", "1.2.3", "10.0.7", "4294967295.4294967295.4294967295"] {
        assert_eq!(Version::new(s).unwrap().as_string(), s);
    }
}

#[test]
fn version_as_string() {
    assert_eq!(Version { major: 7, minor: 0, patch: 42 }.as_string(), "7.0.42");
}

#[test]
fn version_too_few_segments() {
    for s in ["", "1", "1.2", "12"] {
        assert_eq!(Version::new(s), Err(VersionInfoError::VersionFormat), "{}", s);
    }
}

#[test]
fn version_non_numeric_segment() {
    for s in ["a.2.3", "1.b.3", "1.2.c", "1..3", "1.2.", "-1.2.3", "1.2.3x", " 1.2.3"] {
        assert_eq!(Version::new(s), Err(VersionInfoError::VersionFormat), "{}", s);
    }
}

#[test]
fn version_segment_out_of_range() {
    assert_eq!(Version::new("4294967296.0.0"), Err(VersionInfoError::VersionFormat));
    assert_eq!(Version::new("0.0.99999999999999999999"), Err(VersionInfoError::VersionFormat));
}

#[test]
fn version_accepts_plus_sign_and_leading_zeros() {
    assert_eq!(Version::new("+1.02.3"), Ok(Version { major: 1, minor: 2, patch: 3 }));
    assert_eq!(Version::new("+.1.2"), Err(VersionInfoError::VersionFormat));
}

#[test]
fn parse_u32_chars_values() {
    assert_eq!(parse_u32_chars(&"4294967295".chars().collect()), Some(u32::MAX));
    assert_eq!(parse_u32_chars(&"+0".chars().collect()), Some(0));
    assert_eq!(parse_u32_chars(&"+".chars().collect()), None);
    assert_eq!(parse_u32_chars(&"12a".chars().collect()), None);
}

#[test]
fn build_stamp_example() {
    assert_eq!(build_stamp(&demo_time()), "20240115093000");
    assert_eq!(build_stamp(&time(1999, 12, 31, 23, 59, 60)), "19991231235960");
    assert_eq!(build_stamp(&time(987, 3, 4, 5, 6, 7)), "09870304050607");
}

#[test]
fn build_stamp_is_fourteen_digits() {
    for t in [demo_time(), time(0, 1, 1, 0, 0, 0), time(9999, 12, 31, 23, 59, 59)] {
        let s = build_stamp(&t);
        assert_eq!(s.len(), 14);
        assert!(s.chars().all(|c| c.is_ascii_digit()));
    }
}

#[test]
fn build_stamp_sorts_chronologically() {
    let times = [
        time(2023, 12, 31, 23, 59, 59),
        time(2024, 1, 15, 9, 30, 0),
        time(2024, 1, 15, 9, 30, 1),
        time(2024, 1, 15, 10, 0, 0),
        time(2024, 2, 1, 0, 0, 0),
        time(2024, 10, 1, 0, 0, 0),
    ];
    for w in times.windows(2) {
        assert!(build_stamp(&w[0]) < build_stamp(&w[1]));
    }
    assert_eq!(build_stamp(&times[1]), build_stamp(&demo_time()));
}

#[test]
fn calendar_time_validity() {
    assert!(demo_time().is_valid());
    assert!(!time(2024, 13, 1, 0, 0, 0).is_valid());
    assert!(!time(2024, 1, 0, 0, 0, 0).is_valid());
    assert!(!time(2024, 1, 1, 24, 0, 0).is_valid());
    assert!(!time(10000, 1, 1, 0, 0, 0).is_valid());
    assert!(!time(-1, 1, 1, 0, 0, 0).is_valid());
}

#[test]
fn build_number_from_clock() {
    let s = make_build_number().unwrap();
    assert_eq!(s.len(), 14);
    assert!(s.chars().all(|c| c.is_ascii_digit()));
}

#[test]
fn revision_hash_is_lower_hex() {
    assert_eq!(revision_hash(&demo_head()), DEMO_SHA);
    assert_eq!(revision_hash(&[0x00, 0x0f, 0xf0, 0xff]), "000ff0ff");
    assert_eq!(revision_hash(&[]), "");
}

#[test]
fn read_infos_reads_name_and_version() {
    let info = read_infos(DEMO_MANIFEST).unwrap();
    assert_eq!(info.name, "demo");
    assert_eq!(info.version, "1.2.3");
}

#[test]
fn read_infos_ignores_other_keys() {
    let text = "[package]\nname = \"tool\"\nauthors = [\"x\"]\nversion = \"0.4.1-dev\"\n\n[dependencies]\ntoml = \"0.2\"\n";
    let info = read_infos(text).unwrap();
    assert_eq!(info.name, "tool");
    assert_eq!(info.version, "0.4.1-dev");
}

#[test]
fn read_infos_malformed_toml() {
    assert_eq!(read_infos("[package\nname = ").err(), Some(VersionInfoError::ManifestParse));
}

#[test]
fn read_infos_schema_errors() {
    for text in [
        "",
        "[lib]\nname = \"x\"\n",
        "package = \"x\"\n",
        "[package]\nname = \"demo\"\n",
        "[package]\nversion = \"1.2.3\"\n",
        "[package]\nname = \"demo\"\nversion = 1\n",
        "[package]\nname = 3\nversion = \"1.2.3\"\n",
    ] {
        assert_eq!(read_infos(text).err(), Some(VersionInfoError::Schema), "{}", text);
    }
}

#[test]
fn package_info_on_built_value() {
    let mut package = BTreeMap::new();
    package.insert("name".to_string(), toml::Value::String("built".to_string()));
    package.insert("version".to_string(), toml::Value::String("3.2.1".to_string()));
    let mut root = BTreeMap::new();
    root.insert("package".to_string(), toml::Value::Table(package));
    let info = package_info(&toml::Value::Table(root)).unwrap();
    assert_eq!(info.name, "built");
    assert_eq!(info.version, "3.2.1");
    assert_eq!(package_info(&toml::Value::Integer(1)).err(), Some(VersionInfoError::Schema));
}

#[test]
fn assemble_demo_constants() {
    let u = demo_unit();
    assert_eq!(u.version, "1.2.3");
    assert_eq!((u.version_major, u.version_minor, u.version_patch), (1, 2, 3));
    assert_eq!(u.git_sha1, DEMO_SHA);
    assert_eq!(u.build_number, "20240115093000");
    assert_eq!(u.bin_name, "demo");
}

#[test]
fn format_demo() {
    assert_eq!(demo_unit().format(), "demo version 1.2.3 (git rev abcd; build 20240115093000)");
}

#[test]
fn format_full_demo() {
    assert_eq!(
        demo_unit().format_full(),
        format!("demo version 1.2.3\ngit revision {}\nbuild 20240115093000)", DEMO_SHA)
    );
}

#[test]
fn missing_manifest_is_io_error() {
    let head = demo_head();
    assert_eq!(assemble(None, &demo_time(), Some(&head)).err(), Some(VersionInfoError::Io));
    assert_eq!(assemble(None, &demo_time(), None).err(), Some(VersionInfoError::Io));
}

#[test]
fn missing_version_is_schema_error() {
    let head = demo_head();
    let r = assemble(Some("[package]\nname = \"demo\"\n"), &demo_time(), Some(&head));
    assert_eq!(r.err(), Some(VersionInfoError::Schema));
}

#[test]
fn malformed_manifest_is_parse_error() {
    let head = demo_head();
    let r = assemble(Some("[package\n"), &demo_time(), Some(&head));
    assert_eq!(r.err(), Some(VersionInfoError::ManifestParse));
}

#[test]
fn bad_version_string_is_format_error() {
    let head = demo_head();
    let r = assemble(Some("[package]\nname = \"demo\"\nversion = \"1.2\"\n"), &demo_time(), Some(&head));
    assert_eq!(r.err(), Some(VersionInfoError::VersionFormat));
}

#[test]
fn missing_repository_is_repository_error() {
    assert_eq!(
        assemble(Some(DEMO_MANIFEST), &demo_time(), None).err(),
        Some(VersionInfoError::Repository)
    );
}

#[test]
fn clock_out_of_range_is_clock_error() {
    let head = demo_head();
    let r = assemble(Some(DEMO_MANIFEST), &time(2024, 0, 15, 9, 30, 0), Some(&head));
    assert_eq!(r.err(), Some(VersionInfoError::Clock));
}

#[test]
fn rerun_in_same_second_is_identical() {
    let a = demo_unit();
    let b = demo_unit();
    assert_eq!(a.version, b.version);
    assert_eq!(a.git_sha1, b.git_sha1);
    assert_eq!(a.bin_name, b.bin_name);
    assert_eq!(a.build_number, b.build_number);
    assert_eq!(a.to_source(), b.to_source());
    let head = demo_head();
    let later = assemble(Some(DEMO_MANIFEST), &time(2024, 1, 15, 9, 30, 1), Some(&head)).unwrap();
    assert_eq!(later.version, a.version);
    assert_eq!(later.git_sha1, a.git_sha1);
    assert_eq!(later.bin_name, a.bin_name);
    assert!(later.build_number > a.build_number);
}

#[test]
fn expand_version_at_current_time() {
    let head = demo_head();
    let u = expand_version(Some(DEMO_MANIFEST), Some(&head)).unwrap();
    assert_eq!(u.version, "1.2.3");
    assert_eq!(u.git_sha1, DEMO_SHA);
    assert_eq!(u.build_number.len(), 14);
    assert_eq!(expand_version(None, Some(&head)).err(), Some(VersionInfoError::Io));
}

#[test]
fn const_items_source_demo() {
    let expected = format!(
        "#[allow(dead_code)]\npub const VERSION: &'static str = \"1.2.3\";\n\
         #[allow(dead_code)]\npub const VERSION_MAJOR: u32 = 1;\n\
         #[allow(dead_code)]\npub const VERSION_MINOR: u32 = 2;\n\
         #[allow(dead_code)]\npub const VERSION_PATCH: u32 = 3;\n\
         #[allow(dead_code)]\npub const GIT_SHA1: &'static str = \"{}\";\n\
         #[allow(dead_code)]\npub const BUILD_NUMBER: &'static str = \"20240115093000\";\n\
         #[allow(dead_code)]\npub const BIN_NAME: &'static str = \"demo\";\n",
        DEMO_SHA
    );
    assert_eq!(demo_unit().const_items_source(), expected);
}

#[test]
fn source_quotes_strings() {
    let mut u = demo_unit();
    u.bin_name = "a\"b\\c\nd".to_string();
    let src = u.const_items_source();
    assert!(src.ends_with("pub const BIN_NAME: &'static str = \"a\\\"b\\\\c\\nd\";\n"));
}

#[test]
fn to_source_appends_accessors() {
    let u = demo_unit();
    assert_eq!(VersionUnit::func_items_source(), FUNC_ITEMS_SOURCE);
    assert_eq!(u.to_source(), u.const_items_source() + FUNC_ITEMS_SOURCE);
    assert!(FUNC_ITEMS_SOURCE.contains("pub fn format() -> String {"));
    assert!(FUNC_ITEMS_SOURCE.contains("pub fn format_full() -> String {"));
    assert!(FUNC_ITEMS_SOURCE.contains("&GIT_SHA1[..4]"));
}

#[test]
fn build_number_at_valid_and_invalid_times() {
    assert_eq!(build_number_at(&demo_time()), Ok("20240115093000".to_string()));
    assert_eq!(build_number_at(&time(2024, 1, 15, 9, 61, 0)), Err(VersionInfoError::Clock));
    assert_eq!(build_number_at(&time(10000, 1, 1, 0, 0, 0)), Err(VersionInfoError::Clock));
}
