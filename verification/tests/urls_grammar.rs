use mod_store::strutil::{parse_u32, u32_dec};
use mod_store::urls::{file_name_of, format_spec, http_hostname, parse_modio_url};

#[test]
fn parse_full_locator() {
    let url = "https://mod.io/g/drg/m/coolmod#123/456".to_string();
    let u = parse_modio_url(&url).unwrap();
    assert_eq!(u.name_id, "coolmod");
    assert_eq!(u.mod_id, Some(123));
    assert_eq!(u.modfile_id, Some(456));
}

#[test]
fn parse_name_only_locator() {
    let url = "https://mod.io/g/drg/m/coolmod".to_string();
    let u = parse_modio_url(&url).unwrap();
    assert_eq!(u.name_id, "coolmod");
    assert_eq!(u.mod_id, None);
    assert_eq!(u.modfile_id, None);
}

#[test]
fn parse_mod_only_locator() {
    let url = "https://mod.io/g/drg/m/coolmod#9".to_string();
    let u = parse_modio_url(&url).unwrap();
    assert_eq!(u.name_id, "coolmod");
    assert_eq!(u.mod_id, Some(9));
    assert_eq!(u.modfile_id, None);
}

#[test]
fn parse_rejects_malformed_locators() {
    assert!(parse_modio_url(&"https://example.com/m/x#1".to_string()).is_none());
    assert!(parse_modio_url(&"https://mod.io/g/drg/m/".to_string()).is_none());
    assert!(parse_modio_url(&"https://mod.io/g/drg/m/#1".to_string()).is_none());
    assert!(parse_modio_url(&"https://mod.io/g/drg/m/a/b#1".to_string()).is_none());
    assert!(parse_modio_url(&"https://mod.io/g/drg/m/a#x".to_string()).is_none());
    assert!(parse_modio_url(&"https://mod.io/g/drg/m/a#1/x".to_string()).is_none());
    assert!(parse_modio_url(&"https://mod.io/g/drg/m/a#1/2/3".to_string()).is_none());
    assert!(parse_modio_url(&"".to_string()).is_none());
}

#[test]
fn parse_accepts_leading_zeros() {
    let url = "https://mod.io/g/drg/m/a#007/010".to_string();
    let u = parse_modio_url(&url).unwrap();
    assert_eq!(u.mod_id, Some(7));
    assert_eq!(u.modfile_id, Some(10));
}

#[test]
fn parse_rejects_ids_beyond_u32() {
    let url = "https://mod.io/g/drg/m/a#4294967296".to_string();
    assert!(parse_modio_url(&url).is_none());
    let max = "https://mod.io/g/drg/m/a#4294967295".to_string();
    assert_eq!(parse_modio_url(&max).unwrap().mod_id, Some(u32::MAX));
}

#[test]
fn format_then_parse_round_trips() {
    let spec = format_spec(&"some-mod".to_string(), 2475, Some(31));
    assert_eq!(spec.url, "https://mod.io/g/drg/m/some-mod#2475/31");
    let u = parse_modio_url(&spec.url).unwrap();
    assert_eq!(u.name_id, "some-mod");
    assert_eq!(u.mod_id, Some(2475));
    assert_eq!(u.modfile_id, Some(31));

    let no_file = format_spec(&"some-mod".to_string(), 8, None);
    assert_eq!(no_file.url, "https://mod.io/g/drg/m/some-mod#8");
    let v = parse_modio_url(&no_file.url).unwrap();
    assert_eq!(v.mod_id, Some(8));
    assert_eq!(v.modfile_id, None);
}

#[test]
fn hostname_of_http_locators() {
    assert_eq!(
        http_hostname(&"https://example.com/file.zip".to_string()).unwrap(),
        "example.com"
    );
    assert_eq!(
        http_hostname(&"http://host".to_string()).unwrap(),
        "host"
    );
    assert_eq!(
        http_hostname(&"https://mod.io/g/drg/m/a".to_string()).unwrap(),
        "mod.io"
    );
    assert!(http_hostname(&"https:///path".to_string()).is_none());
    assert!(http_hostname(&"ftp://host/x".to_string()).is_none());
    assert!(http_hostname(&"plain".to_string()).is_none());
}

#[test]
fn file_name_of_path_locators() {
    assert_eq!(file_name_of(&"./local/mod.zip".to_string()).unwrap(), "mod.zip");
    assert_eq!(file_name_of(&"bare".to_string()).unwrap(), "bare");
    assert_eq!(file_name_of(&"a/b/".to_string()).unwrap(), "b");
    assert_eq!(file_name_of(&"dir/".to_string()).unwrap(), "dir");
    assert_eq!(file_name_of(&"a/b///".to_string()).unwrap(), "b");
    assert!(file_name_of(&"".to_string()).is_none());
    assert!(file_name_of(&"/".to_string()).is_none());
    assert!(file_name_of(&".".to_string()).is_none());
    assert!(file_name_of(&"..".to_string()).is_none());
    assert!(file_name_of(&"a/..".to_string()).is_none());
    assert!(file_name_of(&"a/../".to_string()).is_none());
}

#[test]
fn file_name_ignores_trailing_dot_components() {
    // The standard library's own example: foo.txt/. names foo.txt.
    assert_eq!(file_name_of(&"foo.txt/.".to_string()).unwrap(), "foo.txt");
    assert_eq!(file_name_of(&"a/.".to_string()).unwrap(), "a");
    assert_eq!(file_name_of(&"foo.txt/.//".to_string()).unwrap(), "foo.txt");
    assert_eq!(file_name_of(&"a/././".to_string()).unwrap(), "a");
    // A component merely ending in a dot is a real name.
    assert_eq!(file_name_of(&"a.".to_string()).unwrap(), "a.");
    assert_eq!(file_name_of(&"a/...".to_string()).unwrap(), "...");
    // A parent component stays no name, with or without a trailing dot.
    assert!(file_name_of(&"a/../.".to_string()).is_none());
    assert!(file_name_of(&"./".to_string()).is_none());
}

#[test]
fn decimal_rendering_and_parsing() {
    assert_eq!(u32_dec(0), "0");
    assert_eq!(u32_dec(7), "7");
    assert_eq!(u32_dec(40321), "40321");
    assert_eq!(u32_dec(u32::MAX), "4294967295");
    assert_eq!(parse_u32("40321"), Some(40321));
    assert_eq!(parse_u32("0"), Some(0));
    assert_eq!(parse_u32(""), None);
    assert_eq!(parse_u32("12a"), None);
    assert_eq!(parse_u32("4294967296"), None);
}
