use android_meta::props::merge_proguard_uuids;
use std::collections::HashMap;

const KEY: &str = "io.sentry.ProguardUuids";

fn parse(bytes: &[u8]) -> HashMap<String, String> {
    match java_properties::read(bytes) {
        Ok(m) => m,
        Err(_) => panic!("merged output did not parse as properties"),
    }
}

fn ids(values: &[&str]) -> Vec<String> {
    values.iter().map(|v| String::from(*v)).collect()
}

#[test]
fn fresh_file_merge() {
    let out = merge_proguard_uuids(None, &ids(&["a1b2", "c3d4"]));
    let map = parse(&out);
    assert_eq!(map.len(), 1);
    assert_eq!(map.get(KEY), Some(&String::from("a1b2|c3d4")));
}

#[test]
fn unrelated_keys_are_kept() {
    let existing = b"foo=bar\n";
    let out = merge_proguard_uuids(Some(existing), &ids(&["x"]));
    let map = parse(&out);
    assert_eq!(map.len(), 2);
    assert_eq!(map.get("foo"), Some(&String::from("bar")));
    assert_eq!(map.get(KEY), Some(&String::from("x")));
}

#[test]
fn prior_value_is_overwritten() {
    let existing = b"io.sentry.ProguardUuids=old\n";
    let out = merge_proguard_uuids(Some(existing), &ids(&["new1", "new2"]));
    let map = parse(&out);
    assert_eq!(map.len(), 1);
    assert_eq!(map.get(KEY), Some(&String::from("new1|new2")));
}

#[test]
fn malformed_existing_content_is_discarded() {
    let mut garbage: Vec<u8> = vec![0, 159, 146, 150];
    garbage.extend_from_slice(b"a=\\uZZZZ\n");
    assert!(java_properties::read(garbage.as_slice()).is_err());
    let out = merge_proguard_uuids(Some(&garbage), &ids(&["z"]));
    let map = parse(&out);
    assert_eq!(map.len(), 1);
    assert_eq!(map.get(KEY), Some(&String::from("z")));
}

#[test]
fn empty_identifier_list_writes_an_empty_value() {
    let out = merge_proguard_uuids(None, &Vec::new());
    let map = parse(&out);
    assert_eq!(map.len(), 1);
    assert_eq!(map.get(KEY), Some(&String::from("")));
}

#[test]
fn comments_and_blank_lines_do_not_add_entries() {
    let existing = b"# a comment\n\n! another\nfoo=bar\n";
    let out = merge_proguard_uuids(Some(existing), &ids(&["x"]));
    let map = parse(&out);
    assert_eq!(map.len(), 2);
    assert_eq!(map.get("foo"), Some(&String::from("bar")));
}

#[test]
fn uuid_canonical_forms_merge() {
    let a = match uuid::Uuid::parse_str("97c67f54-75e8-4a79-8171-f34f6c2f3f45") {
        Ok(u) => u,
        Err(_) => panic!("bad uuid literal"),
    };
    let b = match uuid::Uuid::parse_str("00000000-0000-0000-0000-000000000000") {
        Ok(u) => u,
        Err(_) => panic!("bad uuid literal"),
    };
    let rendered = vec![a.to_string(), b.to_string()];
    let out = merge_proguard_uuids(None, &rendered);
    let map = parse(&out);
    assert_eq!(
        map.get(KEY),
        Some(&String::from(
            "97c67f54-75e8-4a79-8171-f34f6c2f3f45|00000000-0000-0000-0000-000000000000"
        ))
    );
}
