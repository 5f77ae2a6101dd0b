use tasks::config::{load_config, parse_config_chars, serialize_config, Config};

fn chars(s: &str) -> Vec<char> {
    s.chars().collect()
}

fn text(v: &[char]) -> String {
    v.iter().collect()
}

#[test]
fn round_trip_plain_path() {
    let c = Config { global_file: Some(chars("/tmp/x.md")) };
    let doc = serialize_config(&c);
    let (back, warned) = load_config(Some(&doc));
    assert!(!warned);
    assert_eq!(back.global_file, Some(chars("/tmp/x.md")));
}

#[test]
fn round_trip_absent_path() {
    let c = Config { global_file: None };
    let doc = serialize_config(&c);
    assert_eq!(text(&doc), "{\n  \"global_file\": null\n}");
    let (back, warned) = load_config(Some(&doc));
    assert!(!warned);
    assert_eq!(back.global_file, None);
}

#[test]
fn round_trip_path_needing_escapes() {
    let hairy = "C:\\tasks \"today\"\n\u{0001}\u{1F4CB}.md";
    let c = Config { global_file: Some(chars(hairy)) };
    let doc = serialize_config(&c);
    let (back, warned) = load_config(Some(&doc));
    assert!(!warned);
    assert_eq!(back.global_file, Some(chars(hairy)));
}

#[test]
fn serialized_form_matches_serde_json_pretty() {
    let hairy = "a\"b\\c\n\t\u{0007}/d.md";
    let c = Config { global_file: Some(chars(hairy)) };
    let doc = text(&serialize_config(&c));
    let mut m = serde_json::Map::new();
    m.insert(
        "global_file".to_string(),
        serde_json::Value::String(hairy.to_string()),
    );
    let expected = serde_json::to_string_pretty(&serde_json::Value::Object(m)).unwrap();
    assert_eq!(doc, expected);
}

#[test]
fn serialized_form_decodes_with_serde_json() {
    let c = Config { global_file: Some(chars("/tmp/list.md")) };
    let doc = text(&serialize_config(&c));
    let v: serde_json::Value = serde_json::from_str(&doc).unwrap();
    assert_eq!(
        v.get("global_file").unwrap().as_str().unwrap(),
        "/tmp/list.md"
    );
}

#[test]
fn corrupted_document_yields_default() {
    let (c, warned) = load_config(Some(&chars("{ this is not json")));
    assert!(warned);
    assert_eq!(c.global_file, None);
}

#[test]
fn truncated_document_yields_default() {
    let (c, warned) = load_config(Some(&chars("{\n  \"global_file\": \"/tmp/x.md\"")));
    assert!(warned);
    assert_eq!(c.global_file, None);
}

#[test]
fn absent_file_yields_default_without_warning() {
    let (c, warned) = load_config(None);
    assert!(!warned);
    assert_eq!(c.global_file, None);
}

#[test]
fn empty_object_means_no_global_file() {
    let (c, warned) = load_config(Some(&chars("{}")));
    assert!(!warned);
    assert_eq!(c.global_file, None);
}

#[test]
fn unknown_members_are_skipped() {
    let doc = "{ \"other\": {\"nested\": [1, 2, {\"x\": null}], \"b\": true},\n  \"global_file\": \"a.md\", \"more\": -1.5e3 }";
    let (c, warned) = load_config(Some(&chars(doc)));
    assert!(!warned);
    assert_eq!(c.global_file, Some(chars("a.md")));
}

#[test]
fn duplicate_member_is_rejected() {
    let doc = "{\"global_file\": \"a.md\", \"global_file\": \"b.md\"}";
    let (c, warned) = load_config(Some(&chars(doc)));
    assert!(warned);
    assert_eq!(c.global_file, None);
}

#[test]
fn wrong_member_type_is_rejected() {
    let (c, warned) = load_config(Some(&chars("{\"global_file\": 5}")));
    assert!(warned);
    assert_eq!(c.global_file, None);
}

#[test]
fn trailing_characters_are_rejected() {
    let (_, warned) = load_config(Some(&chars("{\"global_file\": null} x")));
    assert!(warned);
}

#[test]
fn string_escapes_are_decoded() {
    let doc = "{\"global_file\": \"\\u0041\\n\\\"\\\\\\/\\ud83d\\ude00\"}";
    let parsed = parse_config_chars(&chars(doc)).unwrap();
    assert_eq!(parsed.global_file, Some(chars("A\n\"\\/\u{1F600}")));
}

#[test]
fn lone_surrogate_is_rejected() {
    let doc = "{\"global_file\": \"\\ud83d\"}";
    assert!(parse_config_chars(&chars(doc)).is_none());
}

#[test]
fn default_config_has_no_global_file() {
    let c: Config = Default::default();
    assert_eq!(c.global_file, None);
}
