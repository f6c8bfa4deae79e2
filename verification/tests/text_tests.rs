use att_fx::ct_log::ct_log_entries;
use att_fx::gzip::decode_gzip_payload;
use att_fx::json::Json;
use att_fx::wikimedia::{contains_keyword, matches_filter, text_tokens};
use flate2::write::GzEncoder;
use flate2::Compression;
use std::io::Write;

fn s(t: &str) -> String {
    t.to_string()
}

fn obj(fields: Vec<(&str, Json)>) -> Json {
    Json::Object(fields.into_iter().map(|(k, v)| (k.to_string(), v)).collect())
}

#[test]
fn tokens_are_lowercase_alphanumeric_runs() {
    assert_eq!(
        text_tokens("Hello, World! foo_bar 42x"),
        vec![s("hello"), s("world"), s("foo"), s("bar"), s("42x")]
    );
    assert!(text_tokens("").is_empty());
    assert!(text_tokens(" ,;- ").is_empty());
    assert_eq!(text_tokens("Élan VITAL"), vec![s("élan"), s("vital")]);
}

#[test]
fn keyword_in_event_fields() {
    let event = obj(vec![
        ("title", Json::Str(s("Bitcoin halving"))),
        ("comment", Json::Str(s("update numbers"))),
        ("wiki", Json::Str(s("enwiki"))),
        ("bot", Json::Bool(false)),
    ]);
    let kw = vec![s("BITCOIN")];
    assert!(contains_keyword("", Some(&event), &kw));
    assert!(contains_keyword("", Some(&event), &[s("enwiki")]));
    assert!(!contains_keyword("", Some(&event), &[s("bit")]));
    assert!(!contains_keyword("", Some(&event), &[s("bot")]));
}

#[test]
fn keyword_in_raw_message() {
    assert!(contains_keyword("not json: Ethereum merge", None, &[s("ethereum")]));
    assert!(!contains_keyword("not json: Ethereum merge", None, &[s("solana")]));
}

#[test]
fn filter_passes_everything_without_keywords() {
    assert!(matches_filter("anything", None, &[]));
    assert!(!matches_filter("anything", None, &[s("other")]));
    assert!(matches_filter("anything", None, &[s("other"), s("ANYTHING")]));
}

#[test]
fn gzip_payload_roundtrip() {
    let mut enc = GzEncoder::new(Vec::new(), Compression::default());
    enc.write_all(b"{\"ping\":1}").unwrap();
    let bytes = enc.finish().unwrap();
    assert_eq!(decode_gzip_payload(&bytes), Some(s("{\"ping\":1}")));
    assert_eq!(decode_gzip_payload(b"plain text"), None);
}

#[test]
fn ct_entries_first_twenty() {
    let item = |i: usize| {
        obj(vec![
            ("name_value", Json::Str(format!("host{i}.example.com"))),
            ("issuer_name", Json::Str(s("CN=Test CA"))),
        ])
    };
    let doc = Json::Array((0..25).map(item).collect());
    let entries = ct_log_entries(&doc);
    assert_eq!(entries.len(), 20);
    assert_eq!(entries[0].name, "host0.example.com");
    assert_eq!(entries[19].name, "host19.example.com");
    assert_eq!(entries[3].issuer, "CN=Test CA");
}

#[test]
fn ct_entries_missing_fields_and_non_array() {
    let doc = Json::Array(vec![obj(vec![("id", Json::Number(s("7")))]), Json::Null]);
    let entries = ct_log_entries(&doc);
    assert_eq!(entries.len(), 2);
    assert_eq!(entries[0].name, "");
    assert_eq!(entries[1].issuer, "");
    assert!(ct_log_entries(&obj(vec![])).is_empty());
}
