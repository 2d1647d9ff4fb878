use nuq::Error;
use nuq::FileFormat;

fn decode(format: FileFormat, bytes: &[u8]) -> Result<Vec<String>, Error> {
    format.read_to_json(&bytes.to_vec())
}

#[test]
fn round_trip_json() {
    let docs = decode(FileFormat::Json, br#"{"a":"b"}"#).unwrap();
    assert_eq!(docs, vec![r#"{"a":"b"}"#.to_string()]);
    let out = FileFormat::Json.write_format(&docs, false).unwrap();
    assert_eq!(out, "{\"a\":\"b\"}\n");
}

#[test]
fn round_trip_yaml() {
    let docs = decode(FileFormat::Yaml, b"a: b").unwrap();
    assert_eq!(docs, vec![r#"{"a":"b"}"#.to_string()]);
    let out = FileFormat::Yaml.write_format(&docs, false).unwrap();
    assert_eq!(out, "a: b\n");
}

#[test]
fn yaml_multi_document_order() {
    let docs = decode(FileFormat::Yaml, b"a: b\n---\na: c").unwrap();
    assert_eq!(
        docs,
        vec![r#"{"a":"b"}"#.to_string(), r#"{"a":"c"}"#.to_string()]
    );
    let out = FileFormat::Yaml.write_format(&docs, false).unwrap();
    assert_eq!(out, "---\na: b\n---\na: c\n");
}

#[test]
fn round_trip_ron() {
    let docs = decode(FileFormat::Ron, br#"(a: "b")"#).unwrap();
    assert_eq!(docs, vec![r#"{"a":"b"}"#.to_string()]);
    let out = FileFormat::Ron.write_format(&docs, false).unwrap();
    assert_eq!(out, "{\"a\":\"b\"}\n");
}

#[test]
fn round_trip_toml() {
    let docs = decode(FileFormat::Toml, br#"a = "b""#).unwrap();
    assert_eq!(docs, vec![r#"{"a":"b"}"#.to_string()]);
    let out = FileFormat::Toml.write_format(&docs, false).unwrap();
    assert_eq!(out, "a = \"b\"\n");
}

#[test]
fn pretty_json_is_indented() {
    let docs = vec![r#"{"a":1}"#.to_string()];
    let out = FileFormat::Json.write_format(&docs, true).unwrap();
    assert_eq!(out, "{\n  \"a\": 1\n}\n");
}

#[test]
fn json_stream_splits_documents() {
    let docs = decode(FileFormat::Json, b"{}\n[1,2]").unwrap();
    assert_eq!(docs, vec!["{}".to_string(), "[1,2]".to_string()]);
}

#[test]
fn json_parse_error_reports_document_index() {
    let err = decode(FileFormat::Json, b"{\"a\":1} nope").unwrap_err();
    assert!(matches!(err, Error::Parse { index: 1 }));
}

#[test]
fn empty_stream_decodes_per_format() {
    assert_eq!(decode(FileFormat::Json, b"").unwrap().len(), 0);
    assert_eq!(decode(FileFormat::Yaml, b"").unwrap().len(), 0);
    assert!(matches!(
        decode(FileFormat::Toml, b""),
        Err(Error::Parse { index: 0 })
    ));
    assert!(matches!(
        decode(FileFormat::Ron, b""),
        Err(Error::Parse { index: 0 })
    ));
}

#[test]
fn multi_document_rejected_by_toml() {
    let docs = vec![r#"{"a":1}"#.to_string(), r#"{"b":2}"#.to_string()];
    let err = FileFormat::Toml.write_format(&docs, false).unwrap_err();
    assert!(matches!(err, Error::UnsupportedMultiDocument));
}

#[test]
fn multi_document_rejected_by_ron() {
    let docs = vec![r#"{"a":1}"#.to_string(), r#"{"b":2}"#.to_string()];
    let err = FileFormat::Ron.write_format(&docs, false).unwrap_err();
    assert!(matches!(err, Error::UnsupportedMultiDocument));
}

#[test]
fn toml_rejects_bare_scalar() {
    let docs = vec!["42".to_string()];
    let err = FileFormat::Toml.write_format(&docs, false).unwrap_err();
    assert!(matches!(err, Error::EncodeFailed { index: 0 }));
}
