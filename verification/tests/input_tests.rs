use nuq::slurp;
use nuq::Error;
use nuq::FileFormat;
use nuq::Input;

fn input(content: &[u8], ext: &str, format: Option<FileFormat>) -> Input {
    Input {
        content: content.to_vec(),
        ext: ext.to_string(),
        input_format: format,
    }
}

#[test]
fn lib_slurp() {
    let json = input(br#"{"a":"b"}"#, "", Some(FileFormat::Json));
    let yaml = input(b"c: d", "", Some(FileFormat::Yaml));
    let array = slurp(&vec![json, yaml]).unwrap();
    assert_eq!(array, r#"[{"a":"b"},{"c":"d"}]"#);
}

#[test]
fn guess() {
    let json = input(br#"{"a":"b"}"#, "", None);
    assert!(json.read_to_docs().is_ok());
    let yaml = input(b"c: d", "", None);
    assert!(yaml.read_to_docs().is_ok());
}

#[test]
fn sniffing_prefers_json() {
    // valid as both JSON and YAML; the fixed priority order resolves to JSON
    let ambiguous = input(br#"{"a":"b"}"#, "", None);
    let docs = ambiguous.read_to_docs().unwrap();
    assert_eq!(docs.input_format, FileFormat::Json);
}

#[test]
fn sniffing_falls_through_to_yaml() {
    let yaml = input(b"c: d", "", None);
    let docs = yaml.read_to_docs().unwrap();
    assert_eq!(docs.input_format, FileFormat::Yaml);
    assert_eq!(docs.jsons, vec![r#"{"c":"d"}"#.to_string()]);
}

#[test]
fn extension_decides_when_no_flag() {
    let yaml = input(b"a: 1", "yml", None);
    let docs = yaml.read_to_docs().unwrap();
    assert_eq!(docs.input_format, FileFormat::Yaml);
}

#[test]
fn unknown_extension_falls_through_to_sniffing() {
    let odd = input(b"c: d", "xyz", None);
    let docs = odd.read_to_docs().unwrap();
    assert_eq!(docs.input_format, FileFormat::Yaml);
    assert_eq!(docs.jsons, vec![r#"{"c":"d"}"#.to_string()]);
}

#[test]
fn unrecognized_content_exhausts_all_formats() {
    // invalid UTF-8 fails every decoder
    let junk = input(&[0xff, 0xfe, 0x7b], "", None);
    assert!(matches!(junk.read_to_docs(), Err(Error::Unrecognized)));
    // an unknown extension does not mask the exhaustion
    let junk_with_ext = input(&[0xff, 0xfe, 0x7b], "xyz", None);
    assert!(matches!(junk_with_ext.read_to_docs(), Err(Error::Unrecognized)));
}

#[test]
fn declared_format_wins_over_sniffing() {
    // valid JSON, but the caller declared YAML and YAML accepts it too
    let forced = input(b"c: d", "", Some(FileFormat::Yaml));
    let docs = forced.read_to_docs().unwrap();
    assert_eq!(docs.input_format, FileFormat::Yaml);
}

#[test]
fn slurp_propagates_parse_failure() {
    let good = input(br#"{"a":"b"}"#, "", Some(FileFormat::Json));
    let bad = input(b"][", "", Some(FileFormat::Json));
    assert!(matches!(
        slurp(&vec![good, bad]),
        Err(Error::Parse { index: 0 })
    ));
}
