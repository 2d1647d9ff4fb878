use nuq::Error;
use nuq::FileFormat;
use nuq::Styles;
use nuq::Writer;

const RESET: &[u8] = b"\x1b[0m";

#[test]
fn fallback_passes_bytes_through() {
    // RON has no grammar in the default syntax set, so the buffer passes
    // through unchanged aside from the mandatory trailing reset
    let styles = Styles::new();
    let mut writer = Writer::new(FileFormat::Ron);
    writer.write(b"(a: 1)\n");
    let out = writer.write_highlight(&styles).unwrap();
    let mut expected = b"(a: 1)\n".to_vec();
    expected.extend_from_slice(RESET);
    assert_eq!(out, expected);
}

#[test]
fn empty_flush_still_emits_reset() {
    let styles = Styles::new();
    let writer = Writer::new(FileFormat::Ron);
    let out = writer.write_highlight(&styles).unwrap();
    assert_eq!(out, RESET.to_vec());
}

#[test]
fn json_output_is_colorized() {
    let styles = Styles::new();
    let mut writer = Writer::new(FileFormat::Json);
    writer.write(b"{\"a\": 1}\n");
    let out = writer.write_highlight(&styles).unwrap();
    let text = String::from_utf8(out).unwrap();
    assert!(text.contains("\x1b[38;2;"));
    assert!(text.ends_with("\x1b[0m"));
}

#[test]
fn yaml_output_is_colorized() {
    let styles = Styles::new();
    let mut writer = Writer::new(FileFormat::Yaml);
    writer.write(b"key: test\n");
    let out = writer.write_highlight(&styles).unwrap();
    let text = String::from_utf8(out).unwrap();
    assert!(text.contains("\x1b[38;2;"));
    assert!(text.contains("key"));
}

#[test]
fn invalid_text_is_reported_distinctly() {
    let styles = Styles::new();
    let mut writer = Writer::new(FileFormat::Json);
    writer.write(&[0xff, 0xfe]);
    assert!(matches!(
        writer.write_highlight(&styles),
        Err(Error::InvalidText)
    ));
}

#[test]
fn writes_accumulate_in_order() {
    let styles = Styles::new();
    let mut writer = Writer::new(FileFormat::Ron);
    writer.write(b"(a: ");
    writer.write(b"1)");
    let out = writer.write_highlight(&styles).unwrap();
    let mut expected = b"(a: 1)".to_vec();
    expected.extend_from_slice(RESET);
    assert_eq!(out, expected);
}
