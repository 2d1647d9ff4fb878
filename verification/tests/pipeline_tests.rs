use nuq::Args;
use nuq::Error;
use nuq::FileFormat;

fn args() -> Args {
    Args {
        program: ".".to_string(),
        files: Vec::new(),
        input_format: None,
        output_format: None,
        raw: false,
        slurp: false,
        color: None,
        pretty: false,
    }
}

#[test]
fn raw_and_output_format_exclude_each_other() {
    let mut bad = args();
    bad.raw = true;
    bad.output_format = Some(FileFormat::Json);
    assert!(matches!(bad.validate(), Err(Error::Config)));
}

#[test]
fn compatible_flags_validate() {
    assert!(args().validate().is_ok());
    let mut raw_only = args();
    raw_only.raw = true;
    assert!(raw_only.validate().is_ok());
    let mut format_only = args();
    format_only.output_format = Some(FileFormat::Toml);
    assert!(format_only.validate().is_ok());
}

#[test]
fn output_format_explicit_choice_wins() {
    let mut chosen = args();
    chosen.output_format = Some(FileFormat::Toml);
    assert_eq!(
        chosen.plan_output(FileFormat::Json),
        Some(FileFormat::Toml)
    );
}

#[test]
fn output_format_defaults_to_input_format() {
    assert_eq!(args().plan_output(FileFormat::Yaml), Some(FileFormat::Yaml));
}

#[test]
fn raw_mode_selects_no_encoding() {
    let mut raw = args();
    raw.raw = true;
    assert_eq!(raw.plan_output(FileFormat::Json), None);
}

#[test]
fn explicit_color_flag_wins() {
    let mut on = args();
    on.color = Some(true);
    assert!(on.should_color(None, false));
    let mut off = args();
    off.color = Some(false);
    assert!(!off.should_color(Some(FileFormat::Json), true));
}

#[test]
fn color_defaults_to_terminal_with_format() {
    let plain = args();
    assert!(plain.should_color(Some(FileFormat::Json), true));
    assert!(!plain.should_color(None, true));
    assert!(!plain.should_color(Some(FileFormat::Json), false));
}

#[test]
fn emit_without_color_is_the_rendered_text() {
    let styles = nuq::Styles::new();
    let outputs = vec![r#"{"a":"b"}"#.to_string()];
    let out = nuq::emit_output(&outputs, Some(FileFormat::Json), false, false, &styles).unwrap();
    assert_eq!(out, b"{\"a\":\"b\"}\n".to_vec());
}

#[test]
fn emit_with_color_but_no_grammar_appends_reset() {
    let styles = nuq::Styles::new();
    let outputs = vec![r#"{"a":"b"}"#.to_string()];
    let out = nuq::emit_output(&outputs, Some(FileFormat::Ron), false, true, &styles).unwrap();
    assert_eq!(out, b"{\"a\":\"b\"}\n\x1b[0m".to_vec());
}

#[test]
fn emit_propagates_rendering_failure() {
    let styles = nuq::Styles::new();
    let outputs = vec!["{}".to_string(), "{}".to_string()];
    assert!(matches!(
        nuq::emit_output(&outputs, Some(FileFormat::Toml), false, false, &styles),
        Err(Error::UnsupportedMultiDocument)
    ));
}
