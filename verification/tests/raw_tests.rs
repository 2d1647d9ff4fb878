use nuq::pop_quotes;
use nuq::render_outputs;
use nuq::FileFormat;

#[test]
fn unwrap_leaves_non_strings_alone() {
    assert_eq!(pop_quotes("42"), "42");
    assert_eq!(pop_quotes("[1,2]"), "[1,2]");
    assert_eq!(pop_quotes(""), "");
}

#[test]
fn unwrap_strips_quotes_and_appends_newline() {
    // the shape a pretty-printed string scalar arrives in: quoted, with a
    // trailing newline
    assert_eq!(pop_quotes("\"b\"\n"), "b\n");
    assert_eq!(pop_quotes("\"test\"\n"), "test\n");
}

#[test]
fn unwrap_restores_escaped_quotes() {
    assert_eq!(pop_quotes("\"a\\\"b\"\n"), "a\"b\n");
}

#[test]
fn unwrap_trims_surrounding_whitespace() {
    assert_eq!(pop_quotes("\" x \"\n"), "x\n");
    // the whole Unicode White_Space set is trimmed
    assert_eq!(pop_quotes("\"\u{A0}\u{2003}x\u{3000}\"\n"), "x\n");
}

#[test]
fn unwrap_of_a_lone_quote_is_total() {
    assert_eq!(pop_quotes("\""), "\n");
}

#[test]
fn raw_rendering_concatenates_unwrapped_outputs() {
    let outputs = vec!["\"b\"\n".to_string(), "42\n".to_string()];
    let out = render_outputs(&outputs, None, false).unwrap();
    assert_eq!(out, "b\n42\n");
}

#[test]
fn format_rendering_keeps_documents() {
    let outputs = vec![r#"{"a":"b"}"#.to_string()];
    let out = render_outputs(&outputs, Some(FileFormat::Json), false).unwrap();
    assert_eq!(out, "{\"a\":\"b\"}\n");
}
