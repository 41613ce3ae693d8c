use monazite::dom::{sanitize_html, DomError};

#[test]
fn strips_script_blocks() {
    let html = "<div>ok<script>alert(1)</script>end";
    let out = sanitize_html(html).unwrap();
    assert_eq!(out, "<div>okend");
}

#[test]
fn strips_onclick() {
    let html = "<a href='#' onclick=\"evil()\">x</a>";
    let out = sanitize_html(html).unwrap();
    assert!(!out.to_lowercase().contains("onclick"));
}

#[test]
fn unclosed_script_swallows_the_tail() {
    let out = sanitize_html("keep<SCRIPT>gone forever").unwrap();
    assert_eq!(out, "keep");
}

#[test]
fn unquoted_handler_value_is_skipped() {
    let out = sanitize_html("<b onload=boom >x</b>").unwrap();
    assert!(!out.contains("onload"));
    assert!(out.contains("x</b>"));
}

#[test]
fn empty_input_is_invalid() {
    let err = sanitize_html("").unwrap_err();
    assert_eq!(err, DomError::Invalid);
    assert_eq!(err.message(), "invalid input");
}
