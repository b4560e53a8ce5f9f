use evenframe_core::typesync::doc_comment::{format_double_slash, format_jsdoc, format_triple_slash};

#[test]
fn test_format_jsdoc_single_line() {
    assert_eq!(
        format_jsdoc("A user account", ""),
        "/** A user account */"
    );
}

#[test]
fn test_format_jsdoc_single_line_with_indent() {
    assert_eq!(
        format_jsdoc("The email address", "  "),
        "  /** The email address */"
    );
}

#[test]
fn test_format_jsdoc_multi_line() {
    let result = format_jsdoc("Line one\nLine two", "");
    assert_eq!(result, "/**\n * Line one\n * Line two\n */");
}

#[test]
fn test_format_jsdoc_escapes_close() {
    let result = format_jsdoc("contains */ sequence", "");
    assert_eq!(result, "/** contains * / sequence */");
}

#[test]
fn test_format_triple_slash() {
    assert_eq!(
        format_triple_slash("A table", ""),
        "/// A table\n"
    );
}

#[test]
fn test_format_triple_slash_multi_line() {
    assert_eq!(
        format_triple_slash("Line one\nLine two", "    "),
        "    /// Line one\n    /// Line two\n"
    );
}

#[test]
fn test_format_double_slash() {
    assert_eq!(
        format_double_slash("A message", ""),
        "// A message\n"
    );
}

#[test]
fn test_format_double_slash_with_indent() {
    assert_eq!(
        format_double_slash("A field", "    "),
        "    // A field\n"
    );
}
