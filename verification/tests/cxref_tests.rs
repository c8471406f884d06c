use tags_lsp::cxref::parse_cxref;
use tags_lsp::error::QueryError;

#[test]
fn round_trip_of_a_formatted_record() {
    // Formatting `(symbol, line, path, rest)` with two-space separators and
    // parsing the line back yields the original tuple.
    let line = format!("{}  {}  {}  {}", "foo", 12, "src/a.c", "int foo;");
    let rec = parse_cxref(&line).unwrap();
    assert_eq!(rec.symbol, "foo");
    assert_eq!(rec.line, 12);
    assert_eq!(rec.path, "src/a.c");
    assert_eq!(rec.context, "int foo;");
}

#[test]
fn parses_the_tool_layout() {
    let rec = parse_cxref("main              10 src/main.c  main (argc, argv) {").unwrap();
    assert_eq!(rec.symbol, "main");
    assert_eq!(rec.line, 10);
    assert_eq!(rec.path, "src/main.c");
    assert_eq!(rec.context, "main (argc, argv) {");
}

#[test]
fn tabs_separate_fields_too() {
    let rec = parse_cxref("sym\t3\tdir/f.c\tcontext here").unwrap();
    assert_eq!(rec.symbol, "sym");
    assert_eq!(rec.line, 3);
    assert_eq!(rec.path, "dir/f.c");
    assert_eq!(rec.context, "context here");
}

#[test]
fn malformed_lines_are_rejected() {
    assert_eq!(parse_cxref(""), Err(QueryError::MalformedIndexRecord));
    assert_eq!(parse_cxref("onlyone"), Err(QueryError::MalformedIndexRecord));
    assert_eq!(parse_cxref("a b c"), Err(QueryError::MalformedIndexRecord));
    assert_eq!(parse_cxref("foo 12"), Err(QueryError::MalformedIndexRecord));
    assert_eq!(parse_cxref("foo 12 p"), Err(QueryError::MalformedIndexRecord));
    // The match is anchored: leading whitespace does not parse.
    assert_eq!(parse_cxref(" foo 1 p r"), Err(QueryError::MalformedIndexRecord));
    // The digit field must end at whitespace.
    assert_eq!(parse_cxref("foo 12x p r"), Err(QueryError::MalformedIndexRecord));
}

#[test]
fn line_number_must_be_positive_and_fit() {
    assert_eq!(parse_cxref("foo 0 p r"), Err(QueryError::InvalidLineNumber));
    assert_eq!(
        parse_cxref("foo 4294967296 p r"),
        Err(QueryError::InvalidLineNumber)
    );
    assert_eq!(
        parse_cxref("foo 99999999999999999999 p r"),
        Err(QueryError::InvalidLineNumber)
    );
    let rec = parse_cxref("foo 4294967295 p r").unwrap();
    assert_eq!(rec.line, u32::MAX);
}

#[test]
fn trailing_context_keeps_inner_whitespace() {
    let rec = parse_cxref("x 1 p   a  b   c").unwrap();
    assert_eq!(rec.context, "a  b   c");
}
