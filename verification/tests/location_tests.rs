use tags_lsp::error::QueryError;
use tags_lsp::location::find_substring;
use tags_lsp::location::resolve_full_precision;
use tags_lsp::location::resolve_low_precision;
use tags_lsp::text::split_string_by_lines;

#[test]
fn full_precision_takes_the_first_occurrence() {
    // `foo` occurs twice; the resolved range covers columns [4, 7) of the
    // first occurrence only.
    let content = "int foo(int x) { return foo(x); }";
    let loc = resolve_full_precision("/p/f.c", content, 0, "foo").unwrap();
    assert_eq!(loc.path, "/p/f.c");
    assert_eq!(loc.range.start.line, 0);
    assert_eq!(loc.range.start.character, 4);
    assert_eq!(loc.range.end.line, 0);
    assert_eq!(loc.range.end.character, 7);
}

#[test]
fn full_precision_is_a_pure_function_of_its_inputs() {
    let content = "a\nint foo(void) {\n";
    let a = resolve_full_precision("/p/f.c", content, 1, "foo").unwrap();
    let b = resolve_full_precision("/p/f.c", content, 1, "foo").unwrap();
    assert_eq!(a, b);
    assert_eq!(a.range.start.character, 4);
    assert_eq!(a.range.start.line, 1);
}

#[test]
fn low_precision_is_idempotent_and_zero_width() {
    let a = resolve_low_precision("/p/f.c", 11);
    let b = resolve_low_precision("/p/f.c", 11);
    assert_eq!(a, b);
    assert_eq!(a.range.start.line, 11);
    assert_eq!(a.range.start.character, 0);
    assert_eq!(a.range.end.line, 11);
    assert_eq!(a.range.end.character, 0);
}

#[test]
fn stale_line_index_fails() {
    let content = "one line only";
    assert_eq!(
        resolve_full_precision("/p", content, 5, "one"),
        Err(QueryError::LineIndexOutOfRange)
    );
}

#[test]
fn stale_symbol_fails() {
    let content = "int bar;\n";
    assert_eq!(
        resolve_full_precision("/p", content, 0, "baz"),
        Err(QueryError::SymbolNotFoundInLine)
    );
}

#[test]
fn substring_search_finds_the_least_index() {
    assert_eq!(find_substring("abcabc", "bc"), Some(1));
    assert_eq!(find_substring("abc", "abc"), Some(0));
    assert_eq!(find_substring("abc", ""), Some(0));
    assert_eq!(find_substring("abc", "zz"), None);
    assert_eq!(find_substring("ab", "abc"), None);
}

fn strings(items: &[&str]) -> Vec<String> {
    items.iter().map(|s| String::from(*s)).collect()
}

#[test]
fn line_splitting() {
    assert_eq!(split_string_by_lines("a\nb\r\nc\n"), strings(&["a", "b", "c"]));
    assert_eq!(split_string_by_lines(""), Vec::<String>::new());
    assert_eq!(split_string_by_lines("\n\n"), strings(&["", ""]));
    // Only a carriage return directly before a line feed is dropped.
    assert_eq!(split_string_by_lines("x\r"), strings(&["x\r"]));
    assert_eq!(split_string_by_lines("no newline"), strings(&["no newline"]));
}
