use tags_lsp::error::QueryError;
use tags_lsp::token::find_word_run;
use tags_lsp::token::get_symbol_by_pos_from_dat;
use tags_lsp::token::symbol_in_line_at;
use tags_lsp::token::word_char;

#[test]
fn word_char_classes() {
    assert!(word_char('a'));
    assert!(word_char('Z'));
    assert!(word_char('0'));
    assert!(word_char('_'));
    assert!(!word_char(' '));
    assert!(!word_char('('));
    assert!(!word_char('-'));
}

#[test]
fn cursor_strictly_inside_run() {
    // Columns strictly inside `foo` (5, 6) resolve to exactly that run.
    let line = "int foo(int x)";
    assert_eq!(find_word_run(line, 5), Some((4, 7)));
    assert_eq!(find_word_run(line, 6), Some((4, 7)));
    assert_eq!(symbol_in_line_at(line, 5), Some(String::from("foo")));
}

#[test]
fn cursor_at_run_boundaries() {
    // Both the start (4) and the end (7) boundary still resolve to `foo`.
    let line = "int foo(int x)";
    assert_eq!(find_word_run(line, 4), Some((4, 7)));
    assert_eq!(find_word_run(line, 7), Some((4, 7)));
    assert_eq!(symbol_in_line_at(line, 7), Some(String::from("foo")));
}

#[test]
fn cursor_in_plain_whitespace_fails() {
    // Column 2 of `a  b` touches neither run.
    let line = "a  b";
    assert_eq!(find_word_run(line, 2), None);
    assert_eq!(symbol_in_line_at(line, 2), None);
}

#[test]
fn cursor_past_line_end_fails() {
    let line = "ab";
    assert_eq!(find_word_run(line, 3), None);
    // Column 2 is the end boundary of `ab`.
    assert_eq!(find_word_run(line, 2), Some((0, 2)));
}

#[test]
fn underscores_and_digits_belong_to_the_token() {
    let line = "my_var2 = 1";
    assert_eq!(symbol_in_line_at(line, 3), Some(String::from("my_var2")));
}

#[test]
fn symbol_from_document_position() {
    let data = "int a;\nfoo(bar);\n";
    assert_eq!(get_symbol_by_pos_from_dat(data, 1, 1), Ok(String::from("foo")));
    assert_eq!(get_symbol_by_pos_from_dat(data, 1, 5), Ok(String::from("bar")));
    assert_eq!(get_symbol_by_pos_from_dat(data, 0, 4), Ok(String::from("a")));
}

#[test]
fn out_of_bounds_line_fails() {
    let data = "int a;\n";
    assert_eq!(
        get_symbol_by_pos_from_dat(data, 5, 0),
        Err(QueryError::NoSymbolAtPosition)
    );
}

#[test]
fn no_token_at_position_fails() {
    let data = "a  b\n";
    assert_eq!(
        get_symbol_by_pos_from_dat(data, 0, 2),
        Err(QueryError::NoSymbolAtPosition)
    );
}

#[test]
fn empty_document_has_no_lines() {
    assert_eq!(
        get_symbol_by_pos_from_dat("", 0, 0),
        Err(QueryError::NoSymbolAtPosition)
    );
}

#[test]
fn every_column_resolves_to_its_touching_run() {
    // `ab cd!` has runs [0,2) and [3,5); each column either touches exactly
    // one of them (boundaries included) or resolves to nothing.
    let line = "ab cd!";
    let expected = [
        Some((0, 2)), // 0: inside ab
        Some((0, 2)), // 1: inside ab
        Some((0, 2)), // 2: end boundary of ab
        Some((3, 5)), // 3: start boundary of cd
        Some((3, 5)), // 4: inside cd
        Some((3, 5)), // 5: end boundary of cd
        None,         // 6: after `!`, touching nothing
        None,         // 7: past the line end
    ];
    for (col, want) in expected.iter().enumerate() {
        assert_eq!(find_word_run(line, col), *want, "column {}", col);
    }
}
