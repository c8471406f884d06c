use tags_lsp::completion::completion_labels;
use tags_lsp::completion::insert_sorted_unique;
use tags_lsp::completion::str_lt;
use tags_lsp::error::QueryError;

fn strings(items: &[&str]) -> Vec<String> {
    items.iter().map(|s| String::from(*s)).collect()
}

#[test]
fn lexicographic_order() {
    assert!(str_lt("abc", "abd"));
    assert!(str_lt("ab", "abc"));
    assert!(!str_lt("abc", "abc"));
    assert!(!str_lt("b", "abc"));
    assert!(str_lt("", "a"));
    assert!(!str_lt("", ""));
}

#[test]
fn sorted_insertion_deduplicates() {
    let mut v = Vec::new();
    insert_sorted_unique(&mut v, String::from("foo"));
    insert_sorted_unique(&mut v, String::from("bar"));
    insert_sorted_unique(&mut v, String::from("foo"));
    insert_sorted_unique(&mut v, String::from("baz"));
    assert_eq!(v, vec!["bar", "baz", "foo"]);
}

#[test]
fn merged_candidates_are_sorted_and_unique() {
    let cands = strings(&["foo", "bar"]);
    let syms = strings(&["baz 1 a.c  int baz;", "foo 2 b.c  int foo;"]);
    let labels = completion_labels(&cands, &syms).unwrap();
    assert_eq!(labels, vec!["bar", "baz", "foo"]);
}

#[test]
fn the_cap_keeps_the_sixteen_smallest() {
    let many: Vec<String> = (0..25).map(|k| format!("sym{:02}", k)).collect();
    let labels = completion_labels(&many, &Vec::new()).unwrap();
    assert_eq!(labels.len(), 16);
    let expected: Vec<String> = (0..16).map(|k| format!("sym{:02}", k)).collect();
    assert_eq!(labels, expected);
}

#[test]
fn a_bad_cross_reference_line_aborts() {
    let cands = strings(&["foo"]);
    let syms = strings(&["garbage"]);
    assert_eq!(
        completion_labels(&cands, &syms),
        Err(QueryError::MalformedIndexRecord)
    );
    let syms = strings(&["baz 0 a.c  x"]);
    assert_eq!(
        completion_labels(&cands, &syms),
        Err(QueryError::InvalidLineNumber)
    );
}
