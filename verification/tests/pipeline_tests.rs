use tags_lsp::error::QueryError;
use tags_lsp::pipeline::complete_locations;
use tags_lsp::pipeline::complete_symbol_infos;
use tags_lsp::pipeline::parse_plans;
use tags_lsp::pipeline::plan_cxref_line;
use tags_lsp::symbols::SymbolKind;

fn strings(items: &[&str]) -> Vec<String> {
    items.iter().map(|s| String::from(*s)).collect()
}

#[test]
fn definition_scenario_full_precision() {
    // Workspace root `/proj`, one output line of a definition query: the
    // resolved location is `/proj/src/a.c`, 0-based line 11, spanning `foo`.
    let root = "/proj";
    let lines = strings(&["foo   12 src/a.c  int foo(void) {"]);
    let plans = parse_plans(root, &lines).unwrap();
    assert_eq!(plans.len(), 1);
    assert_eq!(plans[0].record.symbol, "foo");
    assert_eq!(plans[0].record.line, 12);
    assert_eq!(plans[0].abs_path, "/proj/src/a.c");
    assert_eq!(plans[0].line_index, 11);

    // The caller reads the file; line index 11 holds the definition.
    let mut content = String::new();
    for _ in 0..11 {
        content.push_str("// filler\n");
    }
    content.push_str("int foo(void) {\n");
    let contents = vec![content];
    let locs = complete_locations(&plans, &contents, "foo", false).unwrap();
    assert_eq!(locs.len(), 1);
    assert_eq!(locs[0].path, "/proj/src/a.c");
    assert_eq!(locs[0].range.start.line, 11);
    assert_eq!(locs[0].range.start.character, 4);
    assert_eq!(locs[0].range.end.line, 11);
    assert_eq!(locs[0].range.end.character, 7);
}

#[test]
fn definition_scenario_low_precision() {
    let root = "/proj";
    let lines = strings(&["foo   12 src/a.c  int foo(void) {"]);
    let plans = parse_plans(root, &lines).unwrap();
    let locs = complete_locations(&plans, &Vec::new(), "foo", true).unwrap();
    assert_eq!(locs.len(), 1);
    assert_eq!(locs[0].path, "/proj/src/a.c");
    assert_eq!(locs[0].range.start.line, 11);
    assert_eq!(locs[0].range.start.character, 0);
    assert_eq!(locs[0].range.end.line, 11);
    assert_eq!(locs[0].range.end.character, 0);
}

#[test]
fn a_malformed_line_aborts_the_batch() {
    let root = "/proj";
    let lines = strings(&["foo   12 src/a.c  ok", "garbage"]);
    assert_eq!(parse_plans(root, &lines), Err(QueryError::MalformedIndexRecord));
}

#[test]
fn the_first_failing_line_decides_the_error() {
    let root = "/proj";
    let lines = strings(&["foo 0 src/a.c  ok", "garbage"]);
    assert_eq!(parse_plans(root, &lines), Err(QueryError::InvalidLineNumber));
}

#[test]
fn relative_root_gives_path_not_absolute() {
    assert_eq!(
        plan_cxref_line("rel", "foo 1 a.c  x"),
        Err(QueryError::PathNotAbsolute)
    );
}

#[test]
fn symbol_infos_classify_macro_definitions() {
    let root = "/p";
    let lines = strings(&[
        "FOO  1 a.h  #define FOO 1",
        "SPACED  2 a.h  # define SPACED",
        "bar  3 a.c  int bar(void) {",
    ]);
    let plans = parse_plans(root, &lines).unwrap();
    let infos = complete_symbol_infos(&plans, &Vec::new(), true).unwrap();
    assert_eq!(infos.len(), 3);
    assert_eq!(infos[0].name, "FOO");
    assert_eq!(infos[0].kind, SymbolKind::Null);
    assert_eq!(infos[1].kind, SymbolKind::Null);
    assert_eq!(infos[2].kind, SymbolKind::Function);
    assert_eq!(infos[2].location.path, "/p/a.c");
    assert_eq!(infos[2].location.range.start.line, 2);
}

#[test]
fn stale_records_abort_with_their_error() {
    let root = "/p";
    let lines = strings(&["foo 9 a.c  int foo;"]);
    let plans = parse_plans(root, &lines).unwrap();
    let contents = strings(&["int foo;\n"]);
    assert_eq!(
        complete_locations(&plans, &contents, "foo", false),
        Err(QueryError::LineIndexOutOfRange)
    );
    let lines = strings(&["foo 1 a.c  int foo;"]);
    let plans = parse_plans(root, &lines).unwrap();
    let contents = strings(&["int bar;\n"]);
    assert_eq!(
        complete_locations(&plans, &contents, "foo", false),
        Err(QueryError::SymbolNotFoundInLine)
    );
}
