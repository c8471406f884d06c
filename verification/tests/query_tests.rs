use tags_lsp::error::QueryError;
use tags_lsp::query::build_query_args;
use tags_lsp::query::index_query_program;
use tags_lsp::query::index_update_args;
use tags_lsp::query::index_update_program;
use tags_lsp::query::normalize_query;
use tags_lsp::query::QueryKind;
use tags_lsp::requests::prepare_definition_query;
use tags_lsp::requests::prepare_document_symbol_query;
use tags_lsp::requests::prepare_references_query;
use tags_lsp::requests::workspace_symbol_args;
use tags_lsp::workspace::WorkspaceFolder;

fn folder(name: &str, root: &str) -> WorkspaceFolder {
    WorkspaceFolder { name: String::from(name), root: String::from(root) }
}

#[test]
fn argument_vectors_per_query_kind() {
    let args = build_query_args(&QueryKind::CompletionCandidates { prefix: String::from("pre") });
    assert_eq!(args, vec!["-c", "pre"]);
    let args = build_query_args(&QueryKind::SymbolNameCompletion { prefix: String::from("pre") });
    assert_eq!(args, vec!["-s", "-x", "pre."]);
    let args = build_query_args(&QueryKind::Definition { symbol: String::from("foo") });
    assert_eq!(args, vec!["-d", "-x", "foo"]);
    let args = build_query_args(&QueryKind::References { symbol: String::from("foo") });
    assert_eq!(args, vec!["-r", "-s", "-x", "foo"]);
    let args = build_query_args(&QueryKind::DocumentSymbols { file_path: String::from("/p/a.c") });
    assert_eq!(args, vec!["-x", "-f", "/p/a.c"]);
}

#[test]
fn empty_query_means_match_all() {
    assert_eq!(normalize_query(""), ".");
    assert_eq!(normalize_query("foo"), "foo");
    assert_eq!(workspace_symbol_args(""), vec!["-d", "-x", "."]);
    assert_eq!(workspace_symbol_args("foo"), vec!["-d", "-x", "foo"]);
}

#[test]
fn tool_names_and_index_rebuild() {
    assert_eq!(index_query_program(), "global");
    assert_eq!(index_update_program(), "gtags");
    assert_eq!(index_update_args(), vec!["-i"]);
}

#[test]
fn definition_query_preparation() {
    let folders = vec![folder("A", "/proj")];
    let content = "int a;\nfoo(bar);\n";
    let q = prepare_definition_query(&folders, "/proj/src/a.c", content, 1, 1).unwrap();
    assert_eq!(q.folder_index, 0);
    assert_eq!(q.root, "/proj");
    assert_eq!(q.symbol, "foo");
    assert_eq!(q.args, vec!["-d", "-x", "foo"]);
}

#[test]
fn references_query_preparation() {
    let folders = vec![folder("A", "/proj")];
    let content = "foo(bar);\n";
    let q = prepare_references_query(&folders, "/proj/src/a.c", content, 0, 5).unwrap();
    assert_eq!(q.symbol, "bar");
    assert_eq!(q.args, vec!["-r", "-s", "-x", "bar"]);
}

#[test]
fn document_symbol_query_preparation() {
    let folders = vec![folder("A", "/proj")];
    let q = prepare_document_symbol_query(&folders, "/proj/src/a.c").unwrap();
    assert_eq!(q.root, "/proj");
    assert_eq!(q.args, vec!["-x", "-f", "/proj/src/a.c"]);
}

#[test]
fn no_owning_workspace_fails_before_any_query_exists() {
    // With zero registered folders, or a file outside every folder, no
    // query value is ever produced, so nothing can be spawned.
    let no_folders: Vec<WorkspaceFolder> = Vec::new();
    assert_eq!(
        prepare_definition_query(&no_folders, "/proj/a.c", "foo\n", 0, 0),
        Err(QueryError::NoOwningWorkspace)
    );
    let folders = vec![folder("A", "/proj")];
    assert_eq!(
        prepare_definition_query(&folders, "/elsewhere/a.c", "foo\n", 0, 0),
        Err(QueryError::NoOwningWorkspace)
    );
    assert_eq!(
        prepare_document_symbol_query(&no_folders, "/proj/a.c"),
        Err(QueryError::NoOwningWorkspace)
    );
}

#[test]
fn missing_symbol_fails_after_workspace_resolution() {
    let folders = vec![folder("A", "/proj")];
    assert_eq!(
        prepare_definition_query(&folders, "/proj/a.c", "a  b\n", 0, 2),
        Err(QueryError::NoSymbolAtPosition)
    );
}
