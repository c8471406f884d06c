use tags_lsp::docs::OpenDocuments;
use tags_lsp::docs::Runtime;
use tags_lsp::docs::RuntimeConfig;

#[test]
fn open_then_get() {
    let mut docs = OpenDocuments::new();
    assert_eq!(docs.get("/p/a.c"), None);
    docs.open(String::from("/p/a.c"), String::from("int a;"));
    assert_eq!(docs.get("/p/a.c"), Some(String::from("int a;")));
    assert_eq!(docs.get("/p/b.c"), None);
}

#[test]
fn open_replaces_whole_content() {
    let mut docs = OpenDocuments::new();
    docs.open(String::from("/p/a.c"), String::from("one"));
    docs.open(String::from("/p/a.c"), String::from("two"));
    assert_eq!(docs.get("/p/a.c"), Some(String::from("two")));
}

#[test]
fn change_replaces_only_cached_documents() {
    let mut docs = OpenDocuments::new();
    docs.open(String::from("/p/a.c"), String::from("one"));
    docs.change("/p/a.c", String::from("two"));
    assert_eq!(docs.get("/p/a.c"), Some(String::from("two")));
    // A change for a document that was never opened changes nothing.
    docs.change("/p/b.c", String::from("zzz"));
    assert_eq!(docs.get("/p/b.c"), None);
}

#[test]
fn close_removes_one_document() {
    let mut docs = OpenDocuments::new();
    docs.open(String::from("/p/a.c"), String::from("one"));
    docs.open(String::from("/p/b.c"), String::from("two"));
    docs.close("/p/a.c");
    assert_eq!(docs.get("/p/a.c"), None);
    assert_eq!(docs.get("/p/b.c"), Some(String::from("two")));
    // Closing again is harmless.
    docs.close("/p/a.c");
    assert_eq!(docs.get("/p/a.c"), None);
}

#[test]
fn runtime_assembles() {
    let rt = Runtime {
        config: RuntimeConfig { low_precision: true },
        workspace_folders: Vec::new(),
        open_files: OpenDocuments::new(),
    };
    assert!(rt.config.low_precision);
    assert!(rt.workspace_folders.is_empty());
}
