use tags_lsp::error::QueryError;
use tags_lsp::workspace::copy_workspace_folder;
use tags_lsp::workspace::find_belong_workspace_folder;
use tags_lsp::workspace::join_workspace_path;
use tags_lsp::workspace::str_starts_with;
use tags_lsp::workspace::WorkspaceFolder;

fn folder(name: &str, root: &str) -> WorkspaceFolder {
    WorkspaceFolder { name: String::from(name), root: String::from(root) }
}

#[test]
fn first_registered_prefix_wins() {
    // `/x` is registered before the more specific `/x/y`: the first match in
    // registration order owns the file, not the longest prefix.
    let folders = vec![folder("A", "/x"), folder("B", "/x/y")];
    assert_eq!(find_belong_workspace_folder(&folders, "/x/y/z.c"), Ok(0));
    let swapped = vec![folder("B", "/x/y"), folder("A", "/x")];
    assert_eq!(find_belong_workspace_folder(&swapped, "/x/y/z.c"), Ok(0));
    assert_eq!(find_belong_workspace_folder(&swapped, "/x/w.c"), Ok(1));
}

#[test]
fn zero_folders_always_fail() {
    let folders: Vec<WorkspaceFolder> = Vec::new();
    assert_eq!(
        find_belong_workspace_folder(&folders, "/x/y/z.c"),
        Err(QueryError::NoOwningWorkspace)
    );
}

#[test]
fn unowned_file_fails() {
    let folders = vec![folder("A", "/x")];
    assert_eq!(
        find_belong_workspace_folder(&folders, "/other/z.c"),
        Err(QueryError::NoOwningWorkspace)
    );
}

#[test]
fn prefix_check_is_plain_string_prefix() {
    assert!(str_starts_with("/x/y/z.c", "/x"));
    assert!(str_starts_with("/x", "/x"));
    assert!(!str_starts_with("/x", "/x/y"));
    assert!(!str_starts_with("/a/b", "/b"));
}

#[test]
fn folder_set_assembly() {
    // An explicit folder list replaces everything.
    let explicit = vec![folder("A", "/x")];
    let r = copy_workspace_folder(Some(String::from("/root")), Some(explicit.clone()));
    assert_eq!(r, explicit);
    // A bare root location becomes one unnamed folder.
    let r = copy_workspace_folder(Some(String::from("/root")), None);
    assert_eq!(r.len(), 1);
    assert_eq!(r[0].name, "");
    assert_eq!(r[0].root, "/root");
    // Nothing registers nothing.
    let r = copy_workspace_folder(None, None);
    assert!(r.is_empty());
}

#[test]
fn joining_paths() {
    assert_eq!(
        join_workspace_path("/proj", "src/a.c"),
        Ok(String::from("/proj/src/a.c"))
    );
    assert_eq!(join_workspace_path("", "x"), Ok(String::from("/x")));
    assert_eq!(
        join_workspace_path("rel", "p"),
        Err(QueryError::PathNotAbsolute)
    );
}
