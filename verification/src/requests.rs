//! Request preparation: from an inbound request to one index query.
//!
//! A position request resolves the owning workspace folder and the symbol
//! token under the cursor, then fixes the argument vector of the index query
//! to run.  When no registered folder owns the file, preparation fails with
//! [`QueryError::NoOwningWorkspace`] before any query exists, so no process
//! is ever spawned for such a request.

use vstd::prelude::*;

use crate::error::QueryError;
use crate::query::QueryKind;
use crate::query::build_query_args;
use crate::query::normalize_query;
use crate::query::query_args_spec;
use crate::text::split_lines_spec;
use crate::token::get_symbol_by_pos_from_dat;
use crate::token::word_run;
use crate::workspace::WorkspaceFolder;
use crate::workspace::find_belong_workspace_folder;

verus! {

/// One prepared position query: the owning folder's root as working
/// directory, the symbol under the cursor, and the argument vector.
#[derive(Clone, Debug, PartialEq, Eq)]
pub struct PositionQuery {
    /// Index of the owning folder in registration order.
    pub folder_index: usize,
    /// The owning folder's root, the query's working directory.
    pub root: String,
    /// The symbol token under the cursor.
    pub symbol: String,
    /// Argument vector for the index tool.
    pub args: Vec<String>,
}

/// The owning folder of `file_path` is the first registered folder whose
/// root is a prefix of it.
pub open spec fn owning_folder_is(
    folders: Seq<WorkspaceFolder>,
    file_path: Seq<char>,
    i: int,
) -> bool {
    &&& 0 <= i < folders.len()
    &&& folders[i].root@.is_prefix_of(file_path)
    &&& forall|j: int| 0 <= j < i ==> !(#[trigger] folders[j].root@).is_prefix_of(file_path)
}

/// No registered folder owns `file_path`.
pub open spec fn no_owning_folder(folders: Seq<WorkspaceFolder>, file_path: Seq<char>) -> bool {
    forall|j: int| 0 <= j < folders.len() ==> !(#[trigger] folders[j].root@).is_prefix_of(file_path)
}

/// The cursor resolves to the symbol `sym` in `content`.
pub open spec fn symbol_at_cursor(
    content: Seq<char>,
    line: u32,
    character: u32,
    sym: Seq<char>,
) -> bool {
    &&& (line as int) < split_lines_spec(content).len()
    &&& exists|s: int, e: int|
        #[trigger] word_run(split_lines_spec(content)[line as int], s, e) && s <= character <= e
            && sym == split_lines_spec(content)[line as int].subrange(s, e)
}

/// The cursor resolves to no symbol in `content`.
pub open spec fn no_symbol_at_cursor(content: Seq<char>, line: u32, character: u32) -> bool {
    (line as int) >= split_lines_spec(content).len() || (forall|s: int, e: int|
        word_run(split_lines_spec(content)[line as int], s, e) ==> !(s <= character && character
            <= e))
}

/// The token at a cursor is unambiguous: any two symbols resolved for the
/// same document position are the same symbol.
pub proof fn lemma_symbol_at_cursor_unique(
    content: Seq<char>,
    line: u32,
    character: u32,
    s1: Seq<char>,
    s2: Seq<char>,
)
    requires
        symbol_at_cursor(content, line, character, s1),
        symbol_at_cursor(content, line, character, s2),
    ensures
        s1 == s2,
{
    let l = split_lines_spec(content)[line as int];
    let (a1, b1) = choose|a: int, b: int|
        #[trigger] word_run(l, a, b) && a <= character <= b && s1 == l.subrange(a, b);
    let (a2, b2) = choose|a: int, b: int|
        #[trigger] word_run(l, a, b) && a <= character <= b && s2 == l.subrange(a, b);
    crate::token::lemma_touching_run_unique(l, a1, b1, a2, b2, character as int);
}

/// Prepare a position query of the given kind builder.  Shared by the
/// definition and reference handlers.
fn prepare_position_query(
    folders: &Vec<WorkspaceFolder>,
    file_path: &str,
    file_content: &str,
    line: u32,
    character: u32,
    references: bool,
) -> (r: Result<PositionQuery, QueryError>)
    ensures
        match r {
            Ok(q) => {
                &&& owning_folder_is(folders@, file_path@, q.folder_index as int)
                &&& q.root@ == folders[q.folder_index as int].root@
                &&& symbol_at_cursor(file_content@, line, character, q.symbol@)
                &&& q.args.deep_view() == (if references {
                    seq!["-r"@, "-s"@, "-x"@, q.symbol@]
                } else {
                    seq!["-d"@, "-x"@, q.symbol@]
                })
            },
            Err(e) => {
                &&& (no_owning_folder(folders@, file_path@) ==> e is NoOwningWorkspace)
                &&& (!no_owning_folder(folders@, file_path@) ==> e is NoSymbolAtPosition
                    && no_symbol_at_cursor(file_content@, line, character))
            },
        },
{
    let folder_index = match find_belong_workspace_folder(folders, file_path) {
        Ok(i) => i,
        Err(e) => {
            return Err(e);
        },
    };
    let symbol = match get_symbol_by_pos_from_dat(file_content, line, character) {
        Ok(s) => s,
        Err(e) => {
            return Err(e);
        },
    };
    let root = folders[folder_index].root.clone();
    let kind = if references {
        QueryKind::References { symbol: symbol.clone() }
    } else {
        QueryKind::Definition { symbol: symbol.clone() }
    };
    let args = build_query_args(&kind);
    Ok(PositionQuery { folder_index, root, symbol, args })
}

/// Prepare a definition (or declaration, implementation, type-definition)
/// lookup for the symbol under the cursor.
pub fn prepare_definition_query(
    folders: &Vec<WorkspaceFolder>,
    file_path: &str,
    file_content: &str,
    line: u32,
    character: u32,
) -> (r: Result<PositionQuery, QueryError>)
    ensures
        match r {
            Ok(q) => {
                &&& owning_folder_is(folders@, file_path@, q.folder_index as int)
                &&& q.root@ == folders[q.folder_index as int].root@
                &&& symbol_at_cursor(file_content@, line, character, q.symbol@)
                &&& q.args.deep_view() == seq!["-d"@, "-x"@, q.symbol@]
            },
            Err(e) => {
                &&& (no_owning_folder(folders@, file_path@) ==> e is NoOwningWorkspace)
                &&& (!no_owning_folder(folders@, file_path@) ==> e is NoSymbolAtPosition
                    && no_symbol_at_cursor(file_content@, line, character))
            },
        },
{
    prepare_position_query(folders, file_path, file_content, line, character, false)
}

/// Prepare a reference lookup for the symbol under the cursor.
pub fn prepare_references_query(
    folders: &Vec<WorkspaceFolder>,
    file_path: &str,
    file_content: &str,
    line: u32,
    character: u32,
) -> (r: Result<PositionQuery, QueryError>)
    ensures
        match r {
            Ok(q) => {
                &&& owning_folder_is(folders@, file_path@, q.folder_index as int)
                &&& q.root@ == folders[q.folder_index as int].root@
                &&& symbol_at_cursor(file_content@, line, character, q.symbol@)
                &&& q.args.deep_view() == seq!["-r"@, "-s"@, "-x"@, q.symbol@]
            },
            Err(e) => {
                &&& (no_owning_folder(folders@, file_path@) ==> e is NoOwningWorkspace)
                &&& (!no_owning_folder(folders@, file_path@) ==> e is NoSymbolAtPosition
                    && no_symbol_at_cursor(file_content@, line, character))
            },
        },
{
    prepare_position_query(folders, file_path, file_content, line, character, true)
}

/// One prepared folder-scoped query without a cursor symbol.
#[derive(Clone, Debug, PartialEq, Eq)]
pub struct FolderQuery {
    /// Index of the owning folder in registration order.
    pub folder_index: usize,
    /// The owning folder's root, the query's working directory.
    pub root: String,
    /// Argument vector for the index tool.
    pub args: Vec<String>,
}

/// Prepare a document-scoped symbol query for one file.
pub fn prepare_document_symbol_query(folders: &Vec<WorkspaceFolder>, file_path: &str) -> (r:
    Result<FolderQuery, QueryError>)
    ensures
        match r {
            Ok(q) => {
                &&& owning_folder_is(folders@, file_path@, q.folder_index as int)
                &&& q.root@ == folders[q.folder_index as int].root@
                &&& q.args.deep_view() == seq!["-x"@, "-f"@, file_path@]
            },
            Err(e) => e is NoOwningWorkspace && no_owning_folder(folders@, file_path@),
        },
{
    let folder_index = match find_belong_workspace_folder(folders, file_path) {
        Ok(i) => i,
        Err(e) => {
            return Err(e);
        },
    };
    let root = folders[folder_index].root.clone();
    let kind = QueryKind::DocumentSymbols { file_path: file_path.to_owned() };
    let args = build_query_args(&kind);
    Ok(FolderQuery { folder_index, root, args })
}

/// Argument vector of a workspace-wide symbol search: the query string is
/// normalized (empty means match-all) and looked up as a definition query,
/// once per registered folder in registration order.
pub fn workspace_symbol_args(search: &str) -> (args: Vec<String>)
    ensures
        args.deep_view() == seq![
            "-d"@,
            "-x"@,
            (if search@.len() == 0 {
                "."@
            } else {
                search@
            }),
        ],
{
    let q = normalize_query(search);
    let kind = QueryKind::Definition { symbol: q };
    let args = build_query_args(&kind);
    proof {
        assert(args.deep_view() =~= query_args_spec(kind));
    }
    args
}

} // verus!
