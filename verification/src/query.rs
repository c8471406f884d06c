//! Index queries and their argument vectors.
//!
//! Every request kind maps to one invocation of the external index tool with
//! a fixed flag set; the embedding program spawns the tool with these
//! arguments and the owning workspace root as working directory, and hands
//! the captured output lines back to the library.

use vstd::prelude::*;

verus! {

/// One kind of index query, carrying its request-specific argument.
#[derive(Clone, Debug, PartialEq, Eq)]
pub enum QueryKind {
    /// Completion candidates for a prefix.
    CompletionCandidates { prefix: String },
    /// Symbol-name completion through the cross-reference output.
    SymbolNameCompletion { prefix: String },
    /// Definition or declaration lookup for a symbol; also used for
    /// workspace-wide symbol search.
    Definition { symbol: String },
    /// Reference lookup for a symbol.
    References { symbol: String },
    /// All symbols of one document.
    DocumentSymbols { file_path: String },
}

/// The argument vector of a query, one string per process argument.
pub open spec fn query_args_spec(kind: QueryKind) -> Seq<Seq<char>> {
    match kind {
        QueryKind::CompletionCandidates { prefix } => seq!["-c"@, prefix@],
        QueryKind::SymbolNameCompletion { prefix } => seq!["-s"@, "-x"@, prefix@ + seq!['.']],
        QueryKind::Definition { symbol } => seq!["-d"@, "-x"@, symbol@],
        QueryKind::References { symbol } => seq!["-r"@, "-s"@, "-x"@, symbol@],
        QueryKind::DocumentSymbols { file_path } => seq!["-x"@, "-f"@, file_path@],
    }
}

/// Build the argument vector for one query.
pub fn build_query_args(kind: &QueryKind) -> (args: Vec<String>)
    ensures
        args.deep_view() == query_args_spec(*kind),
{
    let mut args: Vec<String> = Vec::new();
    match kind {
        QueryKind::CompletionCandidates { prefix } => {
            args.push("-c".to_owned());
            args.push(prefix.clone());
        },
        QueryKind::SymbolNameCompletion { prefix } => {
            args.push("-s".to_owned());
            args.push("-x".to_owned());
            let mut dotted = prefix.clone();
            dotted.append(".");
            proof {
                reveal_strlit(".");
                assert("."@ =~= seq!['.']);
            }
            args.push(dotted);
        },
        QueryKind::Definition { symbol } => {
            args.push("-d".to_owned());
            args.push("-x".to_owned());
            args.push(symbol.clone());
        },
        QueryKind::References { symbol } => {
            args.push("-r".to_owned());
            args.push("-s".to_owned());
            args.push("-x".to_owned());
            args.push(symbol.clone());
        },
        QueryKind::DocumentSymbols { file_path } => {
            args.push("-x".to_owned());
            args.push("-f".to_owned());
            args.push(file_path.clone());
        },
    }
    proof {
        assert(args.deep_view() =~= query_args_spec(*kind));
    }
    args
}

/// Normalize a workspace-symbol query: the empty query means match-all.
pub fn normalize_query(query: &str) -> (q: String)
    ensures
        q@ == (if query@.len() == 0 {
            "."@
        } else {
            query@
        }),
{
    if query.unicode_len() == 0 {
        ".".to_owned()
    } else {
        query.to_owned()
    }
}

/// Name of the external program answering index queries.
pub fn index_query_program() -> (p: String)
    ensures
        p@ == "global"@,
{
    "global".to_owned()
}

/// Name of the external program that (re)builds the index.
pub fn index_update_program() -> (p: String)
    ensures
        p@ == "gtags"@,
{
    "gtags".to_owned()
}

/// Argument vector of the incremental index rebuild.
pub fn index_update_args() -> (args: Vec<String>)
    ensures
        args.deep_view() == seq!["-i"@],
{
    let mut args: Vec<String> = Vec::new();
    args.push("-i".to_owned());
    proof {
        assert(args.deep_view() =~= seq!["-i"@]);
    }
    args
}

} // verus!
