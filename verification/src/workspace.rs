//! Workspace folders and path resolution.
//!
//! A workspace folder is a registered root directory; a file location belongs
//! to the first registered folder whose root is a string prefix of the file's
//! path.  The tie-break is deliberately first-registered, not longest-prefix.

use vstd::prelude::*;

use crate::error::QueryError;

verus! {

/// One registered workspace root.  Immutable once registered; the set is
/// established at session start.
#[derive(Clone, Debug, PartialEq, Eq)]
pub struct WorkspaceFolder {
    /// Display name of the folder; may be empty.
    pub name: String,
    /// Decoded absolute path of the folder's root.
    pub root: String,
}

/// Whether `prefix` is a string prefix of `s`.
pub fn str_starts_with(s: &str, prefix: &str) -> (b: bool)
    ensures
        b == prefix@.is_prefix_of(s@),
{
    let n = s.unicode_len();
    let m = prefix.unicode_len();
    if m > n {
        return false;
    }
    let mut k: usize = 0;
    while k < m
        invariant
            k <= m <= n,
            n == s@.len(),
            m == prefix@.len(),
            forall|t: int| 0 <= t < k ==> s@[t] == prefix@[t],
        decreases m - k,
    {
        if s.get_char(k) != prefix.get_char(k) {
            proof {
                assert(s@.subrange(0, m as int)[k as int] != prefix@[k as int]);
            }
            return false;
        }
        k = k + 1;
    }
    proof {
        assert(prefix@ =~= s@.subrange(0, m as int));
    }
    true
}

/// Index of the first registered folder whose root is a prefix of `path`.
///
/// The first match in registration order wins, not the longest prefix.
/// Fails with [`QueryError::NoOwningWorkspace`] exactly when no folder's
/// root is a prefix of `path` (in particular, always, when no folder is
/// registered): a client-usage error, reported before any index query runs.
pub fn find_belong_workspace_folder(folders: &Vec<WorkspaceFolder>, path: &str) -> (r: Result<
    usize,
    QueryError,
>)
    ensures
        match r {
            Ok(i) => {
                &&& i < folders.len()
                &&& folders[i as int].root@.is_prefix_of(path@)
                &&& forall|j: int|
                    0 <= j < i ==> !(#[trigger] folders[j].root@).is_prefix_of(path@)
            },
            Err(e) => {
                &&& e is NoOwningWorkspace
                &&& forall|j: int|
                    0 <= j < folders.len() ==> !(#[trigger] folders[j].root@).is_prefix_of(path@)
            },
        },
{
    let n = folders.len();
    let mut i: usize = 0;
    while i < n
        invariant
            i <= n == folders.len(),
            forall|j: int| 0 <= j < i ==> !(#[trigger] folders[j].root@).is_prefix_of(path@),
        decreases n - i,
    {
        if str_starts_with(path, folders[i].root.as_str()) {
            return Ok(i);
        }
        i = i + 1;
    }
    Err(QueryError::NoOwningWorkspace)
}

/// Assemble the registered folder set from the initialize-time parameters:
/// an explicit folder list replaces everything, otherwise a bare root
/// location becomes one unnamed folder, otherwise no folder is registered.
pub fn copy_workspace_folder(
    root_path: Option<String>,
    workspace_folders: Option<Vec<WorkspaceFolder>>,
) -> (r: Vec<WorkspaceFolder>)
    ensures
        match workspace_folders {
            Some(fs) => r == fs,
            None => match root_path {
                Some(p) => r.len() == 1 && r[0].name@ == Seq::<char>::empty() && r[0].root == p,
                None => r.len() == 0,
            },
        },
{
    match workspace_folders {
        Some(fs) => fs,
        None => match root_path {
            Some(p) => {
                let mut r: Vec<WorkspaceFolder> = Vec::new();
                r.push(WorkspaceFolder { name: String::new(), root: p });
                r
            },
            None => Vec::new(),
        },
    }
}

/// Whether a path string is absolute.
pub open spec fn is_absolute_path(s: Seq<char>) -> bool {
    s.len() > 0 && s[0] == '/'
}

/// Join a workspace root and a relative path from a cross-reference record
/// with a single separator.  Fails with [`QueryError::PathNotAbsolute`]
/// exactly when the joined result is not an absolute path.
pub fn join_workspace_path(root: &str, rel: &str) -> (r: Result<String, QueryError>)
    ensures
        match r {
            Ok(p) => {
                &&& p@ == root@ + seq!['/'] + rel@
                &&& is_absolute_path(p@)
            },
            Err(e) => {
                &&& e is PathNotAbsolute
                &&& !is_absolute_path(root@ + seq!['/'] + rel@)
            },
        },
{
    let mut p = root.to_owned();
    p.append("/");
    p.append(rel);
    proof {
        reveal_strlit("/");
        assert("/"@ =~= seq!['/']);
        assert(p@ =~= root@ + seq!['/'] + rel@);
    }
    if p.as_str().unicode_len() == 0 {
        return Err(QueryError::PathNotAbsolute);
    }
    if p.as_str().get_char(0) != '/' {
        return Err(QueryError::PathNotAbsolute);
    }
    Ok(p)
}

} // verus!
