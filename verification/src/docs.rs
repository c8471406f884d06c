//! The open-document cache and the shared runtime state.
//!
//! An open document is fully replaced (never diffed) on each change
//! notification and removed on close; at most one entry exists per location.
//! The embedding program keeps one [`Runtime`] behind its own
//! mutual-exclusion primitive and releases it before running any subprocess
//! or file read.

use vstd::prelude::*;

use crate::text::str_eq;
use crate::workspace::WorkspaceFolder;

verus! {

/// The content cached for a document location, or nothing.
pub open spec fn doc_lookup(entries: Seq<(String, String)>, key: Seq<char>) -> Option<Seq<char>>
    decreases entries.len(),
{
    if entries.len() == 0 {
        None
    } else if entries[0].0@ == key {
        Some(entries[0].1@)
    } else {
        doc_lookup(entries.drop_first(), key)
    }
}

/// The lookup misses exactly when no entry holds the key.
proof fn lemma_doc_lookup_none(entries: Seq<(String, String)>, key: Seq<char>)
    ensures
        (doc_lookup(entries, key) is None) <==> (forall|j: int|
            0 <= j < entries.len() ==> (#[trigger] entries[j].0)@ != key),
    decreases entries.len(),
{
    if entries.len() > 0 {
        lemma_doc_lookup_none(entries.drop_first(), key);
        assert forall|j: int| 1 <= j < entries.len() implies entries.drop_first()[j - 1]
            == entries[j] by {}
    }
}

/// Appending an entry with a fresh key defines its lookup and leaves every
/// other key's lookup unchanged.
proof fn lemma_doc_lookup_push(entries: Seq<(String, String)>, e: (String, String))
    requires
        forall|j: int| 0 <= j < entries.len() ==> (#[trigger] entries[j].0)@ != e.0@,
    ensures
        doc_lookup(entries.push(e), e.0@) == Some(e.1@),
        forall|k: Seq<char>| k != e.0@ ==> doc_lookup(entries.push(e), k) == doc_lookup(entries, k),
    decreases entries.len(),
{
    if entries.len() == 0 {
        assert(entries.push(e)[0] == e);
        assert(entries.push(e).drop_first() =~= Seq::<(String, String)>::empty());
        assert forall|k: Seq<char>| k != e.0@ implies doc_lookup(entries.push(e), k)
            == doc_lookup(entries, k) by {
            assert(doc_lookup(Seq::<(String, String)>::empty(), k) is None);
        }
    } else {
        assert forall|j: int| 0 <= j < entries.drop_first().len() implies (
        #[trigger] entries.drop_first()[j].0)@ != e.0@ by {
            assert(entries.drop_first()[j] == entries[j + 1]);
        }
        lemma_doc_lookup_push(entries.drop_first(), e);
        assert(entries.push(e)[0] == entries[0]);
        assert(entries.push(e).drop_first() =~= entries.drop_first().push(e));
        assert forall|k: Seq<char>| k != e.0@ implies doc_lookup(entries.push(e), k)
            == doc_lookup(entries, k) by {
            if entries[0].0@ == k {
            } else {
                assert(doc_lookup(entries.push(e), k) == doc_lookup(
                    entries.drop_first().push(e),
                    k,
                ));
                assert(doc_lookup(entries, k) == doc_lookup(entries.drop_first(), k));
            }
        }
    }
}

/// Removing an entry removes its key's lookup (when the key occurs once)
/// and leaves every other key's lookup unchanged.
proof fn lemma_doc_lookup_remove(entries: Seq<(String, String)>, i: int)
    requires
        0 <= i < entries.len(),
        forall|j: int|
            0 <= j < entries.len() && j != i ==> (#[trigger] entries[j].0)@ != entries[i].0@,
    ensures
        doc_lookup(entries.remove(i), entries[i].0@) is None,
        forall|k: Seq<char>|
            k != entries[i].0@ ==> doc_lookup(entries.remove(i), k) == doc_lookup(entries, k),
    decreases entries.len(),
{
    lemma_doc_lookup_none(entries.remove(i), entries[i].0@);
    assert forall|j: int| 0 <= j < entries.remove(i).len() implies (#[trigger] entries.remove(
        i,
    )[j].0)@ != entries[i].0@ by {
        if j < i {
            assert(entries.remove(i)[j] == entries[j]);
        } else {
            assert(entries.remove(i)[j] == entries[j + 1]);
        }
    }
    if i == 0 {
        assert(entries.remove(0) =~= entries.drop_first());
    } else {
        assert forall|j: int|
            0 <= j < entries.drop_first().len() && j != i - 1 implies (
        #[trigger] entries.drop_first()[j].0)@ != entries.drop_first()[i - 1].0@ by {
            assert(entries.drop_first()[j] == entries[j + 1]);
            assert(entries.drop_first()[i - 1] == entries[i]);
        }
        lemma_doc_lookup_remove(entries.drop_first(), i - 1);
        assert(entries.drop_first()[i - 1] == entries[i]);
        assert forall|k: Seq<char>| k != entries[i].0@ implies doc_lookup(entries.remove(i), k)
            == doc_lookup(entries, k) by {
            assert(entries.remove(i)[0] == entries[0]);
            if entries[0].0@ == k {
            } else {
                assert(entries.remove(i).drop_first() =~= entries.drop_first().remove(i - 1));
                assert(doc_lookup(entries.remove(i), k) == doc_lookup(
                    entries.drop_first().remove(i - 1),
                    k,
                ));
                assert(doc_lookup(entries, k) == doc_lookup(entries.drop_first(), k));
            }
        }
    }
}

/// The open-document cache: at most one entry per location, in opening
/// order.
pub struct OpenDocuments {
    entries: Vec<(String, String)>,
}

impl OpenDocuments {
    /// The entries of the cache, for specification purposes.
    pub closed spec fn entries_view(&self) -> Seq<(String, String)> {
        self.entries@
    }

    /// The cached content of a location, or nothing.
    pub open spec fn lookup(&self, key: Seq<char>) -> Option<Seq<char>> {
        doc_lookup(self.entries_view(), key)
    }

    /// Every location has at most one entry.
    pub open spec fn wf(&self) -> bool {
        forall|i: int, j: int|
            0 <= i < j < self.entries_view().len() ==> (#[trigger] self.entries_view()[i].0)@ != (
            #[trigger] self.entries_view()[j].0)@
    }

    /// An empty cache.
    pub fn new() -> (docs: Self)
        ensures
            docs.wf(),
            forall|k: Seq<char>| docs.lookup(k) is None,
    {
        let docs = OpenDocuments { entries: Vec::new() };
        proof {
            assert forall|k: Seq<char>| docs.lookup(k) is None by {
                lemma_doc_lookup_none(docs.entries@, k);
            }
        }
        docs
    }

    /// Position of the entry for `uri`, if any.
    fn position_of(&self, uri: &str) -> (r: Option<usize>)
        ensures
            match r {
                Some(i) => i < self.entries_view().len() && self.entries_view()[i as int].0@
                    == uri@ && (forall|j: int|
                    0 <= j < i ==> (#[trigger] self.entries_view()[j].0)@ != uri@),
                None => forall|j: int|
                    0 <= j < self.entries_view().len() ==> (#[trigger] self.entries_view()[j].0)@
                        != uri@,
            },
    {
        let n = self.entries.len();
        let mut i: usize = 0;
        while i < n
            invariant
                i <= n == self.entries@.len(),
                forall|j: int| 0 <= j < i ==> (#[trigger] self.entries@[j].0)@ != uri@,
            decreases n - i,
        {
            if str_eq(self.entries[i].0.as_str(), uri) {
                return Some(i);
            }
            i = i + 1;
        }
        None
    }

    /// Drop the entry for `uri`, if any.
    fn remove_key(&mut self, uri: &str)
        requires
            old(self).wf(),
        ensures
            final(self).wf(),
            final(self).lookup(uri@) is None,
            forall|j: int|
                0 <= j < final(self).entries_view().len() ==> (#[trigger] final(self).entries_view()[j].0)@
                    != uri@,
            forall|k: Seq<char>| k != uri@ ==> final(self).lookup(k) == old(self).lookup(k),
    {
        let ghost olds = self.entries@;
        match self.position_of(uri) {
            Some(i) => {
                self.entries.remove(i);
                proof {
                    assert(self.entries@ =~= olds.remove(i as int));
                    lemma_doc_lookup_remove(olds, i as int);
                    lemma_doc_lookup_none(self.entries@, uri@);
                    assert forall|a: int, b: int|
                        0 <= a < b < self.entries@.len() implies (#[trigger] self.entries@[a].0)@
                        != (#[trigger] self.entries@[b].0)@ by {
                        if b < i {
                            assert(self.entries@[a] == olds[a] && self.entries@[b] == olds[b]);
                        } else if a < i {
                            assert(self.entries@[a] == olds[a] && self.entries@[b] == olds[b + 1]);
                        } else {
                            assert(self.entries@[a] == olds[a + 1] && self.entries@[b] == olds[b
                                + 1]);
                        }
                    }
                }
            },
            None => {
                proof {
                    lemma_doc_lookup_none(olds, uri@);
                }
            },
        }
    }

    /// Cache a document on its open notification: a fresh entry, or a full
    /// replacement of the previous content.
    pub fn open(&mut self, uri: String, text: String)
        requires
            old(self).wf(),
        ensures
            final(self).wf(),
            final(self).lookup(uri@) == Some(text@),
            forall|k: Seq<char>| k != uri@ ==> final(self).lookup(k) == old(self).lookup(k),
    {
        self.remove_key(uri.as_str());
        let ghost mid = self.entries@;
        let ghost e = (uri, text);
        proof {
            assert(e.0@ == uri@);
        }
        self.entries.push((uri, text));
        proof {
            assert(self.entries@ =~= mid.push(e));
            lemma_doc_lookup_push(mid, e);
            assert forall|a: int, b: int|
                0 <= a < b < self.entries@.len() implies (#[trigger] self.entries@[a].0)@ != (
            #[trigger] self.entries@[b].0)@ by {
                if b < mid.len() {
                    assert(self.entries@[a] == mid[a] && self.entries@[b] == mid[b]);
                } else {
                    assert(self.entries@[b] == e);
                    assert(self.entries@[a] == mid[a]);
                }
            }
        }
    }

    /// Replace a document's content on its change notification.  A change
    /// for a location that is not cached changes nothing.
    pub fn change(&mut self, uri: &str, text: String)
        requires
            old(self).wf(),
        ensures
            final(self).wf(),
            old(self).lookup(uri@) is Some ==> final(self).lookup(uri@) == Some(text@),
            old(self).lookup(uri@) is None ==> final(self).lookup(uri@) is None,
            forall|k: Seq<char>| k != uri@ ==> final(self).lookup(k) == old(self).lookup(k),
    {
        let present = match self.position_of(uri) {
            Some(_) => true,
            None => false,
        };
        proof {
            lemma_doc_lookup_none(self.entries@, uri@);
        }
        if present {
            self.open(uri.to_owned(), text);
        }
    }

    /// Drop a document on its close notification.
    pub fn close(&mut self, uri: &str)
        requires
            old(self).wf(),
        ensures
            final(self).wf(),
            final(self).lookup(uri@) is None,
            forall|k: Seq<char>| k != uri@ ==> final(self).lookup(k) == old(self).lookup(k),
    {
        self.remove_key(uri);
    }

    /// A copy of the cached content of a location, if any.
    pub fn get(&self, uri: &str) -> (r: Option<String>)
        ensures
            match r {
                Some(text) => self.lookup(uri@) == Some(text@),
                None => self.lookup(uri@) is None,
            },
    {
        match self.position_of(uri) {
            Some(i) => {
                proof {
                    lemma_doc_lookup_first(self.entries@, uri@, i as int);
                }
                Some(self.entries[i].1.clone())
            },
            None => {
                proof {
                    lemma_doc_lookup_none(self.entries@, uri@);
                }
                None
            },
        }
    }
}

/// When the key first occurs at `i`, the lookup answers that entry's
/// content.
proof fn lemma_doc_lookup_first(entries: Seq<(String, String)>, key: Seq<char>, i: int)
    requires
        0 <= i < entries.len(),
        entries[i].0@ == key,
        forall|j: int| 0 <= j < i ==> (#[trigger] entries[j].0)@ != key,
    ensures
        doc_lookup(entries, key) == Some(entries[i].1@),
    decreases i,
{
    if i > 0 {
        assert(entries.drop_first()[i - 1] == entries[i]);
        assert forall|j: int| 0 <= j < i - 1 implies (#[trigger] entries.drop_first()[j].0)@
            != key by {
            assert(entries.drop_first()[j] == entries[j + 1]);
        }
        lemma_doc_lookup_first(entries.drop_first(), key, i - 1);
    }
}

/// Configuration fixed after startup parsing and read by every request.
#[derive(Clone, Copy, Debug, PartialEq, Eq, Structural)]
pub struct RuntimeConfig {
    /// Resolve every location to a zero-width range at the line start
    /// instead of re-scanning files for exact columns.
    pub low_precision: bool,
}

/// The shared runtime state: registered folders, open documents, and the
/// configuration.  One value of this lives behind the embedding program's
/// mutual-exclusion region; it must not be held across subprocess execution
/// or file reads.
pub struct Runtime {
    /// Immutable configuration.
    pub config: RuntimeConfig,
    /// Registered workspace folders, in registration order.
    pub workspace_folders: Vec<WorkspaceFolder>,
    /// The open-document cache.
    pub open_files: OpenDocuments,
}

} // verus!
