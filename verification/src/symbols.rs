//! Symbol classification and symbol information.
//!
//! A cross-reference record's trailing context decides the symbol kind by a
//! best-effort textual heuristic: context matching a preprocessor-define
//! pattern (`#`, optional whitespace, `define`) is classified as the
//! protocol's null kind, everything else as a function.  This is a heuristic,
//! not a guarantee.

use vstd::prelude::*;

use crate::location::Location;
use crate::text::is_ws_char;
use crate::text::ws_char;

verus! {

/// The protocol symbol kind the heuristic can assign.
#[derive(Clone, Copy, Debug, PartialEq, Eq, Structural)]
pub enum SymbolKind {
    /// The null (non-function) kind, used for macro definitions.
    Null,
    /// An ordinary function-like symbol.
    Function,
}

/// The word the preprocessor-define heuristic looks for.
pub open spec fn define_word() -> Seq<char> {
    seq!['d', 'e', 'f', 'i', 'n', 'e']
}

/// A preprocessor define occurs in `s` with the hash at `i` and the word at
/// `j`, separated by whitespace only.
pub open spec fn macro_define_at(s: Seq<char>, i: int, j: int) -> bool {
    &&& 0 <= i <= j
    &&& j + 6 <= s.len()
    &&& s[i] == '#'
    &&& (forall|k: int| i < k < j ==> is_ws_char(#[trigger] s[k]))
    &&& s.subrange(j, j + 6) == define_word()
}

/// Whether `s` holds a preprocessor-define pattern anywhere.
pub open spec fn has_macro_define(s: Seq<char>) -> bool {
    exists|i: int, j: int| #[trigger] macro_define_at(s, i, j)
}

/// Classify a record's trailing context: the null kind for a preprocessor
/// define, the function kind otherwise.
pub fn check_symbol_kind(context: &str) -> (k: SymbolKind)
    ensures
        k == (if has_macro_define(context@) {
            SymbolKind::Null
        } else {
            SymbolKind::Function
        }),
{
    let n = context.unicode_len();
    let mut i: usize = 0;
    while i < n
        invariant
            i <= n,
            n == context@.len(),
            forall|i2: int, j2: int| 0 <= i2 < i ==> !(#[trigger] macro_define_at(context@, i2, j2)),
        decreases n - i,
    {
        if context.get_char(i) == '#' {
            let mut j: usize = i + 1;
            while j < n && ws_char(context.get_char(j))
                invariant
                    i < j <= n,
                    n == context@.len(),
                    forall|k: int| i < k < j ==> is_ws_char(#[trigger] context@[k]),
                decreases n - j,
            {
                j = j + 1;
            }
            if n >= 6 && j <= n - 6 && context.get_char(j) == 'd' && context.get_char(j + 1) == 'e'
                && context.get_char(j + 2) == 'f' && context.get_char(j + 3) == 'i'
                && context.get_char(j + 4) == 'n' && context.get_char(j + 5) == 'e' {
                proof {
                    assert(context@.subrange(j as int, j as int + 6) =~= define_word());
                    assert(macro_define_at(context@, i as int, j as int));
                }
                return SymbolKind::Null;
            }
            proof {
                assert forall|j2: int| !macro_define_at(context@, i as int, j2) by {
                    if macro_define_at(context@, i as int, j2) {
                        if j2 < j {
                            assert(context@.subrange(j2, j2 + 6)[0] == 'd');
                            if j2 == i {
                                assert(context@[j2] == '#');
                            } else {
                                assert(is_ws_char(context@[j2]));
                            }
                        } else if j2 == j {
                            assert(context@.subrange(j2, j2 + 6)[0] == 'd');
                            assert(context@.subrange(j2, j2 + 6)[1] == 'e');
                            assert(context@.subrange(j2, j2 + 6)[2] == 'f');
                            assert(context@.subrange(j2, j2 + 6)[3] == 'i');
                            assert(context@.subrange(j2, j2 + 6)[4] == 'n');
                            assert(context@.subrange(j2, j2 + 6)[5] == 'e');
                        } else {
                            assert(j < n && !is_ws_char(context@[j as int]));
                            assert(is_ws_char(context@[j as int]));
                        }
                    }
                }
            }
        } else {
            proof {
                assert forall|j2: int| !macro_define_at(context@, i as int, j2) by {}
            }
        }
        i = i + 1;
    }
    proof {
        assert forall|i2: int, j2: int| !(#[trigger] macro_define_at(context@, i2, j2)) by {
            if macro_define_at(context@, i2, j2) {
                assert(i2 + 6 <= n);
            }
        }
    }
    SymbolKind::Function
}

/// One entry of a symbol-query answer.
#[derive(Clone, Debug, PartialEq, Eq)]
pub struct SymbolInformation {
    /// The symbol's name.
    pub name: String,
    /// Heuristic kind of the symbol.
    pub kind: SymbolKind,
    /// Where the symbol was resolved.
    pub location: Location,
}

impl SymbolInformation {
    /// A copy equal to `self`.
    pub fn duplicate(&self) -> (r: SymbolInformation)
        ensures
            r == *self,
    {
        SymbolInformation {
            name: self.name.clone(),
            kind: self.kind,
            location: self.location.duplicate(),
        }
    }
}

/// Assemble the symbol information for one resolved record.
pub fn create_symbol_information(symbol_name: String, loc: Location, rest_string: &str) -> (info:
    SymbolInformation)
    ensures
        info.name == symbol_name,
        info.location == loc,
        info.kind == (if has_macro_define(rest_string@) {
            SymbolKind::Null
        } else {
            SymbolKind::Function
        }),
{
    let kind = check_symbol_kind(rest_string);
    SymbolInformation { name: symbol_name, kind, location: loc }
}

} // verus!
