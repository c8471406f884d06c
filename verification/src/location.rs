//! Source positions and location re-resolution.
//!
//! A cross-reference record names a file and a 1-based line; the re-resolver
//! turns that into an exact 0-based text range by re-scanning the line for
//! the symbol, or — in low-precision mode — into a zero-width range at the
//! line start without touching any file content.

use vstd::prelude::*;

use crate::error::QueryError;
use crate::text::split_lines_spec;
use crate::text::split_string_by_lines;

verus! {

/// A 0-based position in a document, in the editor protocol's coordinate
/// space.
#[derive(Clone, Copy, Debug, PartialEq, Eq, Structural)]
pub struct Position {
    /// 0-based line index.
    pub line: u32,
    /// 0-based character column.
    pub character: u32,
}

/// A half-open text range between two positions.
#[derive(Clone, Copy, Debug, PartialEq, Eq, Structural)]
pub struct Range {
    pub start: Position,
    pub end: Position,
}

/// An absolute file path together with a range inside that file.
#[derive(Clone, Debug, PartialEq, Eq)]
pub struct Location {
    /// Decoded absolute path of the file.
    pub path: String,
    /// The resolved range.
    pub range: Range,
}

impl Location {
    /// A copy equal to `self`.
    pub fn duplicate(&self) -> (r: Location)
        ensures
            r == *self,
    {
        Location { path: self.path.clone(), range: self.range }
    }
}

/// `needle` occurs in `hay` starting at index `i`.
pub open spec fn occurs_at(hay: Seq<char>, needle: Seq<char>, i: int) -> bool {
    &&& 0 <= i
    &&& i + needle.len() <= hay.len()
    &&& hay.subrange(i, i + needle.len()) == needle
}

/// Index of the first occurrence of `needle` in `hay`, or `None` when there
/// is none.  An empty needle occurs at index 0.
pub fn find_substring(hay: &str, needle: &str) -> (r: Option<usize>)
    ensures
        match r {
            Some(i) => occurs_at(hay@, needle@, i as int) && (forall|j: int|
                0 <= j < i ==> !occurs_at(hay@, needle@, j)),
            None => forall|j: int| !occurs_at(hay@, needle@, j),
        },
{
    let n = hay.unicode_len();
    let m = needle.unicode_len();
    if m > n {
        return None;
    }
    if m == 0 {
        proof {
            assert(hay@.subrange(0, 0) =~= needle@);
        }
        return Some(0);
    }
    let mut i: usize = 0;
    while i <= n - m
        invariant
            0 < m <= n,
            n == hay@.len(),
            m == needle@.len(),
            i <= n,
            forall|j: int| 0 <= j < i ==> !occurs_at(hay@, needle@, j),
        decreases n - i,
    {
        let mut k: usize = 0;
        let mut hit = true;
        while k < m && hit
            invariant
                k <= m,
                i + m <= n,
                n == hay@.len(),
                m == needle@.len(),
                hit ==> forall|t: int| 0 <= t < k ==> hay@[i + t] == needle@[t],
                !hit ==> !occurs_at(hay@, needle@, i as int),
            decreases m - k + (if hit {
                1int
            } else {
                0int
            }),
        {
            if hay.get_char(i + k) != needle.get_char(k) {
                proof {
                    assert(hay@.subrange(i as int, i + m as int)[k as int] != needle@[k as int]);
                }
                hit = false;
            } else {
                k = k + 1;
            }
        }
        if hit {
            proof {
                assert(hay@.subrange(i as int, i + m as int) =~= needle@);
            }
            return Some(i);
        }
        i = i + 1;
    }
    proof {
        assert forall|j: int| !occurs_at(hay@, needle@, j) by {
            if occurs_at(hay@, needle@, j) {
                assert(0 <= j && j + m <= n);
            }
        }
    }
    None
}

/// Low-precision resolution: a zero-width range at the start of the given
/// line.  A pure function of its arguments — no file content is consulted,
/// so resolving the same input any number of times yields the same range.
pub fn resolve_low_precision(path: &str, line_index: u32) -> (loc: Location)
    ensures
        loc.path@ == path@,
        loc.range == (Range {
            start: Position { line: line_index, character: 0 },
            end: Position { line: line_index, character: 0 },
        }),
{
    let p = Position { line: line_index, character: 0 };
    Location { path: path.to_owned(), range: Range { start: p, end: p } }
}

/// Low-precision resolution is deterministic: any two results for the same
/// input agree, so calling it twice changes nothing.
pub proof fn lemma_low_precision_idempotent(a: Location, b: Location, path: Seq<char>, line_index: u32)
    requires
        a.path@ == path && a.range == (Range {
            start: Position { line: line_index, character: 0 },
            end: Position { line: line_index, character: 0 },
        }),
        b.path@ == path && b.range == (Range {
            start: Position { line: line_index, character: 0 },
            end: Position { line: line_index, character: 0 },
        }),
    ensures
        a.path@ == b.path@,
        a.range == b.range,
{
}

/// Every line produced by splitting is no longer than the whole text.
pub proof fn lemma_line_len_le(s: Seq<char>, i: int)
    requires
        0 <= i < split_lines_spec(s).len(),
    ensures
        split_lines_spec(s)[i].len() <= s.len(),
    decreases s.len(),
{
    crate::text::lemma_first_nl(s);
    if s.len() != 0 {
        let f = crate::text::first_nl(s);
        if f < s.len() {
            if i == 0 {
            } else {
                lemma_line_len_le(s.skip(f + 1), i - 1);
            }
        }
    }
}

/// Full-precision resolution against the file content at call time: a pure
/// function of the content, the line index, and the symbol.
///
/// The requested line is re-read from `content` and the range spans exactly
/// the symbol's first occurrence on that line; later occurrences on the same
/// line are deliberately ignored.  Fails with
/// [`QueryError::LineIndexOutOfRange`] when the file has fewer lines than the
/// record claims, and with [`QueryError::SymbolNotFoundInLine`] when the
/// symbol no longer occurs on that line — both signs of a stale index.
pub fn resolve_full_precision(path: &str, content: &str, line_index: u32, symbol: &str) -> (r:
    Result<Location, QueryError>)
    requires
        content@.len() <= u32::MAX,
    ensures
        match r {
            Ok(loc) => {
                &&& (line_index as int) < split_lines_spec(content@).len()
                &&& exists|c: int|
                    {
                        &&& #[trigger] occurs_at(
                            split_lines_spec(content@)[line_index as int],
                            symbol@,
                            c,
                        )
                        &&& (forall|j: int|
                            0 <= j < c ==> !occurs_at(
                                split_lines_spec(content@)[line_index as int],
                                symbol@,
                                j,
                            ))
                        &&& loc.range == (Range {
                            start: Position { line: line_index, character: c as u32 },
                            end: Position {
                                line: line_index,
                                character: (c + symbol@.len()) as u32,
                            },
                        })
                    }
                &&& loc.path@ == path@
            },
            Err(e) => {
                &&& (if (line_index as int) >= split_lines_spec(content@).len() {
                    e is LineIndexOutOfRange
                } else {
                    e is SymbolNotFoundInLine && (forall|j: int|
                        !occurs_at(split_lines_spec(content@)[line_index as int], symbol@, j))
                })
            },
        },
{
    let lines = split_string_by_lines(content);
    let ln = line_index as usize;
    if ln >= lines.len() {
        return Err(QueryError::LineIndexOutOfRange);
    }
    let line = &lines[ln];
    proof {
        assert(line@ == split_lines_spec(content@)[line_index as int]);
        lemma_line_len_le(content@, line_index as int);
    }
    match find_substring(line.as_str(), symbol) {
        Some(idx) => {
            proof {
                assert(occurs_at(line@, symbol@, idx as int));
            }
            let start = Position { line: line_index, character: idx as u32 };
            let end_col: usize = idx + symbol.unicode_len();
            let end = Position { line: line_index, character: end_col as u32 };
            Ok(Location { path: path.to_owned(), range: Range { start, end } })
        },
        None => Err(QueryError::SymbolNotFoundInLine),
    }
}

} // verus!
