//! Symbol token extraction.
//!
//! A symbol token is a maximal run of identifier-class characters
//! (`[A-Za-z0-9_]+`).  A cursor resolves to the run it sits in, and a cursor
//! exactly at a run's start or end boundary still resolves to that run, so a
//! cursor placed directly after a token keeps working.

use vstd::prelude::*;

use crate::error::QueryError;
use crate::text::split_lines_spec;
use crate::text::split_string_by_lines;

verus! {

/// The identifier character class `[A-Za-z0-9_]`.
pub open spec fn is_word_char(c: char) -> bool {
    ('a' <= c && c <= 'z') || ('A' <= c && c <= 'Z') || ('0' <= c && c <= '9') || c == '_'
}

/// Executable twin of [`is_word_char`].
pub fn word_char(c: char) -> (b: bool)
    ensures
        b == is_word_char(c),
{
    ('a' <= c && c <= 'z') || ('A' <= c && c <= 'Z') || ('0' <= c && c <= '9') || c == '_'
}

/// `[start, end)` is a maximal identifier run of `line`.
pub open spec fn word_run(line: Seq<char>, start: int, end: int) -> bool {
    &&& 0 <= start < end <= line.len()
    &&& (forall|k: int| start <= k < end ==> is_word_char(line[k]))
    &&& (start == 0 || !is_word_char(line[start - 1]))
    &&& (end == line.len() || !is_word_char(line[end]))
}

/// At most one maximal identifier run touches a given column (boundaries
/// included): the token at a cursor position is unambiguous.
pub proof fn lemma_touching_run_unique(
    line: Seq<char>,
    s1: int,
    e1: int,
    s2: int,
    e2: int,
    col: int,
)
    requires
        word_run(line, s1, e1),
        word_run(line, s2, e2),
        s1 <= col <= e1,
        s2 <= col <= e2,
    ensures
        s1 == s2,
        e1 == e2,
{
    if s1 < s2 {
        assert(is_word_char(line[s2 - 1]));
    }
    if s2 < s1 {
        assert(is_word_char(line[s1 - 1]));
    }
    if e1 < e2 {
        assert(is_word_char(line[e1]));
    }
    if e2 < e1 {
        assert(is_word_char(line[e2]));
    }
}

/// The maximal identifier run of `line` touching column `col`, boundaries
/// included, or `None` when no run touches it.
pub fn find_word_run(line: &str, col: usize) -> (r: Option<(usize, usize)>)
    ensures
        match r {
            Some(p) => word_run(line@, p.0 as int, p.1 as int) && p.0 <= col <= p.1,
            None => forall|s: int, e: int|
                word_run(line@, s, e) ==> !(s <= col && col <= e),
        },
{
    let n = line.unicode_len();
    let in_word = col < n && word_char(line.get_char(col));
    let after_word = col > 0 && col <= n && word_char(line.get_char(col - 1));
    if !in_word && !after_word {
        proof {
            assert forall|s: int, e: int|
                word_run(line@, s, e) implies !(s <= col && col <= e) by {
                if s <= col && col <= e {
                    if s == col {
                        assert(is_word_char(line@[col as int]));
                    } else {
                        if col - 1 < e {
                            assert(is_word_char(line@[col as int - 1]));
                        }
                    }
                }
            }
        }
        return None;
    }
    let mut start: usize = if in_word { col } else { col - 1 };
    while start > 0 && word_char(line.get_char(start - 1))
        invariant
            start <= col <= n,
            n == line@.len(),
            start < n,
            forall|k: int| start <= k <= (if in_word { col as int } else { col as int - 1 })
                ==> is_word_char(line@[k]),
        decreases start,
    {
        start = start - 1;
    }
    let mut end: usize = if in_word { col + 1 } else { col };
    while end < n && word_char(line.get_char(end))
        invariant
            start < end <= n,
            n == line@.len(),
            col <= end,
            forall|k: int| start <= k < end ==> is_word_char(line@[k]),
        decreases n - end,
    {
        end = end + 1;
    }
    Some((start, end))
}

/// The symbol token of `line` touching column `col`, copied out.
pub fn symbol_in_line_at(line: &str, col: usize) -> (r: Option<String>)
    ensures
        match r {
            Some(sym) => exists|s: int, e: int|
                word_run(line@, s, e) && s <= col <= e && sym@ == line@.subrange(s, e),
            None => forall|s: int, e: int|
                word_run(line@, s, e) ==> !(s <= col && col <= e),
        },
{
    match find_word_run(line, col) {
        Some((s, e)) => {
            let sym = line.substring_char(s, e).to_owned();
            proof {
                assert(word_run(line@, s as int, e as int) && s <= col <= e && sym@
                    == line@.subrange(s as int, e as int));
            }
            Some(sym)
        },
        None => None,
    }
}

/// The symbol token at a cursor position of a whole document.
///
/// The document is split into lines; the token is the maximal identifier run
/// touching the cursor column on the cursor line.  Fails with
/// [`QueryError::NoSymbolAtPosition`] when the line index is out of bounds or
/// no run touches the column.
pub fn get_symbol_by_pos_from_dat(data: &str, line: u32, character: u32) -> (r: Result<
    String,
    QueryError,
>)
    ensures
        match r {
            Ok(sym) => {
                &&& (line as int) < split_lines_spec(data@).len()
                &&& exists|s: int, e: int|
                    #[trigger] word_run(split_lines_spec(data@)[line as int], s, e) && s
                        <= character <= e && sym@ == split_lines_spec(data@)[line as int].subrange(
                        s,
                        e,
                    )
            },
            Err(e) => {
                &&& e is NoSymbolAtPosition
                &&& ((line as int) >= split_lines_spec(data@).len() || (forall|s: int, e: int|
                    word_run(split_lines_spec(data@)[line as int], s, e) ==> !(s <= character
                        && character <= e)))
            },
        },
{
    let lines = split_string_by_lines(data);
    let ln = line as usize;
    if ln >= lines.len() {
        return Err(QueryError::NoSymbolAtPosition);
    }
    let text = &lines[ln];
    proof {
        assert(text@ == split_lines_spec(data@)[line as int]);
    }
    match symbol_in_line_at(text.as_str(), character as usize) {
        Some(sym) => Ok(sym),
        None => Err(QueryError::NoSymbolAtPosition),
    }
}

} // verus!
