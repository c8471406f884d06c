//! Cross-reference record parsing.
//!
//! One output line of the index tool in cross-reference mode reads
//! `SYMBOL LINE PATH REST`: a non-whitespace symbol, a run of digits giving a
//! 1-based line number, a non-whitespace relative path, and trailing source
//! context starting with a non-whitespace character, the four separated by
//! whitespace runs.  The parser is anchored at the start of the line and does
//! no semantic validation of the path or the context.

use vstd::prelude::*;

use crate::error::QueryError;
use crate::text::is_ws_char;
use crate::text::ws_char;

verus! {

/// The decimal digit character class.
pub open spec fn is_digit(c: char) -> bool {
    '0' <= c && c <= '9'
}

/// Executable twin of [`is_digit`].
pub fn digit_char(c: char) -> (b: bool)
    ensures
        b == is_digit(c),
{
    '0' <= c && c <= '9'
}

/// Numeric value of a digit character.
pub open spec fn digit_val(c: char) -> int {
    c as int - '0' as int
}

/// Value of a digit run read most-significant first.
pub open spec fn digits_val(s: Seq<char>) -> int
    decreases s.len(),
{
    if s.len() == 0 {
        0
    } else {
        digits_val(s.drop_last()) * 10 + digit_val(s.last())
    }
}

/// First index at or after `from` holding a whitespace character, or `s.len()`.
pub open spec fn nonws_end(s: Seq<char>, from: int) -> int
    decreases s.len() - from,
{
    if from < 0 || from >= s.len() {
        s.len() as int
    } else if is_ws_char(s[from]) {
        from
    } else {
        nonws_end(s, from + 1)
    }
}

/// First index at or after `from` holding a non-whitespace character, or `s.len()`.
pub open spec fn ws_end(s: Seq<char>, from: int) -> int
    decreases s.len() - from,
{
    if from < 0 || from >= s.len() {
        s.len() as int
    } else if !is_ws_char(s[from]) {
        from
    } else {
        ws_end(s, from + 1)
    }
}

/// First index at or after `from` holding a non-digit character, or `s.len()`.
pub open spec fn digits_end(s: Seq<char>, from: int) -> int
    decreases s.len() - from,
{
    if from < 0 || from >= s.len() {
        s.len() as int
    } else if !is_digit(s[from]) {
        from
    } else {
        digits_end(s, from + 1)
    }
}

/// `nonws_end` is pinned down by its defining properties.
pub proof fn lemma_nonws_end_is(s: Seq<char>, from: int, m: int)
    requires
        0 <= from <= m <= s.len(),
        forall|k: int| from <= k < m ==> !is_ws_char(#[trigger] s[k]),
        m < s.len() ==> is_ws_char(s[m]),
    ensures
        nonws_end(s, from) == m,
    decreases m - from,
{
    if from < m {
        lemma_nonws_end_is(s, from + 1, m);
    }
}

/// `ws_end` is pinned down by its defining properties.
pub proof fn lemma_ws_end_is(s: Seq<char>, from: int, m: int)
    requires
        0 <= from <= m <= s.len(),
        forall|k: int| from <= k < m ==> is_ws_char(#[trigger] s[k]),
        m < s.len() ==> !is_ws_char(s[m]),
    ensures
        ws_end(s, from) == m,
    decreases m - from,
{
    if from < m {
        lemma_ws_end_is(s, from + 1, m);
    }
}

/// `digits_end` is pinned down by its defining properties.
pub proof fn lemma_digits_end_is(s: Seq<char>, from: int, m: int)
    requires
        0 <= from <= m <= s.len(),
        forall|k: int| from <= k < m ==> is_digit(#[trigger] s[k]),
        m < s.len() ==> !is_digit(s[m]),
    ensures
        digits_end(s, from) == m,
    decreases m - from,
{
    if from < m {
        lemma_digits_end_is(s, from + 1, m);
    }
}

/// End of the symbol field: the first maximal non-whitespace run of the line.
pub open spec fn sym_end(s: Seq<char>) -> int {
    nonws_end(s, 0)
}

/// Start of the digit field.
pub open spec fn dig_start(s: Seq<char>) -> int {
    ws_end(s, sym_end(s))
}

/// End of the digit field.
pub open spec fn dig_end(s: Seq<char>) -> int {
    digits_end(s, dig_start(s))
}

/// Start of the path field.
pub open spec fn path_start(s: Seq<char>) -> int {
    ws_end(s, dig_end(s))
}

/// End of the path field.
pub open spec fn path_end(s: Seq<char>) -> int {
    nonws_end(s, path_start(s))
}

/// Start of the trailing-context field.
pub open spec fn rest_start(s: Seq<char>) -> int {
    ws_end(s, path_end(s))
}

/// Whether `s` matches the anchored cross-reference grammar: symbol,
/// whitespace, digits, whitespace, path, whitespace, non-empty rest, with
/// every field non-empty and the digit run ending at whitespace.
pub open spec fn cxref_grammar_ok(s: Seq<char>) -> bool {
    &&& 0 < sym_end(s)
    &&& dig_start(s) < dig_end(s)
    &&& dig_end(s) < s.len() && is_ws_char(s[dig_end(s)])
    &&& path_start(s) < path_end(s)
    &&& path_end(s) < rest_start(s)
    &&& rest_start(s) < s.len()
}

/// The symbol field of a line matching the grammar.
pub open spec fn cxref_symbol(s: Seq<char>) -> Seq<char> {
    s.take(sym_end(s))
}

/// The digit field of a line matching the grammar.
pub open spec fn cxref_digits(s: Seq<char>) -> Seq<char> {
    s.subrange(dig_start(s), dig_end(s))
}

/// The path field of a line matching the grammar.
pub open spec fn cxref_path(s: Seq<char>) -> Seq<char> {
    s.subrange(path_start(s), path_end(s))
}

/// The trailing-context field of a line matching the grammar.
pub open spec fn cxref_rest(s: Seq<char>) -> Seq<char> {
    s.skip(rest_start(s))
}

/// Whether the digit field carries a usable 1-based line number.
pub open spec fn cxref_line_ok(s: Seq<char>) -> bool {
    1 <= digits_val(cxref_digits(s)) <= u32::MAX
}

/// The character of one decimal digit value.
pub open spec fn dec_digit_char(d: int) -> char {
    if d == 0 {
        '0'
    } else if d == 1 {
        '1'
    } else if d == 2 {
        '2'
    } else if d == 3 {
        '3'
    } else if d == 4 {
        '4'
    } else if d == 5 {
        '5'
    } else if d == 6 {
        '6'
    } else if d == 7 {
        '7'
    } else if d == 8 {
        '8'
    } else {
        '9'
    }
}

/// Decimal digit string of a non-negative number, most significant first.
pub open spec fn dec_seq(n: int) -> Seq<char>
    decreases n,
{
    if n < 10 {
        seq![dec_digit_char(n)]
    } else {
        dec_seq(n / 10) + seq![dec_digit_char(n % 10)]
    }
}

/// `dec_seq` writes digits only, and [`digits_val`] reads the number back.
pub proof fn lemma_dec_seq_digits(n: int)
    requires
        n >= 0,
    ensures
        dec_seq(n).len() >= 1,
        forall|i: int| 0 <= i < dec_seq(n).len() ==> is_digit(#[trigger] dec_seq(n)[i]),
        digits_val(dec_seq(n)) == n,
    decreases n,
{
    if n < 10 {
        assert(dec_seq(n).drop_last() =~= Seq::<char>::empty());
        assert(digits_val(Seq::<char>::empty()) == 0);
        assert(digits_val(dec_seq(n)) == digit_val(dec_digit_char(n)));
    } else {
        lemma_dec_seq_digits(n / 10);
        let s = dec_seq(n);
        assert(s.drop_last() =~= dec_seq(n / 10));
        assert(s.last() == dec_digit_char(n % 10));
        assert(digits_val(s) == (n / 10) * 10 + n % 10);
        assert(10 * (n / 10) + n % 10 == n) by {
            vstd::arithmetic::div_mod::lemma_fundamental_div_mod(n, 10);
        }
    }
}

/// Two-space separator used when a record is laid out as text.
pub open spec fn two_spaces() -> Seq<char> {
    seq![' ', ' ']
}

/// A record laid out as one cross-reference line with two-space separators.
pub open spec fn format_cxref_spec(
    sym: Seq<char>,
    line: int,
    path: Seq<char>,
    rest: Seq<char>,
) -> Seq<char> {
    sym + two_spaces() + dec_seq(line) + two_spaces() + path + two_spaces() + rest
}

/// The cross-reference grammar round-trips: laying out any record whose
/// symbol and path hold no whitespace, whose context starts with a
/// non-whitespace character, and whose line number is positive and fits the
/// protocol's line type, then parsing the line back, yields exactly the
/// original four fields.
pub proof fn lemma_cxref_round_trip(sym: Seq<char>, line: int, path: Seq<char>, rest: Seq<char>)
    requires
        sym.len() > 0,
        forall|i: int| 0 <= i < sym.len() ==> !is_ws_char(#[trigger] sym[i]),
        path.len() > 0,
        forall|i: int| 0 <= i < path.len() ==> !is_ws_char(#[trigger] path[i]),
        rest.len() > 0,
        !is_ws_char(rest[0]),
        1 <= line <= u32::MAX,
    ensures
        cxref_grammar_ok(format_cxref_spec(sym, line, path, rest)),
        cxref_line_ok(format_cxref_spec(sym, line, path, rest)),
        cxref_symbol(format_cxref_spec(sym, line, path, rest)) == sym,
        digits_val(cxref_digits(format_cxref_spec(sym, line, path, rest))) == line,
        cxref_path(format_cxref_spec(sym, line, path, rest)) == path,
        cxref_rest(format_cxref_spec(sym, line, path, rest)) == rest,
{
    lemma_dec_seq_digits(line);
    let d = dec_seq(line);
    let f = format_cxref_spec(sym, line, path, rest);
    let l1 = sym.len() as int;
    let dl = d.len() as int;
    let l2 = l1 + 2 + dl;
    let pl = path.len() as int;
    let l3 = l2 + 2 + pl;
    assert(f.len() == l3 + 2 + rest.len());
    assert forall|k: int| 0 <= k < l1 implies f[k] == sym[k] by {}
    assert(f[l1] == ' ');
    assert(f[l1 + 1] == ' ');
    assert forall|k: int| l1 + 2 <= k < l2 implies f[k] == d[k - l1 - 2] by {}
    assert(f[l2] == ' ');
    assert(f[l2 + 1] == ' ');
    assert forall|k: int| l2 + 2 <= k < l3 implies f[k] == path[k - l2 - 2] by {}
    assert(f[l3] == ' ');
    assert(f[l3 + 1] == ' ');
    assert forall|k: int| l3 + 2 <= k < f.len() implies f[k] == rest[k - l3 - 2] by {}
    assert forall|k: int| 0 <= k < l1 implies !is_ws_char(#[trigger] f[k]) by {
        assert(f[k] == sym[k]);
    }
    lemma_nonws_end_is(f, 0, l1);
    lemma_ws_end_is(f, l1, l1 + 2);
    assert forall|k: int| l1 + 2 <= k < l2 implies is_digit(#[trigger] f[k]) by {
        assert(f[k] == d[k - l1 - 2]);
    }
    lemma_digits_end_is(f, l1 + 2, l2);
    lemma_ws_end_is(f, l2, l2 + 2);
    assert forall|k: int| l2 + 2 <= k < l3 implies !is_ws_char(#[trigger] f[k]) by {
        assert(f[k] == path[k - l2 - 2]);
    }
    lemma_nonws_end_is(f, l2 + 2, l3);
    lemma_ws_end_is(f, l3, l3 + 2);
    assert(cxref_symbol(f) =~= sym);
    assert(cxref_digits(f) =~= d);
    assert(cxref_path(f) =~= path);
    assert(cxref_rest(f) =~= rest);
}

/// One parsed cross-reference record.  Ephemeral: built per output line,
/// never persisted.
#[derive(Clone, Debug, PartialEq, Eq)]
pub struct CxrefRecord {
    /// The symbol the record is about.
    pub symbol: String,
    /// 1-based line number, as emitted by the tool.
    pub line: u32,
    /// Path of the file holding the symbol, relative to the workspace root.
    pub path: String,
    /// Trailing source context of the record.
    pub context: String,
}

/// Parse one cross-reference output line.
///
/// Fails with [`QueryError::MalformedIndexRecord`] when the line does not
/// match the grammar, and with [`QueryError::InvalidLineNumber`] when it does
/// but the digit field is zero or too large for the protocol's line type.
pub fn parse_cxref(data: &str) -> (r: Result<CxrefRecord, QueryError>)
    ensures
        match r {
            Ok(rec) => {
                &&& cxref_grammar_ok(data@)
                &&& cxref_line_ok(data@)
                &&& rec.symbol@ == cxref_symbol(data@)
                &&& rec.line as int == digits_val(cxref_digits(data@))
                &&& rec.path@ == cxref_path(data@)
                &&& rec.context@ == cxref_rest(data@)
            },
            Err(e) => {
                &&& !(cxref_grammar_ok(data@) && cxref_line_ok(data@))
                &&& (if cxref_grammar_ok(data@) {
                    e is InvalidLineNumber
                } else {
                    e is MalformedIndexRecord
                })
            },
        },
{
    let n = data.unicode_len();
    // Symbol: maximal non-whitespace run anchored at the line start.
    let mut i: usize = 0;
    while i < n && !ws_char(data.get_char(i))
        invariant
            i <= n,
            n == data@.len(),
            forall|k: int| 0 <= k < i ==> !is_ws_char(#[trigger] data@[k]),
        decreases n - i,
    {
        i = i + 1;
    }
    let se = i;
    proof {
        lemma_nonws_end_is(data@, 0, se as int);
    }
    if se == 0 {
        return Err(QueryError::MalformedIndexRecord);
    }
    // Separator before the digit field.
    while i < n && ws_char(data.get_char(i))
        invariant
            se <= i <= n,
            n == data@.len(),
            forall|k: int| se <= k < i ==> is_ws_char(#[trigger] data@[k]),
        decreases n - i,
    {
        i = i + 1;
    }
    let ds = i;
    proof {
        lemma_ws_end_is(data@, se as int, ds as int);
    }
    // Digit field, accumulated with an overflow flag.
    let mut val: u64 = 0;
    let mut over: bool = false;
    while i < n && digit_char(data.get_char(i))
        invariant
            ds <= i <= n,
            n == data@.len(),
            forall|k: int| ds <= k < i ==> is_digit(#[trigger] data@[k]),
            !over ==> val <= u32::MAX && val as int == digits_val(
                data@.subrange(ds as int, i as int),
            ),
            over ==> digits_val(data@.subrange(ds as int, i as int)) > u32::MAX,
        decreases n - i,
    {
        let c = data.get_char(i);
        proof {
            assert(data@.subrange(ds as int, i as int + 1).drop_last() =~= data@.subrange(
                ds as int,
                i as int,
            ));
            assert(data@.subrange(ds as int, i as int + 1).last() == c);
        }
        if !over {
            let d: u64 = (c as u32 as u64) - 48;
            let nv: u64 = val * 10 + d;
            if nv > 0xffff_ffff {
                over = true;
            } else {
                val = nv;
            }
            proof {
                let p = data@.subrange(ds as int, i as int + 1);
                assert(digits_val(p) == digits_val(p.drop_last()) * 10 + digit_val(c));
            }
        } else {
            proof {
                let p = data@.subrange(ds as int, i as int + 1);
                assert(digits_val(p) == digits_val(p.drop_last()) * 10 + digit_val(c));
            }
        }
        i = i + 1;
    }
    let de = i;
    proof {
        lemma_digits_end_is(data@, ds as int, de as int);
    }
    if ds == de {
        return Err(QueryError::MalformedIndexRecord);
    }
    if i == n || !ws_char(data.get_char(i)) {
        return Err(QueryError::MalformedIndexRecord);
    }
    // Separator before the path field.
    while i < n && ws_char(data.get_char(i))
        invariant
            de <= i <= n,
            n == data@.len(),
            forall|k: int| de <= k < i ==> is_ws_char(#[trigger] data@[k]),
        decreases n - i,
    {
        i = i + 1;
    }
    let ps = i;
    proof {
        lemma_ws_end_is(data@, de as int, ps as int);
    }
    // Path: maximal non-whitespace run.
    while i < n && !ws_char(data.get_char(i))
        invariant
            ps <= i <= n,
            n == data@.len(),
            forall|k: int| ps <= k < i ==> !is_ws_char(#[trigger] data@[k]),
        decreases n - i,
    {
        i = i + 1;
    }
    let pe = i;
    proof {
        lemma_nonws_end_is(data@, ps as int, pe as int);
    }
    if ps == pe {
        return Err(QueryError::MalformedIndexRecord);
    }
    // Separator before the trailing context.
    while i < n && ws_char(data.get_char(i))
        invariant
            pe <= i <= n,
            n == data@.len(),
            forall|k: int| pe <= k < i ==> is_ws_char(#[trigger] data@[k]),
        decreases n - i,
    {
        i = i + 1;
    }
    let rs = i;
    proof {
        lemma_ws_end_is(data@, pe as int, rs as int);
    }
    if rs == pe {
        return Err(QueryError::MalformedIndexRecord);
    }
    if rs == n {
        return Err(QueryError::MalformedIndexRecord);
    }
    // The line is well-formed; check the line number.
    if over || val == 0 {
        return Err(QueryError::InvalidLineNumber);
    }
    let symbol = data.substring_char(0, se).to_owned();
    let path = data.substring_char(ps, pe).to_owned();
    let context = data.substring_char(rs, n).to_owned();
    proof {
        assert(data@.subrange(rs as int, n as int) =~= data@.skip(rs as int));
    }
    Ok(CxrefRecord { symbol, line: val as u32, path, context })
}

} // verus!
