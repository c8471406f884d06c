//! Line-oriented text access.
//!
//! A file (or the index tool's captured output) is one string; all position
//! math works on its sequence of lines.  Lines are split at `'\n'`, a carriage
//! return directly before the line feed is dropped, and a trailing line break
//! produces no empty final line.

use vstd::prelude::*;

verus! {

/// ASCII whitespace, the separator class of the index tool's output.
pub open spec fn is_ws_char(c: char) -> bool {
    c == ' ' || c == '\t' || c == '\r' || c == '\n' || c == '\x0b' || c == '\x0c'
}

/// Executable twin of [`is_ws_char`].
pub fn ws_char(c: char) -> (b: bool)
    ensures
        b == is_ws_char(c),
{
    c == ' ' || c == '\t' || c == '\r' || c == '\n' || c == '\x0b' || c == '\x0c'
}

/// Whether two strings hold the same characters.
pub fn str_eq(a: &str, b: &str) -> (r: bool)
    ensures
        r == (a@ == b@),
{
    let n = a.unicode_len();
    let m = b.unicode_len();
    if n != m {
        return false;
    }
    let mut k: usize = 0;
    while k < n
        invariant
            k <= n,
            n == a@.len() == b@.len(),
            forall|t: int| 0 <= t < k ==> a@[t] == b@[t],
        decreases n - k,
    {
        if a.get_char(k) != b.get_char(k) {
            return false;
        }
        k = k + 1;
    }
    proof {
        assert(a@ =~= b@);
    }
    true
}

/// Index of the first line feed in `s`, or `s.len()` when there is none.
pub open spec fn first_nl(s: Seq<char>) -> int
    decreases s.len(),
{
    if s.len() == 0 {
        0
    } else if s[0] == '\n' {
        0
    } else {
        1 + first_nl(s.drop_first())
    }
}

pub proof fn lemma_first_nl(s: Seq<char>)
    ensures
        0 <= first_nl(s) <= s.len(),
        forall|i: int| 0 <= i < first_nl(s) ==> s[i] != '\n',
        first_nl(s) < s.len() ==> s[first_nl(s)] == '\n',
    decreases s.len(),
{
    if s.len() == 0 {
    } else if s[0] == '\n' {
    } else {
        lemma_first_nl(s.drop_first());
        assert forall|i: int| 0 <= i < first_nl(s) implies s[i] != '\n' by {
            if i >= 1 {
                assert(s.drop_first()[i - 1] == s[i]);
            }
        }
    }
}

/// `first_nl` is pinned down by its two defining properties.
pub proof fn lemma_first_nl_is(s: Seq<char>, m: int)
    requires
        0 <= m <= s.len(),
        forall|i: int| 0 <= i < m ==> s[i] != '\n',
        m < s.len() ==> s[m] == '\n',
    ensures
        first_nl(s) == m,
{
    lemma_first_nl(s);
    if first_nl(s) < m {
        assert(s[first_nl(s)] == '\n');
    } else if first_nl(s) > m {
        assert(s[m] != '\n');
    }
}

/// Drop one carriage return from the end of a line, if there is one.
pub open spec fn strip_cr(s: Seq<char>) -> Seq<char> {
    if s.len() > 0 && s.last() == '\r' {
        s.drop_last()
    } else {
        s
    }
}

/// The lines of `s`: split at `'\n'`, a `'\r'` directly before the split is
/// dropped, and a trailing line break yields no empty final line.
pub open spec fn split_lines_spec(s: Seq<char>) -> Seq<Seq<char>>
    decreases s.len(),
    via split_lines_spec_dec
{
    if s.len() == 0 {
        Seq::empty()
    } else {
        let i = first_nl(s);
        if i == s.len() {
            seq![s]
        } else {
            seq![strip_cr(s.take(i))] + split_lines_spec(s.skip(i + 1))
        }
    }
}

#[via_fn]
proof fn split_lines_spec_dec(s: Seq<char>) {
    lemma_first_nl(s);
}

/// Splitting distributes over a cut placed directly after a line feed.
pub proof fn lemma_split_append(s: Seq<char>, k: int)
    requires
        0 < k <= s.len(),
        s[k - 1] == '\n',
    ensures
        split_lines_spec(s) == split_lines_spec(s.take(k)) + split_lines_spec(s.skip(k)),
    decreases s.len(),
{
    lemma_first_nl(s);
    let i = first_nl(s);
    assert(i <= k - 1);
    assert(i < s.len());
    let t = s.take(k);
    if i == k - 1 {
        assert(t.len() == k);
        lemma_first_nl_is(t, k - 1);
        assert(t.take(k - 1) =~= s.take(k - 1));
        assert(t.skip(k) =~= Seq::<char>::empty());
        assert(split_lines_spec(t.skip(k)) =~= Seq::<Seq<char>>::empty());
        assert(split_lines_spec(t) =~= seq![strip_cr(s.take(k - 1))]);
        assert(split_lines_spec(s) == seq![strip_cr(s.take(i))] + split_lines_spec(s.skip(i + 1)));
        assert(split_lines_spec(s) =~= split_lines_spec(t) + split_lines_spec(s.skip(k)));
    } else {
        let s2 = s.skip(i + 1);
        let k2 = k - i - 1;
        assert(s2[k2 - 1] == s[k - 1]);
        lemma_split_append(s2, k2);
        lemma_first_nl_is(t, i);
        assert(t.take(i) =~= s.take(i));
        assert(t.skip(i + 1) =~= s2.take(k2));
        assert(s2.skip(k2) =~= s.skip(k));
        assert(split_lines_spec(t) == seq![strip_cr(s.take(i))] + split_lines_spec(s2.take(k2)));
        assert(split_lines_spec(s) == seq![strip_cr(s.take(i))] + split_lines_spec(s2));
        assert(split_lines_spec(s) =~= split_lines_spec(t) + split_lines_spec(s.skip(k)));
    }
}

/// One full line ending in a line feed extends the split by that line.
pub proof fn lemma_split_lines_step(s: Seq<char>, start: int, i: int)
    requires
        0 <= start <= i < s.len(),
        start == 0 || s[start - 1] == '\n',
        forall|k: int| start <= k < i ==> s[k] != '\n',
        s[i] == '\n',
    ensures
        split_lines_spec(s.take(i + 1)) == split_lines_spec(s.take(start)) + seq![
            strip_cr(s.subrange(start, i)),
        ],
{
    let t = s.take(i + 1);
    let seg = t.skip(start);
    if start > 0 {
        assert(t[start - 1] == '\n');
        lemma_split_append(t, start);
        assert(t.take(start) =~= s.take(start));
    } else {
        assert(t.take(0) =~= Seq::<char>::empty());
        assert(split_lines_spec(t.take(0)) =~= Seq::<Seq<char>>::empty());
    }
    // seg is the one remaining line followed by its line feed
    assert(seg.len() == i + 1 - start);
    assert(seg[i - start] == s[i]);
    assert forall|k: int| 0 <= k < i - start implies seg[k] != '\n' by {
        assert(seg[k] == s[start + k]);
    }
    lemma_first_nl_is(seg, i - start);
    assert(seg.take(i - start) =~= s.subrange(start, i));
    assert(seg.skip(i - start + 1) =~= Seq::<char>::empty());
    assert(split_lines_spec(seg.skip(i - start + 1)) =~= Seq::<Seq<char>>::empty());
    assert(split_lines_spec(seg) =~= seq![strip_cr(s.subrange(start, i))]);
    if start > 0 {
        assert(split_lines_spec(t) =~= split_lines_spec(s.take(start)) + seq![
            strip_cr(s.subrange(start, i)),
        ]);
    } else {
        assert(t =~= seg);
        assert(split_lines_spec(t) =~= split_lines_spec(s.take(start)) + seq![
            strip_cr(s.subrange(start, i)),
        ]);
    }
}

/// A final segment with no line feed extends the split by itself, unstripped.
pub proof fn lemma_split_lines_last(s: Seq<char>, start: int)
    requires
        0 <= start < s.len(),
        start == 0 || s[start - 1] == '\n',
        forall|k: int| start <= k < s.len() ==> s[k] != '\n',
    ensures
        split_lines_spec(s) == split_lines_spec(s.take(start)) + seq![s.skip(start)],
{
    let seg = s.skip(start);
    if start > 0 {
        lemma_split_append(s, start);
    } else {
        assert(s.take(0) =~= Seq::<char>::empty());
        assert(split_lines_spec(s.take(0)) =~= Seq::<Seq<char>>::empty());
    }
    assert forall|k: int| 0 <= k < seg.len() implies seg[k] != '\n' by {
        assert(seg[k] == s[start + k]);
    }
    lemma_first_nl_is(seg, seg.len() as int);
    assert(split_lines_spec(seg) =~= seq![seg]);
    if start > 0 {
        assert(split_lines_spec(s) =~= split_lines_spec(s.take(start)) + seq![seg]);
    } else {
        assert(s =~= seg);
        assert(split_lines_spec(s) =~= split_lines_spec(s.take(start)) + seq![seg]);
    }
}

/// Split a string into its lines, each line copied out.
pub fn split_string_by_lines(content: &str) -> (r: Vec<String>)
    ensures
        r.deep_view() == split_lines_spec(content@),
{
    let n = content.unicode_len();
    let mut r: Vec<String> = Vec::new();
    let mut start: usize = 0;
    let mut i: usize = 0;
    proof {
        assert(content@.take(0) =~= Seq::<char>::empty());
    }
    while i < n
        invariant
            start <= i <= n,
            n == content@.len(),
            r.deep_view() == split_lines_spec(content@.take(start as int)),
            start == 0 || content@[start as int - 1] == '\n',
            forall|k: int| start <= k < i ==> content@[k] != '\n',
        decreases n - i,
    {
        let c = content.get_char(i);
        if c == '\n' {
            let line_end: usize = if i > start && content.get_char(i - 1) == '\r' {
                i - 1
            } else {
                i
            };
            let line = content.substring_char(start, line_end);
            r.push(line.to_owned());
            proof {
                lemma_split_lines_step(content@, start as int, i as int);
                assert(line@ =~= strip_cr(content@.subrange(start as int, i as int)));
                assert(r.deep_view() =~= split_lines_spec(content@.take(start as int)) + seq![
                    line@,
                ]);
            }
            start = i + 1;
        }
        i = i + 1;
    }
    if start < n {
        let line = content.substring_char(start, n);
        r.push(line.to_owned());
        proof {
            lemma_split_lines_last(content@, start as int);
            assert(line@ =~= content@.skip(start as int));
            assert(content@.take(n as int) =~= content@);
            assert(r.deep_view() =~= split_lines_spec(content@.take(start as int)) + seq![line@]);
        }
    } else {
        proof {
            assert(content@.take(start as int) =~= content@);
        }
    }
    r
}

} // verus!
