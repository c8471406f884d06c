//! Completion candidate merging.
//!
//! A completion request runs two index queries — plain completion candidates
//! and symbol-name completion through the cross-reference output — and
//! merges the two answers into one duplicate-free, lexicographically sorted
//! candidate list capped at 16 entries.

use vstd::prelude::*;

use crate::cxref::cxref_symbol;
use crate::cxref::parse_cxref;
use crate::error::QueryError;
use crate::text::str_eq;

verus! {

/// Lexicographic order on character sequences by code point.
pub open spec fn seq_lt(a: Seq<char>, b: Seq<char>) -> bool
    decreases a.len(),
{
    if b.len() == 0 {
        false
    } else if a.len() == 0 {
        true
    } else if a[0] != b[0] {
        (a[0] as int) < (b[0] as int)
    } else {
        seq_lt(a.drop_first(), b.drop_first())
    }
}

/// The order is total: two sequences compare one way, the other way, or are
/// equal, and never two of these at once.
pub proof fn lemma_seq_lt_total(a: Seq<char>, b: Seq<char>)
    ensures
        seq_lt(a, b) || seq_lt(b, a) || a == b,
        seq_lt(a, b) ==> !seq_lt(b, a) && a != b,
    decreases a.len(),
{
    if b.len() == 0 || a.len() == 0 {
        if a.len() == 0 && b.len() == 0 {
            assert(a =~= b);
        }
    } else if a[0] != b[0] {
    } else {
        lemma_seq_lt_total(a.drop_first(), b.drop_first());
        if a.drop_first() == b.drop_first() {
            assert forall|i: int| 0 <= i < a.len() implies a[i] == b[i] by {
                if i > 0 {
                    assert(a.drop_first()[i - 1] == b.drop_first()[i - 1]);
                }
            }
            assert(a =~= b);
        }
        if a == b {
            assert(a.drop_first() =~= b.drop_first());
        }
    }
}

/// The order is transitive.
pub proof fn lemma_seq_lt_trans(a: Seq<char>, b: Seq<char>, c: Seq<char>)
    requires
        seq_lt(a, b),
        seq_lt(b, c),
    ensures
        seq_lt(a, c),
    decreases a.len(),
{
    if c.len() == 0 {
    } else if a.len() == 0 {
    } else {
        assert(b.len() > 0);
        if a[0] == b[0] && b[0] == c[0] {
            lemma_seq_lt_trans(a.drop_first(), b.drop_first(), c.drop_first());
        }
    }
}

/// Equal prefixes do not decide the order.
proof fn lemma_seq_lt_skip(a: Seq<char>, b: Seq<char>, k: int)
    requires
        0 <= k <= a.len(),
        k <= b.len(),
        forall|t: int| 0 <= t < k ==> a[t] == b[t],
    ensures
        seq_lt(a, b) == seq_lt(a.skip(k), b.skip(k)),
    decreases k,
{
    if k > 0 {
        assert(a[0] == b[0]);
        assert forall|t: int| 0 <= t < k - 1 implies a.drop_first()[t] == b.drop_first()[t] by {
            assert(a.drop_first()[t] == a[t + 1]);
            assert(b.drop_first()[t] == b[t + 1]);
        }
        lemma_seq_lt_skip(a.drop_first(), b.drop_first(), k - 1);
        assert(a.drop_first().skip(k - 1) =~= a.skip(k));
        assert(b.drop_first().skip(k - 1) =~= b.skip(k));
    } else {
        assert(a.skip(0) =~= a);
        assert(b.skip(0) =~= b);
    }
}

/// Whether `a` orders strictly before `b`.
pub fn str_lt(a: &str, b: &str) -> (r: bool)
    ensures
        r == seq_lt(a@, b@),
{
    let n = a.unicode_len();
    let m = b.unicode_len();
    let mut k: usize = 0;
    while k < n && k < m
        invariant
            k <= n,
            k <= m,
            n == a@.len(),
            m == b@.len(),
            forall|t: int| 0 <= t < k ==> a@[t] == b@[t],
        decreases n - k,
    {
        let ca = a.get_char(k);
        let cb = b.get_char(k);
        if ca != cb {
            proof {
                lemma_seq_lt_skip(a@, b@, k as int);
                assert(a@.skip(k as int)[0] == ca);
                assert(b@.skip(k as int)[0] == cb);
            }
            return ca < cb;
        }
        k = k + 1;
    }
    proof {
        lemma_seq_lt_skip(a@, b@, k as int);
        if k == n {
            assert(a@.skip(k as int).len() == 0);
        } else {
            assert(b@.skip(k as int).len() == 0);
            assert(a@.skip(k as int).len() > 0);
        }
    }
    n < m
}

/// The views of a string sequence.
pub open spec fn views(s: Seq<String>) -> Seq<Seq<char>> {
    s.map_values(|x: String| x@)
}

/// Strictly ascending, hence duplicate-free.
pub open spec fn strictly_sorted(s: Seq<Seq<char>>) -> bool {
    forall|i: int, j: int| 0 <= i < j < s.len() ==> seq_lt(#[trigger] s[i], #[trigger] s[j])
}

/// Whether `x` occurs in `s`.
pub open spec fn seqs_contain(s: Seq<Seq<char>>, x: Seq<char>) -> bool {
    exists|i: int| 0 <= i < s.len() && s[i] == x
}

/// Insert a candidate into a sorted list, keeping it sorted and
/// duplicate-free: the order-preserving counterpart of a set insertion.
pub fn insert_sorted_unique(v: &mut Vec<String>, s: String)
    requires
        strictly_sorted(views(old(v)@)),
    ensures
        strictly_sorted(views(final(v)@)),
        forall|x: Seq<char>|
            #[trigger] seqs_contain(views(final(v)@), x) <==> (seqs_contain(views(old(v)@), x) || x
                == s@),
{
    let ghost v0 = v@;
    let n = v.len();
    let mut k: usize = 0;
    while k < n && str_lt(v[k].as_str(), s.as_str())
        invariant
            k <= n == v@.len(),
            v@ == v0,
            forall|t: int| 0 <= t < k ==> seq_lt(#[trigger] v@[t]@, s@),
        decreases n - k,
    {
        k = k + 1;
    }
    if k < n && str_eq(v[k].as_str(), s.as_str()) {
        proof {
            assert(seqs_contain(views(v@), s@)) by {
                assert(views(v@)[k as int] == s@);
            }
        }
        return ;
    }
    proof {
        if k < n {
            lemma_seq_lt_total(v@[k as int]@, s@);
            assert(seq_lt(s@, v@[k as int]@));
        }
    }
    v.insert(k, s);
    proof {
        let newv = views(v@);
        let oldv = views(v0);
        assert forall|i: int, j: int| 0 <= i < j < newv.len() implies seq_lt(
            #[trigger] newv[i],
            #[trigger] newv[j],
        ) by {
            if j < k {
                assert(newv[i] == oldv[i] && newv[j] == oldv[j]);
            } else if i < k && j == k {
                assert(newv[i] == oldv[i]);
                assert(newv[j] == s@);
            } else if i < k {
                assert(newv[i] == oldv[i] && newv[j] == oldv[j - 1]);
            } else if i == k {
                assert(newv[i] == s@);
                assert(newv[j] == oldv[j - 1]);
                assert(seq_lt(s@, oldv[k as int]));
                if j - 1 > k {
                    assert(seq_lt(oldv[k as int], oldv[j - 1]));
                    lemma_seq_lt_trans(s@, oldv[k as int], oldv[j - 1]);
                }
            } else {
                assert(newv[i] == oldv[i - 1] && newv[j] == oldv[j - 1]);
            }
        }
        assert forall|x: Seq<char>|
            #[trigger] seqs_contain(newv, x) <==> (seqs_contain(oldv, x) || x == s@) by {
            if seqs_contain(newv, x) {
                let i = choose|i: int| 0 <= i < newv.len() && newv[i] == x;
                if i < k {
                    assert(oldv[i] == x);
                } else if i == k {
                } else {
                    assert(oldv[i - 1] == x);
                }
            }
            if seqs_contain(oldv, x) {
                let i = choose|i: int| 0 <= i < oldv.len() && oldv[i] == x;
                if i < k {
                    assert(newv[i] == x);
                } else {
                    assert(newv[i + 1] == x);
                }
            }
            if x == s@ {
                assert(newv[k as int] == x);
            }
        }
    }
}

/// Whether `x` belongs to the merged candidate universe: a whole line of
/// the plain completion answer, or the symbol field of a cross-reference
/// line.
pub open spec fn completion_union(cands: Seq<String>, syms: Seq<String>, x: Seq<char>) -> bool {
    ||| exists|i: int| 0 <= i < cands.len() && (#[trigger] cands[i])@ == x
    ||| exists|i: int| 0 <= i < syms.len() && cxref_symbol((#[trigger] syms[i])@) == x
}

/// Merge the two completion answers into the sorted, duplicate-free
/// candidate list, capped at 16 entries: the candidates kept are exactly
/// the smallest of the merged universe, in ascending order.  The first
/// cross-reference line that does not parse aborts the request with its
/// error.
pub fn completion_labels(candidate_lines: &Vec<String>, symbol_lines: &Vec<String>) -> (r: Result<
    Vec<String>,
    QueryError,
>)
    ensures
        match r {
            Ok(labels) => {
                &&& labels.len() <= 16
                &&& strictly_sorted(views(labels@))
                &&& forall|x: Seq<char>|
                    #[trigger] seqs_contain(views(labels@), x) ==> completion_union(
                        candidate_lines@,
                        symbol_lines@,
                        x,
                    )
                &&& (labels.len() < 16 ==> forall|x: Seq<char>|
                    #[trigger] completion_union(candidate_lines@, symbol_lines@, x)
                        ==> seqs_contain(views(labels@), x))
                &&& (labels.len() == 16 ==> forall|x: Seq<char>|
                    #[trigger] completion_union(candidate_lines@, symbol_lines@, x)
                        ==> seqs_contain(views(labels@), x) || seq_lt(views(labels@)[15], x))
            },
            Err(e) => exists|i: int|
                {
                    &&& 0 <= i < symbol_lines.len()
                    &&& !(crate::cxref::cxref_grammar_ok((#[trigger] symbol_lines[i])@)
                        && crate::cxref::cxref_line_ok(symbol_lines[i]@))
                    &&& (if crate::cxref::cxref_grammar_ok(symbol_lines[i]@) {
                        e is InvalidLineNumber
                    } else {
                        e is MalformedIndexRecord
                    })
                    &&& forall|t: int|
                        0 <= t < i ==> crate::cxref::cxref_grammar_ok((#[trigger] symbol_lines[t])@)
                            && crate::cxref::cxref_line_ok(symbol_lines[t]@)
                },
        },
{
    let mut sorted: Vec<String> = Vec::new();
    let nc = candidate_lines.len();
    let mut i: usize = 0;
    while i < nc
        invariant
            i <= nc == candidate_lines@.len(),
            strictly_sorted(views(sorted@)),
            forall|x: Seq<char>|
                #[trigger] seqs_contain(views(sorted@), x) <==> exists|t: int|
                    0 <= t < i && (#[trigger] candidate_lines@[t])@ == x,
        decreases nc - i,
    {
        insert_sorted_unique(&mut sorted, candidate_lines[i].clone());
        i = i + 1;
    }
    let ns = symbol_lines.len();
    let mut j: usize = 0;
    while j < ns
        invariant
            j <= ns == symbol_lines@.len(),
            strictly_sorted(views(sorted@)),
            forall|x: Seq<char>|
                #[trigger] seqs_contain(views(sorted@), x) <==> ((exists|t: int|
                    0 <= t < candidate_lines@.len() && (#[trigger] candidate_lines@[t])@ == x)
                    || (exists|t: int|
                    0 <= t < j && cxref_symbol((#[trigger] symbol_lines@[t])@) == x)),
            forall|t: int|
                0 <= t < j ==> crate::cxref::cxref_grammar_ok((#[trigger] symbol_lines@[t])@)
                    && crate::cxref::cxref_line_ok(symbol_lines@[t]@),
        decreases ns - j,
    {
        let record = match parse_cxref(symbol_lines[j].as_str()) {
            Ok(rec) => rec,
            Err(e) => {
                return Err(e);
            },
        };
        insert_sorted_unique(&mut sorted, record.symbol);
        j = j + 1;
    }
    let mut labels: Vec<String> = Vec::new();
    let cap: usize = if sorted.len() < 16 {
        sorted.len()
    } else {
        16
    };
    let mut t: usize = 0;
    while t < cap
        invariant
            t <= cap <= sorted@.len(),
            cap <= 16,
            labels@.len() == t,
            forall|u: int| 0 <= u < t ==> #[trigger] labels@[u] == sorted@[u],
        decreases cap - t,
    {
        labels.push(sorted[t].clone());
        t = t + 1;
    }
    proof {
        let lv = views(labels@);
        let sv = views(sorted@);
        assert forall|u: int| 0 <= u < lv.len() implies lv[u] == sv[u] by {
            assert(labels@[u] == sorted@[u]);
        }
        assert forall|i2: int, j2: int| 0 <= i2 < j2 < lv.len() implies seq_lt(
            #[trigger] lv[i2],
            #[trigger] lv[j2],
        ) by {
            assert(lv[i2] == sv[i2] && lv[j2] == sv[j2]);
            assert(seq_lt(sv[i2], sv[j2]));
        }
        assert forall|x: Seq<char>|
            #[trigger] seqs_contain(lv, x) implies completion_union(
            candidate_lines@,
            symbol_lines@,
            x,
        ) by {
            let u = choose|u: int| 0 <= u < lv.len() && lv[u] == x;
            assert(sv[u] == x);
            assert(seqs_contain(sv, x));
        }
        if labels@.len() < 16 {
            assert forall|x: Seq<char>|
                #[trigger] completion_union(candidate_lines@, symbol_lines@, x) implies seqs_contain(
                lv,
                x,
            ) by {
                assert(seqs_contain(sv, x));
                let u = choose|u: int| 0 <= u < sv.len() && sv[u] == x;
                assert(lv[u] == x);
            }
        }
        if labels@.len() == 16 {
            assert forall|x: Seq<char>|
                #[trigger] completion_union(candidate_lines@, symbol_lines@, x) implies (
            seqs_contain(lv, x) || seq_lt(lv[15], x)) by {
                assert(seqs_contain(sv, x));
                let u = choose|u: int| 0 <= u < sv.len() && sv[u] == x;
                if u < 16 {
                    assert(lv[u] == x);
                } else {
                    assert(lv[15] == sv[15]);
                    assert(seq_lt(sv[15], sv[u]));
                }
            }
        }
    }
    Ok(labels)
}

} // verus!
