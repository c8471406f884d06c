//! Result delivery: the synchronous cap and the streaming chunker.
//!
//! A workspace-symbol search delivers its results in one of two modes.
//! Without a pagination token, results accumulate into a single batch capped
//! at 99 entries, and scanning stops once the cap is reached.  With a token,
//! results stream out in chunks of 16 — one partial-result notification per
//! full chunk, one final notification flushing the remainder, and no
//! notification ever carries zero results.

use vstd::prelude::*;

use crate::symbols::SymbolInformation;

verus! {

/// Number of results per partial-result notification in streaming mode.
pub const PARTIAL_CHUNK: usize = 16;

/// Largest number of results a synchronous symbol answer may hold.
pub const RECORD_LIMIT: usize = 99;

/// The chunks the streaming mode emits for a result sequence: one chunk per
/// full 16 results, in order, and one final chunk holding the remainder if
/// there is one.
pub open spec fn stream_emissions(items: Seq<SymbolInformation>) -> Seq<Seq<SymbolInformation>> {
    let n = items.len() as int;
    let full = Seq::new((n / 16) as nat, |k: int| items.subrange(16 * k, 16 * k + 16));
    if n % 16 == 0 {
        full
    } else {
        full.push(items.skip(16 * (n / 16)))
    }
}

/// Shape of the streamed chunks: every chunk is non-empty and holds at most
/// 16 results, every chunk but the last holds exactly 16, the chunks
/// concatenate back to the input in order, and their number is the input
/// length divided by 16, rounded up.  Forty results make exactly three
/// chunks of 16, 16 and 8.
pub proof fn lemma_stream_emission_shape(items: Seq<SymbolInformation>)
    ensures
        stream_emissions(items).len() == items.len() as int / 16 + (if items.len() as int % 16
            == 0 {
            0int
        } else {
            1int
        }),
        forall|k: int|
            0 <= k < items.len() as int / 16 ==> (#[trigger] stream_emissions(items)[k])
                == items.subrange(16 * k, 16 * k + 16),
        items.len() as int % 16 != 0 ==> stream_emissions(items).last() == items.skip(
            16 * (items.len() as int / 16),
        ),
        forall|k: int|
            0 <= k < stream_emissions(items).len() ==> 0 < (
            #[trigger] stream_emissions(items)[k]).len() <= 16,
{
    let n = items.len() as int;
    vstd::arithmetic::div_mod::lemma_fundamental_div_mod(n, 16);
}

/// The streaming accumulator: buffers results and hands out one full chunk
/// of 16 whenever it fills.
pub struct StreamBatcher {
    pending: Vec<SymbolInformation>,
}

impl StreamBatcher {
    /// The buffered results, for specification purposes.
    pub closed spec fn pending_view(&self) -> Seq<SymbolInformation> {
        self.pending@
    }

    /// The buffer never reaches a full chunk between calls.
    pub open spec fn wf(&self) -> bool {
        self.pending_view().len() < 16
    }

    /// An empty accumulator.
    pub fn new() -> (b: Self)
        ensures
            b.wf(),
            b.pending_view() == Seq::<SymbolInformation>::empty(),
    {
        StreamBatcher { pending: Vec::new() }
    }

    /// Buffer one result.  Exactly when this makes a full chunk of 16, the
    /// chunk is returned for emission and the buffer empties.
    pub fn push(&mut self, item: SymbolInformation) -> (emit: Option<Vec<SymbolInformation>>)
        requires
            old(self).wf(),
        ensures
            final(self).wf(),
            old(self).pending_view().len() + 1 == 16 ==> {
                &&& emit matches Some(chunk) && chunk@ == old(self).pending_view().push(item)
                &&& final(self).pending_view() == Seq::<SymbolInformation>::empty()
            },
            old(self).pending_view().len() + 1 < 16 ==> {
                &&& emit is None
                &&& final(self).pending_view() == old(self).pending_view().push(item)
            },
    {
        self.pending.push(item);
        if self.pending.len() == 16 {
            let mut chunk: Vec<SymbolInformation> = Vec::new();
            core::mem::swap(&mut chunk, &mut self.pending);
            Some(chunk)
        } else {
            None
        }
    }

    /// Flush the remainder when the scan is over.  A final notification is
    /// only due when something is buffered: zero results are suppressed.
    pub fn finish(self) -> (emit: Option<Vec<SymbolInformation>>)
        ensures
            self.pending_view().len() == 0 ==> emit is None,
            self.pending_view().len() > 0 ==> {
                &&& emit matches Some(chunk) && chunk@ == self.pending_view()
            },
    {
        if self.pending.len() == 0 {
            None
        } else {
            Some(self.pending)
        }
    }
}

/// Run a whole result sequence through the streaming accumulator: the
/// emitted chunks are exactly [`stream_emissions`] of the input.
pub fn stream_in_batches(items: &Vec<SymbolInformation>) -> (chunks: Vec<Vec<SymbolInformation>>)
    ensures
        chunks@.map_values(|c: Vec<SymbolInformation>| c@) == stream_emissions(items@),
{
    let mut b = StreamBatcher::new();
    let mut chunks: Vec<Vec<SymbolInformation>> = Vec::new();
    let n = items.len();
    let mut i: usize = 0;
    while i < n
        invariant
            i <= n == items@.len(),
            b.wf(),
            16 * chunks@.len() + b.pending_view().len() == i,
            b.pending_view() == items@.subrange(16 * chunks@.len() as int, i as int),
            forall|k: int|
                0 <= k < chunks@.len() ==> (#[trigger] chunks@[k])@ == items@.subrange(
                    16 * k,
                    16 * k + 16,
                ),
        decreases n - i,
    {
        let item = items[i].duplicate();
        let ghost c = chunks@.len() as int;
        match b.push(item) {
            Some(chunk) => {
                proof {
                    assert(chunk@ =~= items@.subrange(16 * c, i as int).push(items@[i as int]));
                    assert(items@.subrange(16 * c, i as int).push(items@[i as int])
                        =~= items@.subrange(16 * c, i as int + 1));
                }
                chunks.push(chunk);
                proof {
                    assert(b.pending_view() =~= items@.subrange(
                        16 * chunks@.len() as int,
                        i as int + 1,
                    ));
                }
            },
            None => {
                proof {
                    assert(b.pending_view() =~= items@.subrange(16 * c, i as int + 1));
                }
            },
        }
        i = i + 1;
    }
    let ghost c = chunks@.len() as int;
    let ghost rem = b.pending_view().len() as int;
    proof {
        vstd::arithmetic::div_mod::lemma_fundamental_div_mod_converse(n as int, 16, c, rem);
    }
    match b.finish() {
        Some(chunk) => {
            chunks.push(chunk);
            proof {
                assert(chunks@.map_values(|ch: Vec<SymbolInformation>| ch@) =~= stream_emissions(
                    items@,
                ));
            }
        },
        None => {
            proof {
                assert(chunks@.map_values(|ch: Vec<SymbolInformation>| ch@) =~= stream_emissions(
                    items@,
                ));
            }
        },
    }
    chunks
}

/// Append a resolved batch to a synchronous answer, keeping the 99-result
/// cap: results past the cap are dropped, and a full answer tells the
/// caller to stop scanning further folders.
pub fn append_capped(acc: &mut Vec<SymbolInformation>, batch: &Vec<SymbolInformation>) -> (full:
    bool)
    ensures
        old(acc)@.len() >= 99 ==> final(acc)@ == old(acc)@,
        old(acc)@.len() < 99 ==> final(acc)@ == old(acc)@ + batch@.take(
            vstd::math::min(99 - old(acc)@.len(), batch@.len() as int),
        ),
        old(acc)@.len() < 99 ==> final(acc)@.len() <= 99,
        full == (final(acc)@.len() >= 99),
{
    let ghost acc0 = acc@;
    let n = batch.len();
    let mut i: usize = 0;
    while i < n && acc.len() < 99
        invariant
            i <= n == batch@.len(),
            acc0.len() >= 99 ==> i == 0 && acc@ == acc0,
            acc0.len() < 99 ==> acc@ == acc0 + batch@.take(i as int),
            acc0.len() < 99 ==> acc@.len() <= 99,
        decreases n - i,
    {
        acc.push(batch[i].duplicate());
        proof {
            assert(batch@.take(i as int).push(batch@[i as int]) =~= batch@.take(i as int + 1));
        }
        i = i + 1;
    }
    proof {
        if acc0.len() < 99 {
            assert(batch@.take(i as int) =~= batch@.take(
                vstd::math::min(99 - acc0.len(), batch@.len() as int),
            )) by {
                if i < n {
                    assert(acc@.len() >= 99);
                }
            }
        }
    }
    acc.len() >= 99
}

} // verus!
