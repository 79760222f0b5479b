//! Cutting an inclusive range of block numbers into consecutive inclusive
//! chunks of a bounded size.
use core::ops::RangeInclusive;
use vstd::arithmetic::div_mod::{
    lemma_div_plus_one, lemma_mod_sub_multiples_vanish,
    lemma_basic_div, lemma_small_mod,
};
use vstd::prelude::*;

verus! {

/// The smaller of two integers.
pub open spec fn min_int(a: int, b: int) -> int {
    if a <= b {
        a
    } else {
        b
    }
}

/// The inclusive chunks `(lo, hi)` into which `[start, end]` is cut when a new
/// chunk begins every `step + 1` blocks: the first begins at `start`, each
/// ends `step` blocks after its beginning or at `end`, whichever comes first.
pub open spec fn block_chunks(start: int, end: int, step: nat) -> Seq<(int, int)>
    decreases (if start <= end {
        end - start + 1
    } else {
        0
    }),
{
    if start > end {
        Seq::empty()
    } else {
        seq![(start, min_int(start + step, end))] + block_chunks(start + step + 1, end, step)
    }
}

/// Whether block `b` lies in the inclusive chunk `chunk`.
pub open spec fn in_chunk(chunk: (int, int), b: int) -> bool {
    chunk.0 <= b <= chunk.1
}

/// Whether block `b` lies in one of `chunks`.
pub open spec fn block_in_chunks(chunks: Seq<(int, int)>, b: int) -> bool {
    exists|i: int| 0 <= i < chunks.len() && #[trigger] in_chunk(chunks[i], b)
}

/// The block at which the last chunk of `[start, end]` begins.
pub open spec fn last_chunk_start(start: int, end: int, step: nat) -> int {
    end - (end - start) % (step + 1) as int
}

/// Whether a range of std holds no block: it was iterated to exhaustion, or
/// its start lies past its end.
pub open spec fn range_holds_nothing(r: RangeInclusive<u64>) -> bool {
    r@.exhausted || r@.start > r@.end
}

/// `RangeInclusive::is_empty` of std: per its documentation, true exactly when
/// the range contains no item, which is the case when it was iterated to
/// exhaustion or when its start lies past its end.
#[verifier::external_body]
fn range_is_empty(r: &RangeInclusive<u64>) -> (b: bool)
    ensures
        b == range_holds_nothing(*r),
{
    r.is_empty()
}

/// `RangeInclusive::into_inner` of std: per its documentation, the lower and
/// the upper (inclusive) bound; what it returns for a range iterated to
/// exhaustion is left unspecified there, and nothing is said of it here.
#[verifier::external_body]
fn range_into_inner(r: RangeInclusive<u64>) -> (b: (u64, u64))
    ensures
        !r@.exhausted ==> b == (r@.start, r@.end),
{
    r.into_inner()
}

/// Moving from one chunk's beginning to the next leaves the beginning of the
/// last chunk where it was.
proof fn lemma_last_chunk_start_step(start: int, end: int, step: nat)
    requires
        start + step + 1 <= end,
    ensures
        last_chunk_start(start + step + 1, end, step) == last_chunk_start(start, end, step),
{
    let k = step + 1;
    lemma_mod_sub_multiples_vanish(end - start, k as int);
    assert(-k + (end - start) == end - (start + step + 1));
}

/// The chunks of a non-empty range cover it exactly and in order: the first
/// begins at `start`, the last ends at `end`, each holds between one and
/// `step + 1` blocks, and each begins right after the one before it ends.
/// An empty range has no chunk.
pub proof fn lemma_chunks_cover(start: int, end: int, step: nat)
    ensures
        start > end ==> block_chunks(start, end, step).len() == 0,
        start <= end ==> {
            let c = block_chunks(start, end, step);
            &&& c.len() > 0
            &&& c[0].0 == start
            &&& c.last().1 == end
            &&& forall|i: int|
                0 <= i < c.len() ==> c[i].0 <= #[trigger] c[i].1 <= c[i].0 + step
            &&& forall|i: int| 0 <= i < c.len() - 1 ==> #[trigger] c[i + 1].0 == c[i].1 + 1
        },
    decreases (if start <= end {
        end - start + 1
    } else {
        0
    }),
{
    if start <= end {
        let c = block_chunks(start, end, step);
        let rest = block_chunks(start + step + 1, end, step);
        lemma_chunks_cover(start + step + 1, end, step);
        assert(c =~= seq![(start, min_int(start + step, end))] + rest);
        if start + step + 1 > end {
            assert(c.len() == 1);
        } else {
            assert forall|i: int| 0 <= i < c.len() - 1 implies #[trigger] c[i + 1].0 == c[i].1
                + 1 by {
                assert(c[i + 1] == rest[i]);
                if i > 0 {
                    assert(c[i] == rest[i - 1]);
                    assert(rest[(i - 1) + 1].0 == rest[i - 1].1 + 1);
                } else {
                    assert(c[0] == (start, min_int(start + step, end)));
                }
            }
            assert forall|i: int| 0 <= i < c.len() implies c[i].0 <= #[trigger] c[i].1 <= c[i].0
                + step by {
                if i > 0 {
                    assert(c[i] == rest[i - 1]);
                }
            }
        }
    }
}

/// The chunk at place `k` of `[start, end]` begins `k * (step + 1)` blocks
/// after `start` and ends `step` blocks after its beginning, or at `end`
/// if that comes first; every chunk but the last holds exactly `step + 1`
/// blocks.
pub proof fn lemma_chunk_at(start: int, end: int, step: nat, k: int)
    requires
        0 <= k < block_chunks(start, end, step).len(),
    ensures
        block_chunks(start, end, step)[k] == (
            start + k * (step + 1),
            min_int(start + k * (step + 1) + step, end),
        ),
        k < block_chunks(start, end, step).len() - 1 ==> block_chunks(start, end, step)[k].1
            == block_chunks(start, end, step)[k].0 + step,
    decreases k,
{
    let c = block_chunks(start, end, step);
    let rest = block_chunks(start + step + 1, end, step);
    assert(c =~= seq![(start, min_int(start + step, end))] + rest);
    if k > 0 {
        assert(c[k] == rest[k - 1]);
        lemma_chunk_at(start + step + 1, end, step, k - 1);
        assert((start + step + 1) + (k - 1) * (step + 1) == start + k * (step + 1))
            by (nonlinear_arith);
    } else {
        assert(0 * (step + 1) == 0) by (nonlinear_arith);
        if c.len() > 1 {
            assert(rest.len() > 0);
            assert(start + step + 1 <= end);
        }
    }
}

/// The chunks of a non-empty range number `(end - start) / (step + 1) + 1`,
/// and the last of them begins at `last_chunk_start(start, end, step)`.
pub proof fn lemma_chunks_count(start: int, end: int, step: nat)
    requires
        start <= end,
    ensures
        block_chunks(start, end, step).len() == (end - start) / (step + 1) as int + 1,
        block_chunks(start, end, step).last().0 == last_chunk_start(start, end, step),
    decreases end - start + 1,
{
    let k = step + 1;
    let c = block_chunks(start, end, step);
    let rest = block_chunks(start + step + 1, end, step);
    assert(c =~= seq![(start, min_int(start + step, end))] + rest);
    if start + step + 1 > end {
        lemma_basic_div(end - start, k as int);
        lemma_small_mod((end - start) as nat, k as nat);
        assert(rest.len() == 0);
    } else {
        lemma_chunks_count(start + step + 1, end, step);
        lemma_last_chunk_start_step(start, end, step);
        lemma_div_plus_one(end - (start + step + 1), k as int);
        assert(k + (end - (start + step + 1)) == end - start);
        assert(c.last() == rest.last());
    }
}

/// Every block of `[start, end]` lies in exactly one of its chunks, and no
/// block outside it lies in any: the chunks are ordered and disjoint.
pub proof fn lemma_chunks_partition(start: int, end: int, step: nat)
    ensures
        forall|i: int, j: int|
            0 <= i < j < block_chunks(start, end, step).len() ==> #[trigger] block_chunks(
                start,
                end,
                step,
            )[i].1 < #[trigger] block_chunks(start, end, step)[j].0,
        forall|b: int| #[trigger] block_in_chunks(block_chunks(start, end, step), b) <==> start
            <= b <= end,
    decreases (if start <= end {
        end - start + 1
    } else {
        0
    }),
{
    let c = block_chunks(start, end, step);
    if start <= end {
        let rest = block_chunks(start + step + 1, end, step);
        lemma_chunks_partition(start + step + 1, end, step);
        lemma_chunks_cover(start + step + 1, end, step);
        assert(c =~= seq![(start, min_int(start + step, end))] + rest);
        assert forall|i: int, j: int| 0 <= i < j < c.len() implies #[trigger] c[i].1
            < #[trigger] c[j].0 by {
            assert(c[j] == rest[j - 1]);
            if i > 0 {
                assert(c[i] == rest[i - 1]);
            } else {
                if j - 1 > 0 {
                    assert(rest[0].1 < rest[j - 1].0);
                }
            }
        }
        assert forall|b: int| start <= b <= end implies block_in_chunks(c, b) by {
            if b <= min_int(start + step, end) {
                assert(in_chunk(c[0], b));
            } else {
                assert(block_in_chunks(rest, b));
                let i = choose|i: int| 0 <= i < rest.len() && #[trigger] in_chunk(rest[i], b);
                assert(c[i + 1] == rest[i]);
                assert(in_chunk(c[i + 1], b));
            }
        }
        assert forall|b: int| block_in_chunks(c, b) implies start <= b <= end by {
            let i = choose|i: int| 0 <= i < c.len() && #[trigger] in_chunk(c[i], b);
            if i > 0 {
                assert(c[i] == rest[i - 1]);
                assert(block_in_chunks(rest, b));
            }
        }
    } else {
        assert(c.len() == 0);
    }
}

/// An iterator over the inclusive chunks of an inclusive range of block
/// numbers, each holding at most `step + 1` blocks.
pub struct BlockRangeInclusiveIter {
    next_start: u64,
    end: u64,
    step: u64,
    exhausted: bool,
}

impl View for BlockRangeInclusiveIter {
    /// The chunks that are yet to come, in order.
    type V = Seq<(int, int)>;

    closed spec fn view(&self) -> Seq<(int, int)> {
        if self.exhausted {
            Seq::empty()
        } else {
            block_chunks(self.next_start as int, self.end as int, self.step as nat)
        }
    }
}

impl BlockRangeInclusiveIter {
    #[verifier::type_invariant]
    spec fn well_formed(self) -> bool {
        !self.exhausted ==> self.next_start <= self.end
    }

    /// The maximum number of blocks after the first one in a chunk.
    pub closed spec fn step_spec(self) -> nat {
        self.step as nat
    }

    /// Starts iterating over the chunks of `range`, each holding at most
    /// `step + 1` blocks. A range that holds nothing has no chunk.
    pub fn new(range: RangeInclusive<u64>, step: u64) -> (r: Self)
        requires
            step < usize::MAX,
        ensures
            r.step_spec() == step,
            r@ == (if range_holds_nothing(range) {
                Seq::empty()
            } else {
                block_chunks(range@.start as int, range@.end as int, step as nat)
            }),
    {
        let empty = range_is_empty(&range);
        let (start, end) = range_into_inner(range);
        BlockRangeInclusiveIter { next_start: start, end, step, exhausted: empty }
    }

    /// Yields the next chunk `(start, end)`, or `None` once every chunk has
    /// been yielded; after that it keeps yielding `None`.
    pub fn next(&mut self) -> (r: Option<(u64, u64)>)
        ensures
            final(self).step_spec() == old(self).step_spec(),
            r is None <==> old(self)@.len() == 0,
            r is None ==> final(self)@ == old(self)@,
            r matches Some(chunk) ==> {
                &&& (chunk.0 as int, chunk.1 as int) == old(self)@[0]
                &&& final(self)@ == old(self)@.drop_first()
            },
    {
        proof {
            use_type_invariant(&*self);
        }
        if self.exhausted {
            return None;
        }
        let start = self.next_start;
        let end = if self.end - start > self.step {
            start + self.step
        } else {
            self.end
        };
        let ghost before = self@;
        let ghost rest = block_chunks(start + self.step + 1, self.end as int, self.step as nat);
        assert(before =~= seq![(start as int, end as int)] + rest);
        if self.end - start > self.step {
            self.next_start = start + self.step + 1;
        } else {
            self.exhausted = true;
        }
        assert(self@ =~= before.drop_first());
        Some((start, end))
    }
}

} // verus!
