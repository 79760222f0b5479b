//! Which recent blocks the batch reader asks receipts for.
use vstd::prelude::*;

verus! {

/// How many blocks before the latest one the batch reader looks at.
pub const RECENT_BLOCKS: u64 = 10;

/// The blocks before `latest_block` whose receipts the batch reader asks
/// for, oldest first, each with its distance from `latest_block`.
pub fn recent_blocks(latest_block: u64) -> (r: Vec<(u64, u64)>)
    requires
        latest_block >= RECENT_BLOCKS,
    ensures
        r@.len() == RECENT_BLOCKS,
        forall|i: int|
            0 <= i < RECENT_BLOCKS ==> #[trigger] r@[i] == (
                (latest_block - RECENT_BLOCKS + i) as u64,
                (RECENT_BLOCKS - i) as u64,
            ),
{
    let mut r: Vec<(u64, u64)> = Vec::new();
    let mut number: u64 = latest_block - RECENT_BLOCKS;
    while number < latest_block
        invariant
            latest_block - RECENT_BLOCKS <= number <= latest_block,
            r@.len() == number - (latest_block - RECENT_BLOCKS),
            forall|i: int|
                0 <= i < r@.len() ==> #[trigger] r@[i] == (
                    (latest_block - RECENT_BLOCKS + i) as u64,
                    (RECENT_BLOCKS - i) as u64,
                ),
        decreases latest_block - number,
    {
        r.push((number, latest_block - number));
        number = number + 1;
    }
    r
}

} // verus!
