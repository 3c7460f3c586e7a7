//! Shard-writer batching: how rows gather into batches and how one batch's
//! persistence outcome changes the visible store.
//!
//! A shard writer blocks for the first row of a batch, then takes whatever
//! rows are already waiting, up to the batch cap, and persists the batch in
//! one transaction: either every row of the batch becomes visible or none
//! does.

use vstd::prelude::*;

use crate::row::LogRow;

verus! {

/// The most rows one batch may hold.
pub const MAX_BATCH: usize = 20000;

/// Whether a forming batch still has room for another waiting row.
pub fn batch_has_room(len: usize) -> (r: bool)
    ensures
        r == (len < MAX_BATCH),
{
    len < MAX_BATCH
}

/// The shard a consumer worker writes to, for its whole lifetime: one
/// explicit modulus over the shard count, so every worker lands on exactly
/// one shard and the distribution is plain to reason about.
pub fn shard_of(worker: u64, shard_count: u64) -> (r: u64)
    requires
        shard_count > 0,
    ensures
        r == worker % shard_count,
        r < shard_count,
{
    worker % shard_count
}

/// The effect of one batch transaction on the visible store: a committed
/// batch appends every one of its rows in order; a failed one changes
/// nothing.
pub fn apply_batch_outcome(store: &mut Vec<LogRow>, batch: Vec<LogRow>, committed: bool)
    ensures
        committed ==> final(store)@ == old(store)@ + batch@,
        !committed ==> final(store)@ == old(store)@,
{
    if committed {
        let mut moved = batch;
        store.append(&mut moved);
    }
}

/// Law: batch persistence is atomic.  When the commit fails, the store is
/// what it was: no row of the batch became visible.  When it succeeds,
/// every row of the batch is visible.
pub proof fn lemma_batch_atomicity(
    store_before: Seq<LogRow>,
    store_after: Seq<LogRow>,
    batch: Seq<LogRow>,
    committed: bool,
)
    requires
        committed ==> store_after == store_before + batch,
        !committed ==> store_after == store_before,
    ensures
        !committed ==> forall|x: LogRow|
            !store_before.contains(x) ==> !(#[trigger] store_after.contains(x)),
        committed ==> forall|i: int|
            0 <= i < batch.len() ==> store_after.contains(#[trigger] batch[i]),
        committed ==> forall|i: int|
            0 <= i < batch.len() ==> store_after[store_before.len() + i] == #[trigger] batch[i],
{
    if committed {
        assert forall|i: int| 0 <= i < batch.len() implies store_after.contains(
            #[trigger] batch[i],
        ) by {
            assert(store_after[store_before.len() + i] == batch[i]);
        }
    }
}

} // verus!
