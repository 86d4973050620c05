//! Dropping old blocks from the front of a chain.

use crate::blockchain::Blockchain;
use vstd::prelude::*;

verus! {

/// Number of most recent blocks that the prune endpoint keeps.
pub const RETAIN_COUNT: usize = 100;

/// The blocks that pruning `blocks` down to `retain_count` leaves.
pub open spec fn pruned<T>(blocks: Seq<T>, retain_count: nat) -> Seq<T> {
    if blocks.len() <= retain_count {
        blocks
    } else {
        blocks.subrange(blocks.len() - retain_count, blocks.len() as int)
    }
}

/// Keeps the most recent `retain_count` blocks, in order. After a prune the
/// first block's `prev_hash` generally names a block that is gone. The
/// chain is never emptied, so at least one block is kept.
pub fn prune_chain(chain: &mut Blockchain, retain_count: usize)
    requires
        retain_count > 0,
    ensures
        final(chain).blocks@ == pruned(old(chain).blocks@, retain_count as nat),
        old(chain).wf() ==> final(chain).wf(),
{
    if chain.blocks.len() > retain_count {
        let drop_count = chain.blocks.len() - retain_count;
        let kept = chain.blocks.split_off(drop_count);
        chain.blocks = kept;
    }
}

} // verus!
