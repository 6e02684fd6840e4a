//! Laws of the sync engine that relate several of its functions.
//!
//! The per-function guarantees live on the functions themselves: the buffer
//! stays consecutive and hash linked (`Chain::wf` in the contracts of
//! [`crate::chain::Chain::begin_sync`] and [`crate::chain::Chain::on_event`]),
//! every update names the front of the new buffer as its earliest remembered
//! block, and the larger-than-history flag equals `reorg_depth >=
//! history_size` ([`crate::chain::applied_update`]). This module proves the
//! laws that span a whole update.

use vstd::prelude::*;

use crate::chain::{applied_update, flat_ops, linked};
use crate::types::{BlockSummary, Hash32, MinedOp};
use crate::update::ChainUpdate;

verus! {

/// How many ops of `s` have hash `h`.
pub open spec fn count_ops(s: Seq<MinedOp>, h: Hash32) -> int
    decreases s.len(),
{
    if s.len() == 0 {
        0
    } else {
        count_ops(s.drop_last(), h) + if s.last().hash == h {
            1int
        } else {
            0int
        }
    }
}

proof fn lemma_count_concat(a: Seq<MinedOp>, b: Seq<MinedOp>, h: Hash32)
    ensures
        count_ops(a + b, h) == count_ops(a, h) + count_ops(b, h),
    decreases b.len(),
{
    if b.len() == 0 {
        assert(a + b =~= a);
    } else {
        lemma_count_concat(a, b.drop_last(), h);
        assert((a + b).drop_last() =~= a + b.drop_last());
        assert((a + b).last() == b.last());
    }
}

proof fn lemma_flat_concat_pieces(a: Seq<BlockSummary>, b: Seq<BlockSummary>, h: Hash32)
    ensures
        count_ops(flat_ops(a + b), h) == count_ops(flat_ops(a), h) + count_ops(flat_ops(b), h),
    decreases b.len(),
{
    if b.len() == 0 {
        assert(a + b =~= a);
        assert(flat_ops(b) =~= Seq::<MinedOp>::empty());
    } else {
        lemma_flat_concat_pieces(a, b.drop_last(), h);
        assert((a + b).drop_last() =~= a + b.drop_last());
        assert((a + b).last() == b.last());
        lemma_count_concat(flat_ops(a + b.drop_last()), b.last().ops@, h);
        lemma_count_concat(flat_ops(b.drop_last()), b.last().ops@, h);
    }
}

/// Conservation of mined ops across one advance update: for any op hash,
/// what the update reports as mined minus what it reports as unmined
/// equals the change in the op's occurrences on the remembered chain, once
/// the blocks trimmed silently out of the window at the front are added
/// back. Summed over a run of updates this telescopes: an op reported
/// mined is either still in the window, or was reported unmined exactly
/// once, or left through the front of the window.
pub proof fn lemma_update_op_accounting(
    old_blocks: Seq<BlockSummary>,
    added: Seq<BlockSummary>,
    hsize: u64,
    u: ChainUpdate,
    new_blocks: Seq<BlockSummary>,
    h: Hash32,
)
    requires
        old_blocks.len() >= 1,
        added.len() >= 1,
        added[0].number <= old_blocks.last().number + 1,
        old_blocks.last().number + 1 - added[0].number <= old_blocks.len(),
        applied_update(old_blocks, added, hsize, u, new_blocks),
    ensures
        ({
            let depth = old_blocks.last().number + 1 - added[0].number;
            let keep = old_blocks.len() - depth;
            let pretrim = old_blocks.take(keep) + added;
            let start: int = if pretrim.len() > hsize {
                pretrim.len() - hsize
            } else {
                0
            };
            let trimmed = pretrim.take(start);
            count_ops(u.mined_ops@, h) - count_ops(u.unmined_ops@, h) == (count_ops(
                flat_ops(new_blocks),
                h,
            ) + count_ops(flat_ops(trimmed), h)) - count_ops(flat_ops(old_blocks), h)
        }),
{
    let depth = old_blocks.last().number + 1 - added[0].number;
    let keep = old_blocks.len() - depth;
    let pretrim = old_blocks.take(keep) + added;
    let start: int = if pretrim.len() > hsize {
        pretrim.len() - hsize
    } else {
        0
    };
    let trimmed = pretrim.take(start);
    assert(old_blocks =~= old_blocks.take(keep) + old_blocks.skip(keep));
    lemma_flat_concat_pieces(old_blocks.take(keep), old_blocks.skip(keep), h);
    lemma_flat_concat_pieces(old_blocks.take(keep), added, h);
    assert(pretrim =~= trimmed + pretrim.skip(start));
    lemma_flat_concat_pieces(trimmed, pretrim.skip(start), h);
    assert(count_ops(flat_ops(old_blocks), h) == count_ops(flat_ops(old_blocks.take(keep)), h)
        + count_ops(flat_ops(old_blocks.skip(keep)), h)) by {
        assert(flat_ops(old_blocks) == flat_ops(old_blocks.take(keep) + old_blocks.skip(keep)));
    }
    assert(count_ops(flat_ops(pretrim), h) == count_ops(flat_ops(trimmed), h) + count_ops(
        flat_ops(new_blocks),
        h,
    )) by {
        assert(flat_ops(pretrim) == flat_ops(trimmed + pretrim.skip(start)));
        assert(new_blocks == pretrim.skip(start));
    }
}

/// Conservation of mined ops across one window rebuild: nothing is
/// reported unmined, and what is reported mined is exactly what the new
/// window holds. Ops of the discarded old window are not reported; this is
/// why, across a forced rebuild, the op accounting restarts with the new
/// window rather than telescoping through it.
pub proof fn lemma_reset_op_accounting(
    pending: Seq<BlockSummary>,
    eps: Seq<(crate::types::Address, crate::types::EntryPointVersion)>,
    logs: Seq<Vec<crate::events::RawLog>>,
    u: ChainUpdate,
    new_blocks: Seq<BlockSummary>,
    h: Hash32,
)
    requires
        logs.len() == pending.len(),
        crate::chain::reset_complete(pending, eps, logs, u, new_blocks),
    ensures
        count_ops(u.unmined_ops@, h) == 0,
        count_ops(u.mined_ops@, h) == count_ops(flat_ops(new_blocks), h),
{
    assert(crate::chain::blocks_filled(new_blocks, pending, eps, logs));
    crate::chain::lemma_flat_filled(new_blocks, pending, eps, logs);
}

/// The reorg depth of an advance update is zero exactly when no remembered
/// block was removed from the chain: the old buffer stays a prefix of the
/// untrimmed new chain. This needs the new head to differ from the
/// remembered head (which the watcher guarantees, since it only syncs to a
/// head hash it has not seen), and it needs a connect walk that only
/// replaces a remembered block with a block of a different hash, which is
/// what the sync engine's connect walk does.
pub proof fn lemma_reorg_depth_zero_iff(
    old_blocks: Seq<BlockSummary>,
    added: Seq<BlockSummary>,
    hsize: u64,
    u: ChainUpdate,
    new_blocks: Seq<BlockSummary>,
)
    requires
        linked(old_blocks),
        linked(added),
        old_blocks.len() >= 1,
        added.len() >= 1,
        added[0].number <= old_blocks.last().number + 1,
        added[0].number >= old_blocks[0].number,
        added.last().hash != old_blocks.last().hash,
        (added.len() >= 2 && added[0].number <= old_blocks.last().number) ==> added[0].hash
            != old_blocks[added[0].number - old_blocks[0].number].hash,
        applied_update(old_blocks, added, hsize, u, new_blocks),
    ensures
        ({
            let depth = old_blocks.last().number + 1 - added[0].number;
            let keep = old_blocks.len() - depth;
            let pretrim = old_blocks.take(keep) + added;
            u.reorg_depth == 0 <==> old_blocks.is_prefix_of(pretrim)
        }),
{
    crate::chain::lemma_linked_numbers(old_blocks);
    let depth = old_blocks.last().number + 1 - added[0].number;
    let keep = old_blocks.len() - depth;
    let pretrim = old_blocks.take(keep) + added;
    assert(old_blocks.last().number == old_blocks[0].number + old_blocks.len() - 1);
    assert(keep == added[0].number - old_blocks[0].number);
    if depth == 0 {
        assert(old_blocks.take(keep) =~= old_blocks);
        assert(pretrim.subrange(0, old_blocks.len() as int) =~= old_blocks);
        assert(old_blocks.is_prefix_of(pretrim));
    } else {
        if old_blocks.is_prefix_of(pretrim) {
            assert(old_blocks.len() <= pretrim.len());
            assert(added.len() >= depth);
            assert(old_blocks[keep] == pretrim.subrange(0, old_blocks.len() as int)[keep]);
            assert(pretrim[keep] == added[0]);
            assert(old_blocks[keep] == added[0]);
            if added.len() >= 2 {
                if added[0].number <= old_blocks.last().number {
                    assert(old_blocks[keep].hash == added[0].hash);
                    assert(false);
                } else {
                    assert(depth <= 0);
                    assert(false);
                }
            } else {
                assert(depth == 1);
                assert(keep == old_blocks.len() - 1);
                assert(old_blocks[keep] == old_blocks.last());
                assert(added[0] == added.last());
                assert(false);
            }
        }
    }
}

} // verus!

