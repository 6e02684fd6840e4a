//! The record a successful sync publishes, and the mined/unmined dedup view.

use vstd::prelude::*;

use crate::types::{BalanceUpdate, Hash32, MinedOp};

verus! {

/// What one successful sync changed: the new head, the window bounds, the
/// reorg depth, and the operations and balance updates that became mined or
/// unmined. Lists are flattened oldest block first, log order within a block.
#[derive(Default, Debug, Eq, PartialEq)]
pub struct ChainUpdate {
    pub latest_block_number: u64,
    pub latest_block_hash: Hash32,
    /// Seconds since the epoch.
    pub latest_block_timestamp: u64,
    /// Blocks before this number are no longer tracked, so no further
    /// updates related to them will be sent.
    pub earliest_remembered_block_number: u64,
    pub reorg_depth: u64,
    pub mined_ops: Vec<MinedOp>,
    pub unmined_ops: Vec<MinedOp>,
    /// Balance updates mined by the blocks this update adds.
    pub entity_balance_updates: Vec<BalanceUpdate>,
    /// Balance updates unmined due to a reorg.
    pub unmined_entity_balance_updates: Vec<BalanceUpdate>,
    /// Whether this update's reorg was at least as deep as the whole
    /// remembered history.
    pub reorg_larger_than_history: bool,
}

/// The mined and unmined lists with ops appearing in both (by hash)
/// cancelled out.
#[derive(Debug)]
pub struct DedupedOps {
    pub mined_ops: Vec<MinedOp>,
    pub unmined_ops: Vec<MinedOp>,
}

/// Whether some op in `s` has hash `h`.
pub open spec fn contains_hash(s: Seq<MinedOp>, h: Hash32) -> bool {
    exists|i: int| 0 <= i < s.len() && s[i].hash == h
}

/// `s` with every op whose hash appears in `other` removed, keeping order.
pub open spec fn without_hashes_of(s: Seq<MinedOp>, other: Seq<MinedOp>) -> Seq<MinedOp>
    decreases s.len(),
{
    if s.len() == 0 {
        Seq::empty()
    } else {
        let rest = without_hashes_of(s.drop_last(), other);
        if contains_hash(other, s.last().hash) {
            rest
        } else {
            rest.push(s.last())
        }
    }
}

/// Whether some op in `v` has hash `h`.
fn vec_contains_hash(v: &Vec<MinedOp>, h: &Hash32) -> (r: bool)
    ensures
        r == contains_hash(v@, *h),
{
    let mut i: usize = 0;
    while i < v.len()
        invariant
            0 <= i <= v@.len(),
            forall|j: int| 0 <= j < i ==> v@[j].hash != *h,
        decreases v@.len() - i,
    {
        if v[i].hash == *h {
            return true;
        }
        i += 1;
    }
    false
}

/// `out` is `s` filtered down to the ops whose hash does not occur in
/// `other`.
fn filter_ops_without_hashes_of(s: &Vec<MinedOp>, other: &Vec<MinedOp>) -> (out: Vec<MinedOp>)
    ensures
        out@ == without_hashes_of(s@, other@),
{
    let mut out: Vec<MinedOp> = Vec::new();
    let mut i: usize = 0;
    while i < s.len()
        invariant
            0 <= i <= s@.len(),
            out@ == without_hashes_of(s@.take(i as int), other@),
        decreases s@.len() - i,
    {
        proof {
            assert(s@.take(i + 1).drop_last() =~= s@.take(i as int));
            assert(s@.take(i + 1).last() == s@[i as int]);
        }
        if !vec_contains_hash(other, &s[i].hash) {
            out.push(s[i]);
        }
        i += 1;
    }
    proof {
        assert(s@.take(s@.len() as int) =~= s@);
    }
    out
}

impl ChainUpdate {
    /// Cancels out ops that appear in both the mined and the unmined list:
    /// such ops were reorged and re-mined within one update, so consumers
    /// should treat them as no-ops. The lists on `self` are untouched.
    pub fn deduped_ops(&self) -> (r: DedupedOps)
        ensures
            r.mined_ops@ == without_hashes_of(self.mined_ops@, self.unmined_ops@),
            r.unmined_ops@ == without_hashes_of(self.unmined_ops@, self.mined_ops@),
    {
        let mined_ops = filter_ops_without_hashes_of(&self.mined_ops, &self.unmined_ops);
        let unmined_ops = filter_ops_without_hashes_of(&self.unmined_ops, &self.mined_ops);
        DedupedOps { mined_ops, unmined_ops }
    }
}

/// Every op kept by `without_hashes_of(s, other)` comes from `s` and has a
/// hash that does not occur in `other`.
proof fn lemma_without_hashes_of_props(s: Seq<MinedOp>, other: Seq<MinedOp>)
    ensures
        forall|i: int|
            0 <= i < without_hashes_of(s, other).len() ==> {
                &&& !contains_hash(other, (#[trigger] without_hashes_of(s, other)[i]).hash)
                &&& exists|k: int| 0 <= k < s.len() && s[k] == without_hashes_of(s, other)[i]
            },
    decreases s.len(),
{
    if s.len() > 0 {
        lemma_without_hashes_of_props(s.drop_last(), other);
        let rest = without_hashes_of(s.drop_last(), other);
        assert forall|i: int| 0 <= i < without_hashes_of(s, other).len() implies {
            &&& !contains_hash(other, (#[trigger] without_hashes_of(s, other)[i]).hash)
            &&& exists|k: int| 0 <= k < s.len() && s[k] == without_hashes_of(s, other)[i]
        } by {
            if i < rest.len() {
                let k = choose|k: int|
                    0 <= k < s.drop_last().len() && s.drop_last()[k] == rest[i];
                assert(s[k] == without_hashes_of(s, other)[i]);
            } else {
                assert(s[s.len() - 1] == without_hashes_of(s, other)[i]);
            }
        }
    }
}

/// The deduped lists are disjoint (no hash occurs in both) and each of
/// their ops comes from the corresponding original list, so their union is
/// a subset of the original mined and unmined ops.
pub proof fn lemma_deduped_ops_disjoint_subset(u: ChainUpdate, d: DedupedOps)
    requires
        d.mined_ops@ == without_hashes_of(u.mined_ops@, u.unmined_ops@),
        d.unmined_ops@ == without_hashes_of(u.unmined_ops@, u.mined_ops@),
    ensures
        forall|i: int, j: int|
            0 <= i < d.mined_ops@.len() && 0 <= j < d.unmined_ops@.len()
                ==> (#[trigger] d.mined_ops@[i]).hash != (#[trigger] d.unmined_ops@[j]).hash,
        forall|i: int|
            0 <= i < d.mined_ops@.len() ==> u.mined_ops@.contains(#[trigger] d.mined_ops@[i]),
        forall|i: int|
            0 <= i < d.unmined_ops@.len() ==> u.unmined_ops@.contains(#[trigger] d.unmined_ops@[i]),
{
    lemma_without_hashes_of_props(u.mined_ops@, u.unmined_ops@);
    lemma_without_hashes_of_props(u.unmined_ops@, u.mined_ops@);
    assert forall|i: int, j: int|
        0 <= i < d.mined_ops@.len() && 0 <= j < d.unmined_ops@.len() implies (
    #[trigger] d.mined_ops@[i]).hash != (#[trigger] d.unmined_ops@[j]).hash by {
        let k = choose|k: int|
            0 <= k < u.unmined_ops@.len() && u.unmined_ops@[k] == d.unmined_ops@[j];
        assert(!contains_hash(u.unmined_ops@, d.mined_ops@[i].hash));
    }
    assert forall|i: int| 0 <= i < d.mined_ops@.len() implies u.mined_ops@.contains(
        #[trigger] d.mined_ops@[i],
    ) by {
        let k = choose|k: int| 0 <= k < u.mined_ops@.len() && u.mined_ops@[k] == d.mined_ops@[i];
    }
    assert forall|i: int| 0 <= i < d.unmined_ops@.len() implies u.unmined_ops@.contains(
        #[trigger] d.unmined_ops@[i],
    ) by {
        let k = choose|k: int|
            0 <= k < u.unmined_ops@.len() && u.unmined_ops@[k] == d.unmined_ops@[i];
    }
}

} // verus!
