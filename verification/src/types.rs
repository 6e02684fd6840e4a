//! Plain data model of the tracker: hashes, addresses, 256-bit words,
//! mined operations, balance updates, block summaries and settings.
//!
//! Chain data reaches the library as values of these types; the embedding
//! application converts between them and its RPC types at the boundary.

use vstd::prelude::*;

verus! {

/// A 32-byte word (a block hash, a user-operation hash or an event-topic
/// hash), held as four 64-bit limbs, most significant first.
#[derive(Clone, Copy, Debug, Default, PartialEq, Eq, Structural)]
pub struct Hash32 {
    pub w0: u64,
    pub w1: u64,
    pub w2: u64,
    pub w3: u64,
}

impl Hash32 {
    /// The all-zero word.
    pub fn zero() -> (r: Hash32)
        ensures
            r == (Hash32 { w0: 0u64, w1: 0u64, w2: 0u64, w3: 0u64 }),
    {
        Hash32 { w0: 0, w1: 0, w2: 0, w3: 0 }
    }
}

/// A 20-byte account address, held as two 64-bit limbs and one 32-bit limb,
/// most significant first.
#[derive(Clone, Copy, Debug, Default, PartialEq, Eq, Structural)]
pub struct Address {
    pub a0: u64,
    pub a1: u64,
    pub a2: u32,
}

impl Address {
    pub open spec fn spec_is_zero(self) -> bool {
        self.a0 == 0 && self.a1 == 0 && self.a2 == 0
    }

    /// Whether this is the all-zero address.
    pub fn is_zero(&self) -> (r: bool)
        ensures
            r == self.spec_is_zero(),
    {
        self.a0 == 0 && self.a1 == 0 && self.a2 == 0
    }

    /// The all-zero address.
    pub fn zero() -> (r: Address)
        ensures
            r.spec_is_zero(),
    {
        Address { a0: 0, a1: 0, a2: 0 }
    }
}

/// A 256-bit unsigned integer (nonces, gas costs and balance amounts), held
/// as four 64-bit limbs, most significant first. The tracker only carries
/// these values through; it never does arithmetic on them.
#[derive(Clone, Copy, Debug, Default, PartialEq, Eq, Structural)]
pub struct Uint256 {
    pub u0: u64,
    pub u1: u64,
    pub u2: u64,
    pub u3: u64,
}

impl Uint256 {
    /// The value zero.
    pub fn zero() -> (r: Uint256)
        ensures
            r == (Uint256 { u0: 0u64, u1: 0u64, u2: 0u64, u3: 0u64 }),
    {
        Uint256 { u0: 0, u1: 0, u2: 0, u3: 0 }
    }
}

/// Identifies a user operation by its sender and nonce.
#[derive(Clone, Copy, Debug, PartialEq, Eq, Structural)]
pub struct UserOperationId {
    pub sender: Address,
    pub nonce: Uint256,
}

/// A user operation that was observed as mined in some block.
#[derive(Clone, Copy, Debug, PartialEq, Eq)]
pub struct MinedOp {
    pub hash: Hash32,
    pub entry_point: Address,
    pub sender: Address,
    pub nonce: Uint256,
    pub actual_gas_cost: Uint256,
    pub paymaster: Option<Address>,
}

impl MinedOp {
    /// The `(sender, nonce)` identity of this operation.
    pub fn id(&self) -> (r: UserOperationId)
        ensures
            r.sender == self.sender,
            r.nonce == self.nonce,
    {
        UserOperationId { sender: self.sender, nonce: self.nonce }
    }
}

/// An on-chain deposit (`is_addition`) or withdrawal (`!is_addition`)
/// affecting an entity's balance at an entry point.
#[derive(Clone, Copy, Debug, PartialEq, Eq)]
pub struct BalanceUpdate {
    pub address: Address,
    pub entrypoint: Address,
    pub amount: Uint256,
    pub is_addition: bool,
}

/// The entry-point contract versions the tracker can decode events for.
#[derive(Clone, Copy, Debug, PartialEq, Eq, Structural)]
pub enum EntryPointVersion {
    V0_6,
    V0_7,
    Unspecified,
}

/// The header fields of a block as returned by the provider.
#[derive(Clone, Copy, Debug, PartialEq, Eq, Structural)]
pub struct BlockHeader {
    pub number: u64,
    pub hash: Hash32,
    pub parent_hash: Hash32,
    /// Seconds since the epoch.
    pub timestamp: u64,
}

/// One remembered block: its header fields plus the operations and balance
/// updates decoded from its logs, in log-emission order.
#[derive(Clone, Debug)]
pub struct BlockSummary {
    pub number: u64,
    pub hash: Hash32,
    pub timestamp: u64,
    pub parent_hash: Hash32,
    pub ops: Vec<MinedOp>,
    pub entity_balance_updates: Vec<BalanceUpdate>,
}

/// Why a sync attempt failed. Data-quality problems in single logs are not
/// errors: malformed or unrecognized logs are skipped during decoding.
#[derive(Clone, Copy, Debug, PartialEq, Eq, Structural)]
pub enum ChainError {
    /// The new head is further behind the remembered head than the whole
    /// history window. Counted; the caller retries with the next head.
    StaleHead,
    /// A provider call failed, or a retried block fetch kept coming back
    /// empty. The caller retries the whole sync.
    ProviderTransient,
    /// The provider returned a block that contradicts expectations: a wrong
    /// block number, a wrong hash, or a missing parent of a known block.
    ProviderInconsistent,
}

impl BlockSummary {
    /// Builds a summary with empty op lists from a provider block header.
    ///
    /// When `expected_block_number` is given and the header's number differs,
    /// this fails with [`ChainError::ProviderInconsistent`]: catching a
    /// disagreeing provider here keeps the history indexing sound.
    pub fn try_from_block_without_ops(block: BlockHeader, expected_block_number: Option<u64>) -> (r:
        Result<BlockSummary, ChainError>)
        ensures
            match expected_block_number {
                Some(n) if n != block.number => r matches Err(
                    e,
                ) && e == ChainError::ProviderInconsistent,
                _ => r matches Ok(s) && summary_of_header(s, block) && s.ops@.len() == 0
                    && s.entity_balance_updates@.len() == 0,
            },
    {
        if let Some(expected) = expected_block_number {
            if block.number != expected {
                return Err(ChainError::ProviderInconsistent);
            }
        }
        Ok(
            BlockSummary {
                number: block.number,
                hash: block.hash,
                timestamp: block.timestamp,
                parent_hash: block.parent_hash,
                ops: Vec::new(),
                entity_balance_updates: Vec::new(),
            },
        )
    }
}

/// The summary carries exactly the header's fields.
pub open spec fn summary_of_header(s: BlockSummary, h: BlockHeader) -> bool {
    &&& s.number == h.number
    &&& s.hash == h.hash
    &&& s.parent_hash == h.parent_hash
    &&& s.timestamp == h.timestamp
}

/// Tracker configuration; immutable after construction.
pub struct Settings {
    /// Maximum number of blocks remembered; must be positive.
    pub history_size: u64,
    /// Milliseconds to sleep between poll or retry attempts. The sleeping is
    /// done by the embedding application.
    pub poll_interval_millis: u64,
    /// The tracked entry points and the ABI version each one speaks.
    pub entry_point_addresses: Vec<(Address, EntryPointVersion)>,
    /// How many attempts a single block fetch gets, and how many times a
    /// whole sync is retried by the watcher.
    pub max_sync_retries: u64,
}

/// The version configured for address `a`: the tag paired with the first
/// occurrence of `a`, or `None` when `a` is not a tracked entry point.
pub open spec fn spec_version_of(eps: Seq<(Address, EntryPointVersion)>, a: Address) -> Option<
    EntryPointVersion,
>
    decreases eps.len(),
{
    if eps.len() == 0 {
        None
    } else if eps[0].0 == a {
        Some(eps[0].1)
    } else {
        spec_version_of(eps.skip(1), a)
    }
}

impl Settings {
    pub open spec fn wf(self) -> bool {
        self.history_size >= 1
    }

    /// Looks up which entry-point version is configured for `a`.
    pub fn version_of(&self, a: &Address) -> (r: Option<EntryPointVersion>)
        ensures
            r == spec_version_of(self.entry_point_addresses@, *a),
    {
        let eps = &self.entry_point_addresses;
        let ghost all = eps@;
        proof {
            assert(all.skip(0) =~= all);
        }
        let mut i: usize = 0;
        while i < eps.len()
            invariant
                0 <= i <= eps.len(),
                all == eps@,
                all == self.entry_point_addresses@,
                spec_version_of(all, *a) == spec_version_of(all.skip(i as int), *a),
            decreases eps.len() - i,
        {
            proof {
                assert(all.skip(i as int)[0] == all[i as int]);
                assert(all.skip(i as int).skip(1) =~= all.skip(i + 1));
            }
            if eps[i].0 == *a {
                proof {
                    assert(all.skip(i as int).len() > 0);
                    assert(spec_version_of(all.skip(i as int), *a) == Some(all[i as int].1));
                }
                return Some(eps[i].1);
            }
            i += 1;
        }
        None
    }
}

} // verus!
