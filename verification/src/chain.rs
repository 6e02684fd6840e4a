//! The sync engine: the remembered window of blocks and the reconciliation
//! state machine.
//!
//! The engine never performs I/O. A sync starts with [`Chain::begin_sync`]
//! and is driven by feeding each fetch result to [`Chain::on_event`]; both
//! return the next [`SyncAction`] for the embedding application to perform,
//! until the action is [`SyncAction::Done`] or [`SyncAction::Fail`].

use std::collections::VecDeque;

use vstd::prelude::*;

use crate::events::{
    balances_of, mined_ops_of, EventKind, EventSelector, RawLog,
};
use crate::types::{
    summary_of_header, Address, BalanceUpdate, BlockHeader, BlockSummary,
    ChainError, EntryPointVersion, Hash32, MinedOp, Settings,
};
use crate::update::ChainUpdate;

verus! {

/// Consecutive blocks: each block's number is its predecessor's plus one,
/// and each block's parent hash is its predecessor's hash.
pub open spec fn linked(s: Seq<BlockSummary>) -> bool {
    forall|i: int|
        1 <= i < s.len() ==> {
            &&& (#[trigger] s[i]).number == s[i - 1].number + 1
            &&& s[i].parent_hash == s[i - 1].hash
        }
}

proof fn lemma_linked_number_at(s: Seq<BlockSummary>, i: int)
    requires
        linked(s),
        0 <= i < s.len(),
    ensures
        s[i].number == s[0].number + i,
    decreases i,
{
    if i > 0 {
        lemma_linked_number_at(s, i - 1);
    }
}

/// In a linked run the numbers are the front's number plus the index.
pub proof fn lemma_linked_numbers(s: Seq<BlockSummary>)
    requires
        linked(s),
    ensures
        forall|i: int| 0 <= i < s.len() ==> (#[trigger] s[i]).number == s[0].number + i,
{
    assert forall|i: int| 0 <= i < s.len() implies (#[trigger] s[i]).number == s[0].number + i by {
        lemma_linked_number_at(s, i);
    }
}

/// All ops of `s`, oldest block first, in-block order preserved.
pub open spec fn flat_ops(s: Seq<BlockSummary>) -> Seq<MinedOp>
    decreases s.len(),
{
    if s.len() == 0 {
        Seq::empty()
    } else {
        flat_ops(s.drop_last()) + s.last().ops@
    }
}

/// All balance updates of `s`, oldest block first, in-block order preserved.
pub open spec fn flat_balances(s: Seq<BlockSummary>) -> Seq<BalanceUpdate>
    decreases s.len(),
{
    if s.len() == 0 {
        Seq::empty()
    } else {
        flat_balances(s.drop_last()) + s.last().entity_balance_updates@
    }
}

proof fn lemma_flat_take_succ(s: Seq<BlockSummary>, j: int)
    requires
        0 <= j < s.len(),
    ensures
        flat_ops(s.take(j + 1)) == flat_ops(s.take(j)) + s[j].ops@,
        flat_balances(s.take(j + 1)) == flat_balances(s.take(j)) + s[j].entity_balance_updates@,
{
    assert(s.take(j + 1).drop_last() =~= s.take(j));
    assert(s.take(j + 1).last() == s[j]);
}

/// The state of an in-flight sync, between two engine steps.
pub enum SyncPhase {
    /// No sync in flight.
    Idle,
    /// Walking parent hashes backwards from the new head until the front of
    /// `pending` has number `min_number`; a fetch of the front's parent is
    /// outstanding, issued as attempt number `attempt`.
    WalkingBack {
        pending: VecDeque<BlockSummary>,
        min_number: u64,
        attempt: u64,
        reset: bool,
    },
    /// Walking further backwards until `pending` connects to a block still
    /// in the buffer; a single-attempt fetch of the front's parent is
    /// outstanding.
    Connecting { pending: VecDeque<BlockSummary> },
    /// A log fetch for every block of `pending`, in order, is outstanding.
    LoadingOps { pending: VecDeque<BlockSummary>, reset: bool },
}

/// What the embedding application must do next to drive a sync.
#[derive(Debug)]
pub enum SyncAction {
    /// Fetch the block with this hash and report the result.
    FetchBlock { hash: Hash32 },
    /// Sleep one poll interval, then fetch the block with this hash.
    SleepThenFetchBlock { hash: Hash32 },
    /// Fetch the logs of each listed block (by hash, so a mid-reorg node
    /// answers for a definite block), and report the batches in the same
    /// order. Fetches may run concurrently.
    FetchLogs { hashes: Vec<Hash32> },
    /// The sync finished; publish this update.
    Done { update: ChainUpdate },
    /// The sync failed; the caller may retry with the same head later.
    Fail { error: ChainError },
}

/// A fetch result the embedding application reports back to the engine.
pub enum SyncEvent {
    /// The requested block, as returned by the provider.
    Block { header: BlockHeader },
    /// The provider answered, but knows no block with the requested hash.
    BlockNotFound,
    /// The block fetch itself failed.
    BlockUnavailable,
    /// One decoded log batch per requested block hash, in request order.
    Logs { logs: Vec<Vec<RawLog>> },
    /// The log fetch failed.
    LogsUnavailable,
}

/// Holds the currently known recent state of the chain: a window of at most
/// `settings.history_size` consecutive block summaries, oldest first.
pub struct Chain {
    pub settings: Settings,
    /// Oldest block at the front, newest at the back.
    pub blocks: VecDeque<BlockSummary>,
    pub sync_error_count: u64,
    /// Addresses whose logs are fetched: the configured entry points.
    pub filter_addresses: Vec<Address>,
    /// Event signatures whose logs are fetched: the shapes of every enabled
    /// entry-point version.
    pub filter_events: Vec<EventSelector>,
    pub phase: SyncPhase,
}

/// Whether some configured entry point speaks version `v`.
pub open spec fn has_version(eps: Seq<(Address, EntryPointVersion)>, v: EntryPointVersion) -> bool {
    exists|i: int| 0 <= i < eps.len() && (#[trigger] eps[i]).1 == v
}

/// The three selectors of one version, in subscription order.
pub open spec fn selectors_of(v: EntryPointVersion) -> Seq<EventSelector> {
    seq![
        EventSelector { version: v, kind: EventKind::UserOperation },
        EventSelector { version: v, kind: EventKind::Deposited },
        EventSelector { version: v, kind: EventKind::Withdrawn },
    ]
}

/// The event signatures to subscribe to under configuration `eps`: the
/// selectors of each version some entry point speaks, v0.6 first.
pub open spec fn spec_filter_events(eps: Seq<(Address, EntryPointVersion)>) -> Seq<EventSelector> {
    (if has_version(eps, EntryPointVersion::V0_6) {
        selectors_of(EntryPointVersion::V0_6)
    } else {
        Seq::empty()
    }) + (if has_version(eps, EntryPointVersion::V0_7) {
        selectors_of(EntryPointVersion::V0_7)
    } else {
        Seq::empty()
    })
}

/// The configured entry-point addresses, in configuration order.
pub open spec fn spec_filter_addresses(eps: Seq<(Address, EntryPointVersion)>) -> Seq<Address> {
    Seq::new(eps.len(), |i: int| eps[i].0)
}

fn vec_has_version(eps: &Vec<(Address, EntryPointVersion)>, v: EntryPointVersion) -> (r: bool)
    ensures
        r == has_version(eps@, v),
{
    let mut i: usize = 0;
    while i < eps.len()
        invariant
            0 <= i <= eps@.len(),
            forall|j: int| 0 <= j < i ==> (#[trigger] eps@[j]).1 != v,
        decreases eps@.len() - i,
    {
        if eps[i].1 == v {
            return true;
        }
        i += 1;
    }
    false
}

impl Chain {
    /// The buffer is well formed: consecutive, hash linked, and no longer
    /// than the configured window.
    pub open spec fn buffer_wf(self) -> bool {
        &&& self.settings.wf()
        &&& linked(self.blocks@)
        &&& self.blocks@.len() <= self.settings.history_size
    }

    /// Builds a tracker with an empty history from its settings.
    pub fn new(settings: Settings) -> (c: Chain)
        requires
            settings.wf(),
        ensures
            c.settings == settings,
            c.blocks@.len() == 0,
            c.sync_error_count == 0,
            c.phase is Idle,
            c.filter_addresses@ == spec_filter_addresses(settings.entry_point_addresses@),
            c.filter_events@ == spec_filter_events(settings.entry_point_addresses@),
            c.buffer_wf(),
    {
        let ghost eps = settings.entry_point_addresses@;
        let mut filter_events: Vec<EventSelector> = Vec::new();
        if vec_has_version(&settings.entry_point_addresses, EntryPointVersion::V0_6) {
            filter_events.push(
                EventSelector { version: EntryPointVersion::V0_6, kind: EventKind::UserOperation },
            );
            filter_events.push(
                EventSelector { version: EntryPointVersion::V0_6, kind: EventKind::Deposited },
            );
            filter_events.push(
                EventSelector { version: EntryPointVersion::V0_6, kind: EventKind::Withdrawn },
            );
        }
        if vec_has_version(&settings.entry_point_addresses, EntryPointVersion::V0_7) {
            filter_events.push(
                EventSelector { version: EntryPointVersion::V0_7, kind: EventKind::UserOperation },
            );
            filter_events.push(
                EventSelector { version: EntryPointVersion::V0_7, kind: EventKind::Deposited },
            );
            filter_events.push(
                EventSelector { version: EntryPointVersion::V0_7, kind: EventKind::Withdrawn },
            );
        }
        proof {
            assert(filter_events@ =~= spec_filter_events(eps));
        }
        let mut filter_addresses: Vec<Address> = Vec::new();
        let mut i: usize = 0;
        while i < settings.entry_point_addresses.len()
            invariant
                0 <= i <= eps.len(),
                eps == settings.entry_point_addresses@,
                filter_addresses@ =~= spec_filter_addresses(eps).take(i as int),
            decreases eps.len() - i,
        {
            filter_addresses.push(settings.entry_point_addresses[i].0);
            i += 1;
        }
        proof {
            assert(spec_filter_addresses(eps).take(eps.len() as int) =~= spec_filter_addresses(
                eps,
            ));
        }
        Chain {
            settings,
            blocks: VecDeque::new(),
            sync_error_count: 0,
            filter_addresses,
            filter_events,
            phase: SyncPhase::Idle,
        }
    }

    /// The remembered block with the given number, if it is inside the
    /// window: with `front` the oldest remembered number, block `number`
    /// sits at index `number - front`.
    pub fn block_with_number(&self, number: u64) -> (r: Option<&BlockSummary>)
        ensures
            match r {
                Some(b) => {
                    &&& self.blocks@.len() > 0
                    &&& number >= self.blocks@[0].number
                    &&& number - self.blocks@[0].number < self.blocks@.len()
                    &&& *b == self.blocks@[number - self.blocks@[0].number]
                },
                None => self.blocks@.len() == 0 || number < self.blocks@[0].number || number
                    - self.blocks@[0].number >= self.blocks@.len(),
            },
    {
        if self.blocks.len() == 0 {
            return None;
        }
        let earliest_number = self.blocks[0].number;
        if number < earliest_number {
            return None;
        }
        let offset = number - earliest_number;
        if offset < self.blocks.len() as u64 {
            Some(&self.blocks[offset as usize])
        } else {
            None
        }
    }

    /// Assembles an update around the buffer's current head and window.
    fn new_update(
        &self,
        reorg_depth: u64,
        mined_ops: Vec<MinedOp>,
        unmined_ops: Vec<MinedOp>,
        entity_balance_updates: Vec<BalanceUpdate>,
        unmined_entity_balance_updates: Vec<BalanceUpdate>,
        reorg_larger_than_history: bool,
    ) -> (u: ChainUpdate)
        requires
            self.blocks@.len() > 0,
        ensures
            u.latest_block_number == self.blocks@.last().number,
            u.latest_block_hash == self.blocks@.last().hash,
            u.latest_block_timestamp == self.blocks@.last().timestamp,
            u.earliest_remembered_block_number == self.blocks@[0].number,
            u.reorg_depth == reorg_depth,
            u.mined_ops == mined_ops,
            u.unmined_ops == unmined_ops,
            u.entity_balance_updates == entity_balance_updates,
            u.unmined_entity_balance_updates == unmined_entity_balance_updates,
            u.reorg_larger_than_history == reorg_larger_than_history,
    {
        let latest_block = &self.blocks[self.blocks.len() - 1];
        ChainUpdate {
            latest_block_number: latest_block.number,
            latest_block_hash: latest_block.hash,
            latest_block_timestamp: latest_block.timestamp,
            earliest_remembered_block_number: self.blocks[0].number,
            reorg_depth,
            mined_ops,
            unmined_ops,
            entity_balance_updates,
            unmined_entity_balance_updates,
            reorg_larger_than_history,
        }
    }
}

/// All ops of the blocks of `blocks` from index `start` on, flattened.
fn ops_from(blocks: &VecDeque<BlockSummary>, start: usize) -> (r: Vec<MinedOp>)
    requires
        start <= blocks@.len(),
    ensures
        r@ == flat_ops(blocks@.skip(start as int)),
{
    let ghost tail = blocks@.skip(start as int);
    let mut r: Vec<MinedOp> = Vec::new();
    let mut i: usize = start;
    while i < blocks.len()
        invariant
            start <= i <= blocks@.len(),
            tail == blocks@.skip(start as int),
            r@ == flat_ops(tail.take(i - start)),
        decreases blocks@.len() - i,
    {
        let ops = &blocks[i].ops;
        let mut j: usize = 0;
        while j < ops.len()
            invariant
                start <= i < blocks@.len(),
                0 <= j <= ops@.len(),
                tail == blocks@.skip(start as int),
                ops == &blocks@[i as int].ops,
                r@ == flat_ops(tail.take(i - start)) + ops@.take(j as int),
            decreases ops@.len() - j,
        {
            r.push(ops[j]);
            proof {
                assert(r@ =~= flat_ops(tail.take(i - start)) + ops@.take(j + 1));
            }
            j += 1;
        }
        proof {
            lemma_flat_take_succ(tail, i - start);
            assert(tail[i - start] == blocks@[i as int]);
            assert(ops@.take(ops@.len() as int) =~= ops@);
            assert(r@ == flat_ops(tail.take(i - start + 1)));
        }
        i += 1;
    }
    proof {
        assert(tail.take(tail.len() as int) =~= tail);
    }
    r
}

/// Largest number of log fetches a sync keeps in flight at once. The
/// embedding application bounds its concurrent `get_logs` calls with this
/// cap; consumers tuning their provider rely on it.
pub const MAX_LOAD_OPS_CONCURRENCY: u64 = 64;

/// Consecutive stale heads tolerated before a forced reset.
pub const SYNC_ERROR_COUNT_MAX: u64 = 50;

impl Chain {
    /// Invariant of the in-flight sync state, by phase.
    pub open spec fn phase_wf(self) -> bool {
        match self.phase {
            SyncPhase::Idle => true,
            SyncPhase::WalkingBack { pending, min_number, attempt, reset } => self.walk_phase_wf(
                pending@,
                min_number,
                attempt,
                reset,
            ),
            SyncPhase::Connecting { pending } => self.connect_phase_wf(pending@),
            SyncPhase::LoadingOps { pending, reset } => self.loading_phase_wf(pending@, reset),
        }
    }

    pub open spec fn walk_phase_wf(
        self,
        pending: Seq<BlockSummary>,
        min_number: u64,
        attempt: u64,
        reset: bool,
    ) -> bool {
        &&& pending.len() >= 1
        &&& linked(pending)
        &&& pending[0].number > min_number
        &&& 1 <= attempt <= self.settings.max_sync_retries
        &&& if reset {
            pending.last().number <= min_number + (self.settings.history_size - 1)
        } else {
            &&& self.blocks@.len() >= 1
            &&& self.blocks@.last().number < u64::MAX
            &&& min_number == self.blocks@.last().number + 1
            &&& pending[0].number >= self.blocks@[0].number
        }
    }

    /// The front of `pending` was pushed during the connect walk, or is the
    /// head itself: if it replaces a remembered block, its hash differs.
    /// This is what makes a positive reorg depth mean a real replacement.
    pub open spec fn replaced_front_differs(self, pending: Seq<BlockSummary>) -> bool {
        (pending.len() >= 2 && pending[0].number <= self.blocks@.last().number)
            ==> pending[0].hash != self.blocks@[pending[0].number - self.blocks@[0].number].hash
    }

    pub open spec fn connect_phase_wf(self, pending: Seq<BlockSummary>) -> bool {
        &&& pending.len() >= 1
        &&& linked(pending)
        &&& self.blocks@.len() >= 1
        &&& self.blocks@.last().number < u64::MAX
        &&& pending[0].number <= self.blocks@.last().number + 1
        &&& pending[0].number >= 1
        &&& pending[0].number - 1 >= self.blocks@[0].number
        &&& self.blocks@[pending[0].number - 1 - self.blocks@[0].number].hash
            != pending[0].parent_hash
        &&& self.replaced_front_differs(pending)
    }

    pub open spec fn loading_phase_wf(self, pending: Seq<BlockSummary>, reset: bool) -> bool {
        &&& pending.len() >= 1
        &&& linked(pending)
        &&& if reset {
            pending.len() <= self.settings.history_size
        } else {
            &&& self.blocks@.len() >= 1
            &&& self.blocks@.last().number < u64::MAX
            &&& pending[0].number <= self.blocks@.last().number + 1
            &&& pending[0].number >= self.blocks@[0].number
            &&& seam_ok(self.blocks@, pending)
            &&& self.replaced_front_differs(pending)
        }
    }

    /// Well-formed between any two engine steps.
    pub open spec fn wf(self) -> bool {
        self.buffer_wf() && self.phase_wf()
    }

    /// Which event the engine is waiting for, given its phase.
    pub open spec fn expects(self, event: SyncEvent) -> bool {
        match event {
            SyncEvent::Block { .. } => self.phase is WalkingBack || self.phase is Connecting,
            SyncEvent::BlockNotFound => self.phase is WalkingBack || self.phase is Connecting,
            SyncEvent::BlockUnavailable => self.phase is WalkingBack || self.phase is Connecting,
            SyncEvent::Logs { logs } => self.phase matches SyncPhase::LoadingOps { pending, .. }
                && logs@.len() == pending@.len(),
            SyncEvent::LogsUnavailable => self.phase is LoadingOps,
        }
    }

    /// `begin_sync` is callable: in the advance classification the head may
    /// not fall before the remembered window (the window indexing is not
    /// defined there), and the remembered head leaves room to count one
    /// block up.
    pub open spec fn can_sync_to(self, h: BlockHeader) -> bool {
        self.blocks@.len() > 0 ==> {
            let cur = self.blocks@.last().number;
            let hs = self.settings.history_size;
            (cur <= h.number + hs && h.number <= cur + hs) ==> (cur < u64::MAX && h.number
                >= self.blocks@[0].number)
        }
    }
}

/// Where the connect walk met the buffer: when any prefix of the buffer is
/// kept, the first pending block's parent link was checked against the last
/// kept block.
pub open spec fn seam_ok(blocks: Seq<BlockSummary>, pending: Seq<BlockSummary>) -> bool {
    pending[0].number - blocks[0].number >= 1 ==> blocks[pending[0].number - blocks[0].number
        - 1].hash == pending[0].parent_hash
}

/// The new head is behind the remembered head by more than the window.
pub open spec fn is_stale_head(blocks: Seq<BlockSummary>, h: BlockHeader, hsize: u64) -> bool {
    blocks.len() > 0 && blocks.last().number > h.number + hsize
}

/// The new head is ahead of the remembered head by more than the window.
pub open spec fn is_skip_ahead(blocks: Seq<BlockSummary>, h: BlockHeader, hsize: u64) -> bool {
    blocks.len() > 0 && blocks.last().number + hsize < h.number
}

/// The oldest block number a reset starting at head number `n` walks back
/// to: a full window when the chain is that long, else genesis.
pub open spec fn reset_min_number(n: u64, hsize: u64) -> u64 {
    if n >= hsize {
        (n - (hsize - 1)) as u64
    } else {
        0
    }
}

/// A sync is in the log-loading phase for exactly the blocks of `pending`,
/// and the action asks for their logs, in order.
pub open spec fn logs_requested(
    c: Chain,
    pending: Seq<BlockSummary>,
    reset: bool,
    r: SyncAction,
) -> bool {
    &&& c.phase matches SyncPhase::LoadingOps { pending: p, reset: rs } && p@ == pending && rs
        == reset
    &&& r matches SyncAction::FetchLogs { hashes } && hashes@.len() == pending.len() && forall|
        i: int,
    |
        0 <= i < pending.len() ==> hashes@[i] == (#[trigger] pending[i]).hash
}

/// Outcome of one connect-walk decision for front block `e = pending[0]`:
/// at genesis, below the remembered window, or on a matching parent link
/// the logs are requested; otherwise the block at `e`'s parent hash is
/// fetched (one attempt) to keep walking.
pub open spec fn connect_decided(c: Chain, pending: Seq<BlockSummary>, r: SyncAction) -> bool {
    let blocks = c.blocks@;
    let e = pending[0];
    if e.number == 0 || e.number - 1 < blocks[0].number || blocks[e.number - 1
        - blocks[0].number].hash == e.parent_hash {
        logs_requested(c, pending, false, r)
    } else {
        &&& c.phase matches SyncPhase::Connecting { pending: p } && p@ == pending
        &&& r matches SyncAction::FetchBlock { hash } && hash == e.parent_hash
    }
}

/// Outcome of one backward-walk decision: while the front of `pending` is
/// above `min_number` its parent is fetched (or the sync fails when no
/// fetch attempts are configured); once low enough, a reset requests logs
/// and an advance moves to the connect walk.
pub open spec fn walk_proceeded(
    c: Chain,
    pending: Seq<BlockSummary>,
    min_number: u64,
    reset: bool,
    r: SyncAction,
) -> bool {
    if pending[0].number > min_number {
        if c.settings.max_sync_retries == 0 {
            &&& c.phase is Idle
            &&& r matches SyncAction::Fail { error } && error == ChainError::ProviderTransient
        } else {
            &&& c.phase matches SyncPhase::WalkingBack {
                pending: p,
                min_number: m,
                attempt,
                reset: rs,
            } && p@ == pending && m == min_number && attempt == 1 && rs == reset
            &&& r matches SyncAction::FetchBlock { hash } && hash == pending[0].parent_hash
        }
    } else if reset {
        logs_requested(c, pending, true, r)
    } else {
        connect_decided(c, pending, r)
    }
}

/// A sync for head `h` was started with walk target `min_number`.
pub open spec fn sync_started(
    c: Chain,
    h: BlockHeader,
    min_number: u64,
    reset: bool,
    r: SyncAction,
) -> bool {
    exists|pending: Seq<BlockSummary>|
        {
            &&& pending.len() == 1
            &&& summary_of_header(pending[0], h)
            &&& pending[0].ops@.len() == 0
            &&& pending[0].entity_balance_updates@.len() == 0
            &&& #[trigger] walk_proceeded(c, pending, min_number, reset, r)
        }
}

impl Chain {
    /// Requests the logs of every block of `pending`, in order.
    fn request_logs(&mut self, pending: VecDeque<BlockSummary>, reset: bool) -> (r: SyncAction)
        requires
            old(self).buffer_wf(),
            old(self).loading_phase_wf(pending@, reset),
        ensures
            final(self).settings == old(self).settings,
            final(self).blocks@ == old(self).blocks@,
            final(self).sync_error_count == old(self).sync_error_count,
            final(self).filter_addresses == old(self).filter_addresses,
            final(self).filter_events == old(self).filter_events,
            final(self).wf(),
            logs_requested(*final(self), pending@, reset, r),
    {
        let mut hashes: Vec<Hash32> = Vec::new();
        let mut i: usize = 0;
        while i < pending.len()
            invariant
                0 <= i <= pending@.len(),
                hashes@.len() == i,
                forall|j: int| 0 <= j < i ==> hashes@[j] == (#[trigger] pending@[j]).hash,
            decreases pending@.len() - i,
        {
            hashes.push(pending[i].hash);
            i += 1;
        }
        self.phase = SyncPhase::LoadingOps { pending, reset };
        SyncAction::FetchLogs { hashes }
    }

    /// Decides whether `pending` already connects to the buffer, or whether
    /// its front's parent must be fetched to keep resolving the reorg.
    fn connect_or_proceed(&mut self, pending: VecDeque<BlockSummary>) -> (r: SyncAction)
        requires
            old(self).buffer_wf(),
            old(self).blocks@.len() >= 1,
            old(self).blocks@.last().number < u64::MAX,
            pending@.len() >= 1,
            linked(pending@),
            pending@[0].number <= old(self).blocks@.last().number + 1,
            pending@[0].number >= old(self).blocks@[0].number,
            old(self).replaced_front_differs(pending@),
        ensures
            final(self).settings == old(self).settings,
            final(self).blocks@ == old(self).blocks@,
            final(self).sync_error_count == old(self).sync_error_count,
            final(self).filter_addresses == old(self).filter_addresses,
            final(self).filter_events == old(self).filter_events,
            final(self).wf(),
            connect_decided(*final(self), pending@, r),
    {
        proof {
            lemma_linked_numbers(self.blocks@);
        }
        let earliest = self.blocks[0].number;
        let e_number = pending[0].number;
        if e_number == 0 {
            return self.request_logs(pending, false);
        }
        if e_number - 1 < earliest {
            // The reorg is deeper than the tracked history; connect here.
            return self.request_logs(pending, false);
        }
        let offset = (e_number - 1 - earliest) as usize;
        let known_hash = self.blocks[offset].hash;
        if known_hash == pending[0].parent_hash {
            return self.request_logs(pending, false);
        }
        let hash = pending[0].parent_hash;
        self.phase = SyncPhase::Connecting { pending };
        SyncAction::FetchBlock { hash }
    }

    /// Decides whether the backward walk needs another parent fetch, and
    /// where to hand over once it is done.
    fn walk_or_proceed(&mut self, pending: VecDeque<BlockSummary>, min_number: u64, reset: bool) -> (r:
        SyncAction)
        requires
            old(self).buffer_wf(),
            pending@.len() >= 1,
            linked(pending@),
            reset ==> pending@[0].number >= min_number && pending@.last().number <= min_number + (
            old(self).settings.history_size - 1),
            !reset ==> {
                &&& old(self).blocks@.len() >= 1
                &&& old(self).blocks@.last().number < u64::MAX
                &&& min_number == old(self).blocks@.last().number + 1
                &&& pending@[0].number >= old(self).blocks@[0].number
                &&& pending@.len() >= 2 ==> pending@[0].number >= min_number
            },
        ensures
            final(self).settings == old(self).settings,
            final(self).blocks@ == old(self).blocks@,
            final(self).sync_error_count == old(self).sync_error_count,
            final(self).filter_addresses == old(self).filter_addresses,
            final(self).filter_events == old(self).filter_events,
            final(self).wf(),
            walk_proceeded(*final(self), pending@, min_number, reset, r),
    {
        if pending[0].number > min_number {
            if self.settings.max_sync_retries == 0 {
                self.phase = SyncPhase::Idle;
                return SyncAction::Fail { error: ChainError::ProviderTransient };
            }
            let hash = pending[0].parent_hash;
            self.phase = SyncPhase::WalkingBack { pending, min_number, attempt: 1, reset };
            return SyncAction::FetchBlock { hash };
        }
        if reset {
            proof {
                let p = pending@;
                lemma_linked_numbers(p);
                assert(p.len() == p.last().number - p[0].number + 1);
            }
            return self.request_logs(pending, true);
        }
        self.connect_or_proceed(pending)
    }
}

/// `b` is `p` with its ops and balance updates filled in by decoding
/// `batch` under configuration `eps`.
pub open spec fn filled_from(
    b: BlockSummary,
    p: BlockSummary,
    eps: Seq<(Address, EntryPointVersion)>,
    batch: Vec<RawLog>,
) -> bool {
    &&& b.number == p.number
    &&& b.hash == p.hash
    &&& b.parent_hash == p.parent_hash
    &&& b.timestamp == p.timestamp
    &&& b.ops@ == mined_ops_of(eps, batch@)
    &&& b.entity_balance_updates@ == balances_of(eps, batch@)
}

/// `added` is `pending` with each block's ops filled from its log batch.
pub open spec fn blocks_filled(
    added: Seq<BlockSummary>,
    pending: Seq<BlockSummary>,
    eps: Seq<(Address, EntryPointVersion)>,
    logs: Seq<Vec<RawLog>>,
) -> bool {
    &&& added.len() == pending.len()
    &&& logs.len() == pending.len()
    &&& forall|j: int|
        0 <= j < added.len() ==> filled_from(#[trigger] added[j], pending[j], eps, logs[j])
}

/// All ops decoded from the per-block batches of `logs`, oldest batch
/// first.
pub open spec fn flat_decoded_ops(
    eps: Seq<(Address, EntryPointVersion)>,
    logs: Seq<Vec<RawLog>>,
) -> Seq<MinedOp>
    decreases logs.len(),
{
    if logs.len() == 0 {
        Seq::empty()
    } else {
        flat_decoded_ops(eps, logs.drop_last()) + mined_ops_of(eps, logs.last()@)
    }
}

/// All balance updates decoded from the per-block batches of `logs`.
pub open spec fn flat_decoded_balances(
    eps: Seq<(Address, EntryPointVersion)>,
    logs: Seq<Vec<RawLog>>,
) -> Seq<BalanceUpdate>
    decreases logs.len(),
{
    if logs.len() == 0 {
        Seq::empty()
    } else {
        flat_decoded_balances(eps, logs.drop_last()) + balances_of(eps, logs.last()@)
    }
}

/// How one advance commit transforms the buffer and what the update says:
/// with `depth` blocks reorged away, the kept prefix plus `added` forms the
/// new chain, which is then trimmed at the front to the window size; the
/// update reports `added`'s ops as mined and the dropped blocks' ops as
/// unmined.
pub open spec fn applied_update(
    old_blocks: Seq<BlockSummary>,
    added: Seq<BlockSummary>,
    hsize: u64,
    u: ChainUpdate,
    new_blocks: Seq<BlockSummary>,
) -> bool {
    let cur = old_blocks.last().number as int;
    let depth = cur + 1 - added[0].number;
    let keep = old_blocks.len() - depth;
    let pretrim = old_blocks.take(keep) + added;
    let start: int = if pretrim.len() > hsize {
        pretrim.len() - hsize
    } else {
        0
    };
    &&& u.reorg_depth == depth
    &&& u.reorg_larger_than_history == (depth >= hsize)
    &&& u.latest_block_number == added.last().number
    &&& u.latest_block_hash == added.last().hash
    &&& u.latest_block_timestamp == added.last().timestamp
    &&& u.earliest_remembered_block_number == new_blocks[0].number
    &&& u.mined_ops@ == flat_ops(added)
    &&& u.entity_balance_updates@ == flat_balances(added)
    &&& u.unmined_ops@ == flat_ops(old_blocks.skip(keep))
    &&& u.unmined_entity_balance_updates@ == flat_balances(old_blocks.skip(keep))
    &&& new_blocks == pretrim.skip(start)
}

/// A finished window rebuild: the new buffer is exactly the walked blocks
/// with their decoded ops, everything in it is reported mined, nothing is
/// reported unmined.
pub open spec fn reset_complete(
    pending: Seq<BlockSummary>,
    eps: Seq<(Address, EntryPointVersion)>,
    logs: Seq<Vec<RawLog>>,
    u: ChainUpdate,
    new_blocks: Seq<BlockSummary>,
) -> bool {
    &&& new_blocks.len() == pending.len()
    &&& forall|j: int|
        0 <= j < new_blocks.len() ==> filled_from(#[trigger] new_blocks[j], pending[j], eps, logs[j])
    &&& u.reorg_depth == 0
    &&& u.reorg_larger_than_history == false
    &&& u.latest_block_number == pending.last().number
    &&& u.latest_block_hash == pending.last().hash
    &&& u.latest_block_timestamp == pending.last().timestamp
    &&& u.earliest_remembered_block_number == pending[0].number
    &&& u.mined_ops@ == flat_decoded_ops(eps, logs)
    &&& u.entity_balance_updates@ == flat_decoded_balances(eps, logs)
    &&& u.unmined_ops@.len() == 0
    &&& u.unmined_entity_balance_updates@.len() == 0
}

/// A finished advance: the walked blocks, filled with their decoded ops,
/// were applied to the buffer as one [`applied_update`].
pub open spec fn advance_complete(
    old_blocks: Seq<BlockSummary>,
    pending: Seq<BlockSummary>,
    eps: Seq<(Address, EntryPointVersion)>,
    logs: Seq<Vec<RawLog>>,
    hsize: u64,
    u: ChainUpdate,
    new_blocks: Seq<BlockSummary>,
) -> bool {
    &&& u.mined_ops@ == flat_decoded_ops(eps, logs)
    &&& u.entity_balance_updates@ == flat_decoded_balances(eps, logs)
    &&& exists|added: Seq<BlockSummary>|
        #[trigger] blocks_filled(added, pending, eps, logs) && applied_update(
            old_blocks,
            added,
            hsize,
            u,
            new_blocks,
        )
}

proof fn lemma_linked_take(s: Seq<BlockSummary>, k: int)
    requires
        linked(s),
        0 <= k <= s.len(),
    ensures
        linked(s.take(k)),
{
    assert forall|i: int| 1 <= i < s.take(k).len() implies {
        &&& (#[trigger] s.take(k)[i]).number == s.take(k)[i - 1].number + 1
        &&& s.take(k)[i].parent_hash == s.take(k)[i - 1].hash
    } by {
        assert(s.take(k)[i] == s[i]);
        assert(s.take(k)[i - 1] == s[i - 1]);
    }
}

proof fn lemma_linked_skip(s: Seq<BlockSummary>, k: int)
    requires
        linked(s),
        0 <= k <= s.len(),
    ensures
        linked(s.skip(k)),
{
    assert forall|i: int| 1 <= i < s.skip(k).len() implies {
        &&& (#[trigger] s.skip(k)[i]).number == s.skip(k)[i - 1].number + 1
        &&& s.skip(k)[i].parent_hash == s.skip(k)[i - 1].hash
    } by {
        assert(s.skip(k)[i] == s[i + k]);
        assert(s.skip(k)[i - 1] == s[i - 1 + k]);
    }
}

proof fn lemma_linked_concat(a: Seq<BlockSummary>, b: Seq<BlockSummary>)
    requires
        linked(a),
        linked(b),
        a.len() > 0 && b.len() > 0 ==> b[0].number == a.last().number + 1 && b[0].parent_hash
            == a.last().hash,
    ensures
        linked(a + b),
{
    assert forall|i: int| 1 <= i < (a + b).len() implies {
        &&& (#[trigger] (a + b)[i]).number == (a + b)[i - 1].number + 1
        &&& (a + b)[i].parent_hash == (a + b)[i - 1].hash
    } by {
        if i < a.len() {
            assert((a + b)[i] == a[i]);
            assert((a + b)[i - 1] == a[i - 1]);
        } else if i == a.len() {
            assert((a + b)[i] == b[0]);
            assert((a + b)[i - 1] == a[i - 1]);
            assert(a[i - 1] == a.last());
        } else {
            assert((a + b)[i] == b[i - a.len()]);
            assert((a + b)[i - 1] == b[i - 1 - a.len()]);
        }
    }
}

/// Flattening distributes over concatenation.
proof fn lemma_flat_concat(a: Seq<BlockSummary>, b: Seq<BlockSummary>)
    ensures
        flat_ops(a + b) == flat_ops(a) + flat_ops(b),
        flat_balances(a + b) == flat_balances(a) + flat_balances(b),
    decreases b.len(),
{
    if b.len() == 0 {
        assert(a + b =~= a);
        assert(flat_ops(a) + flat_ops(b) =~= flat_ops(a));
        assert(flat_balances(a) + flat_balances(b) =~= flat_balances(a));
    } else {
        lemma_flat_concat(a, b.drop_last());
        assert((a + b).drop_last() =~= a + b.drop_last());
        assert((a + b).last() == b.last());
        assert(flat_ops(a) + flat_ops(b.drop_last()) + b.last().ops@ =~= flat_ops(a) + (flat_ops(
            b.drop_last(),
        ) + b.last().ops@));
        assert(flat_balances(a) + flat_balances(b.drop_last()) + b.last().entity_balance_updates@
            =~= flat_balances(a) + (flat_balances(b.drop_last())
            + b.last().entity_balance_updates@));
    }
}

/// Flattening filled blocks gives exactly the flattened decoded batches.
pub proof fn lemma_flat_filled(
    added: Seq<BlockSummary>,
    pending: Seq<BlockSummary>,
    eps: Seq<(Address, EntryPointVersion)>,
    logs: Seq<Vec<RawLog>>,
)
    requires
        blocks_filled(added, pending, eps, logs),
    ensures
        flat_ops(added) == flat_decoded_ops(eps, logs),
        flat_balances(added) == flat_decoded_balances(eps, logs),
    decreases added.len(),
{
    if added.len() > 0 {
        assert(blocks_filled(added.drop_last(), pending.drop_last(), eps, logs.drop_last())) by {
            assert forall|j: int| 0 <= j < added.drop_last().len() implies filled_from(
                #[trigger] added.drop_last()[j],
                pending.drop_last()[j],
                eps,
                logs.drop_last()[j],
            ) by {
                assert(added.drop_last()[j] == added[j]);
                assert(pending.drop_last()[j] == pending[j]);
                assert(logs.drop_last()[j] == logs[j]);
            }
        }
        lemma_flat_filled(added.drop_last(), pending.drop_last(), eps, logs.drop_last());
        assert(added.last() == added[added.len() - 1]);
        assert(filled_from(added[added.len() - 1], pending[added.len() - 1], eps, logs[added.len()
            - 1]));
        assert(logs.last() == logs[added.len() - 1]);
    }
}

/// Fills each walked block with the ops and balance updates decoded from
/// its log batch, in block order.
fn load_ops_into_block_summaries(
    settings: &Settings,
    pending: VecDeque<BlockSummary>,
    logs: &Vec<Vec<RawLog>>,
) -> (added: VecDeque<BlockSummary>)
    requires
        logs@.len() == pending@.len(),
    ensures
        blocks_filled(added@, pending@, settings.entry_point_addresses@, logs@),
{
    let ghost pend0 = pending@;
    let ghost eps = settings.entry_point_addresses@;
    let mut pending = pending;
    let mut added: VecDeque<BlockSummary> = VecDeque::new();
    let mut i: usize = 0;
    while i < logs.len()
        invariant
            0 <= i <= logs@.len(),
            logs@.len() == pend0.len(),
            eps == settings.entry_point_addresses@,
            pending@ == pend0.skip(i as int),
            added@.len() == i,
            forall|j: int|
                0 <= j < i ==> filled_from(#[trigger] added@[j], pend0[j], eps, logs@[j]),
        decreases logs@.len() - i,
    {
        proof {
            assert(pend0.skip(i as int)[0] == pend0[i as int]);
        }
        let b = pending.pop_front().unwrap();
        let decoded = crate::events::decode_logs(settings, &logs[i]);
        added.push_back(
            BlockSummary {
                number: b.number,
                hash: b.hash,
                timestamp: b.timestamp,
                parent_hash: b.parent_hash,
                ops: decoded.0,
                entity_balance_updates: decoded.1,
            },
        );
        proof {
            assert(pend0.skip(i as int).subrange(1, pend0.skip(i as int).len() as int) =~= pend0.skip(
                i + 1,
            ));
        }
        i += 1;
    }
    added
}

impl Chain {
    /// Replaces the whole window and reports everything in it as mined.
    fn commit_reset(&mut self, added: VecDeque<BlockSummary>) -> (r: SyncAction)
        requires
            old(self).settings.wf(),
            old(self).phase is Idle,
            linked(added@),
            1 <= added@.len() <= old(self).settings.history_size,
        ensures
            final(self).settings == old(self).settings,
            final(self).filter_addresses == old(self).filter_addresses,
            final(self).filter_events == old(self).filter_events,
            final(self).sync_error_count == 0,
            final(self).phase is Idle,
            final(self).wf(),
            final(self).blocks@ == added@,
            final(self).blocks@.len() >= 1,
            r matches SyncAction::Done { update } && {
                &&& update.reorg_depth == 0
                &&& update.reorg_larger_than_history == false
                &&& update.latest_block_number == added@.last().number
                &&& update.latest_block_hash == added@.last().hash
                &&& update.latest_block_timestamp == added@.last().timestamp
                &&& update.earliest_remembered_block_number == added@[0].number
                &&& update.mined_ops@ == flat_ops(added@)
                &&& update.entity_balance_updates@ == flat_balances(added@)
                &&& update.unmined_ops@.len() == 0
                &&& update.unmined_entity_balance_updates@.len() == 0
            },
    {
        self.blocks = added;
        self.sync_error_count = 0;
        proof {
            assert(self.blocks@.skip(0) =~= self.blocks@);
        }
        let mined_ops = ops_from(&self.blocks, 0);
        let entity_balance_updates = balances_from(&self.blocks, 0);
        let update = self.new_update(
            0,
            mined_ops,
            Vec::new(),
            entity_balance_updates,
            Vec::new(),
            false,
        );
        SyncAction::Done { update }
    }

    /// Pops blocks from the front until the buffer fits the window.
    fn trim_to_window(&mut self)
        ensures
            final(self).settings == old(self).settings,
            final(self).sync_error_count == old(self).sync_error_count,
            final(self).filter_addresses == old(self).filter_addresses,
            final(self).filter_events == old(self).filter_events,
            final(self).phase == old(self).phase,
            final(self).blocks@ == old(self).blocks@.skip(
                if old(self).blocks@.len() > old(self).settings.history_size {
                    old(self).blocks@.len() - old(self).settings.history_size
                } else {
                    0
                },
            ),
    {
        let ghost all = self.blocks@;
        let ghost settings0 = self.settings;
        let ghost count0 = self.sync_error_count;
        let ghost fa0 = self.filter_addresses;
        let ghost fe0 = self.filter_events;
        let ghost phase0 = self.phase;
        let ghost hsize = self.settings.history_size;
        proof {
            assert(all.skip(0) =~= all);
        }
        while self.blocks.len() as u64 > self.settings.history_size
            invariant
                self.settings == settings0,
                self.sync_error_count == count0,
                self.filter_addresses == fa0,
                self.filter_events == fe0,
                self.phase == phase0,
                hsize == settings0.history_size,
                self.blocks@.len() <= all.len(),
                self.blocks@.len() >= (if all.len() > hsize {
                    hsize as int
                } else {
                    all.len() as int
                }),
                self.blocks@ == all.skip(all.len() - self.blocks@.len()),
            decreases self.blocks@.len(),
        {
            let ghost len_before = self.blocks@.len() as int;
            self.blocks.pop_front();
            proof {
                let k = all.len() - len_before;
                assert(all.skip(k).subrange(1, all.skip(k).len() as int) =~= all.skip(k + 1));
            }
        }
    }

    /// Applies blocks that connect to the remembered chain: reorged blocks
    /// are popped and reported unmined, the added blocks are appended and
    /// reported mined, and the front is trimmed to the window size.
    #[verifier::rlimit(100)]
    #[verifier::spinoff_prover]
    fn update_with_blocks(
        &mut self,
        current_block_number: u64,
        added_blocks: VecDeque<BlockSummary>,
    ) -> (u: ChainUpdate)
        requires
            old(self).buffer_wf(),
            old(self).phase is Idle,
            old(self).blocks@.len() >= 1,
            current_block_number == old(self).blocks@.last().number,
            current_block_number < u64::MAX,
            added_blocks@.len() >= 1,
            linked(added_blocks@),
            added_blocks@[0].number <= current_block_number + 1,
            added_blocks@[0].number >= old(self).blocks@[0].number,
            seam_ok(old(self).blocks@, added_blocks@),
        ensures
            final(self).settings == old(self).settings,
            final(self).filter_addresses == old(self).filter_addresses,
            final(self).filter_events == old(self).filter_events,
            final(self).sync_error_count == old(self).sync_error_count,
            final(self).phase is Idle,
            final(self).wf(),
            final(self).blocks@.len() >= 1,
            applied_update(
                old(self).blocks@,
                added_blocks@,
                old(self).settings.history_size,
                u,
                final(self).blocks@,
            ),
    {
        let ghost old_blocks = self.blocks@;
        let ghost added0 = added_blocks@;
        let ghost settings0 = self.settings;
        let ghost count0 = self.sync_error_count;
        let ghost fa0 = self.filter_addresses;
        let ghost fe0 = self.filter_events;
        proof {
            lemma_linked_numbers(old_blocks);
        }
        let reorg_depth: u64 = current_block_number + 1 - added_blocks[0].number;
        proof {
            assert(added0.skip(0) =~= added0);
            assert(old_blocks.last().number == old_blocks[0].number + old_blocks.len() - 1);
            assert(reorg_depth <= old_blocks.len());
        }
        let mined_ops = ops_from(&added_blocks, 0);
        let entity_balance_updates = balances_from(&added_blocks, 0);
        let keep: usize = self.blocks.len() - reorg_depth as usize;
        let unmined_ops = ops_from(&self.blocks, keep);
        let unmined_entity_balance_updates = balances_from(&self.blocks, keep);
        let reorg_larger_than_history = reorg_depth >= self.settings.history_size;
        self.blocks.truncate(keep);
        let mut added_blocks = added_blocks;
        self.blocks.append(&mut added_blocks);
        let ghost pretrim = old_blocks.take(keep as int) + added0;
        proof {
            lemma_linked_take(old_blocks, keep as int);
            if keep >= 1 {
                assert(old_blocks.take(keep as int).last() == old_blocks[keep - 1]);
            }
            lemma_linked_concat(old_blocks.take(keep as int), added0);
            assert(self.blocks@ == pretrim);
            assert(pretrim.skip(0) =~= pretrim);
        }
        let ghost hsize = self.settings.history_size;
        self.trim_to_window();
        proof {
            let start: int = if pretrim.len() > hsize {
                pretrim.len() - hsize
            } else {
                0
            };
            assert(self.blocks@ == pretrim.skip(start));
            lemma_linked_skip(pretrim, start);
            assert(pretrim.last() == added0.last());
            assert(self.blocks@.last() == pretrim.last());
            lemma_flat_concat(old_blocks.take(old_blocks.len() - reorg_depth), old_blocks.skip(
                old_blocks.len() - reorg_depth,
            ));
        }
        let update = self.new_update(
            reorg_depth,
            mined_ops,
            unmined_ops,
            entity_balance_updates,
            unmined_entity_balance_updates,
            reorg_larger_than_history,
        );
        update
    }
}

impl Chain {
    /// Starts a sync that rebuilds the whole window behind `new_head`.
    fn start_reset(&mut self, new_head: BlockHeader) -> (r: SyncAction)
        requires
            old(self).buffer_wf(),
        ensures
            final(self).settings == old(self).settings,
            final(self).blocks@ == old(self).blocks@,
            final(self).sync_error_count == old(self).sync_error_count,
            final(self).filter_addresses == old(self).filter_addresses,
            final(self).filter_events == old(self).filter_events,
            final(self).wf(),
            sync_started(
                *final(self),
                new_head,
                reset_min_number(new_head.number, old(self).settings.history_size),
                true,
                r,
            ),
    {
        let hsize = self.settings.history_size;
        let min_number = if new_head.number >= hsize {
            new_head.number - (hsize - 1)
        } else {
            0
        };
        let head = BlockSummary {
            number: new_head.number,
            hash: new_head.hash,
            timestamp: new_head.timestamp,
            parent_hash: new_head.parent_hash,
            ops: Vec::new(),
            entity_balance_updates: Vec::new(),
        };
        let mut pending: VecDeque<BlockSummary> = VecDeque::new();
        pending.push_back(head);
        let r = self.walk_or_proceed(pending, min_number, true);
        proof {
            assert(sync_started(*self, new_head, min_number, true, r));
        }
        r
    }

    /// Starts a sync that extends the remembered chain up to `new_head`.
    fn start_advance(&mut self, new_head: BlockHeader, current_block_number: u64) -> (r:
        SyncAction)
        requires
            old(self).buffer_wf(),
            old(self).blocks@.len() >= 1,
            current_block_number == old(self).blocks@.last().number,
            current_block_number < u64::MAX,
            new_head.number >= old(self).blocks@[0].number,
        ensures
            final(self).settings == old(self).settings,
            final(self).blocks@ == old(self).blocks@,
            final(self).sync_error_count == old(self).sync_error_count,
            final(self).filter_addresses == old(self).filter_addresses,
            final(self).filter_events == old(self).filter_events,
            final(self).wf(),
            sync_started(*final(self), new_head, (current_block_number + 1) as u64, false, r),
    {
        let min_number = current_block_number + 1;
        let head = BlockSummary {
            number: new_head.number,
            hash: new_head.hash,
            timestamp: new_head.timestamp,
            parent_hash: new_head.parent_hash,
            ops: Vec::new(),
            entity_balance_updates: Vec::new(),
        };
        let mut pending: VecDeque<BlockSummary> = VecDeque::new();
        pending.push_back(head);
        let r = self.walk_or_proceed(pending, min_number, false);
        proof {
            assert(sync_started(*self, new_head, min_number, false, r));
        }
        r
    }

    /// Starts a sync towards `new_head`, classifying it first: an empty
    /// history or a head too far ahead rebuilds the window; a head further
    /// behind than the window is counted and refused, until the count
    /// forces a rebuild; anything else advances, resolving reorgs.
    ///
    /// Any sync still in flight is abandoned. The returned action tells the
    /// caller what to do next; the caller then drives the sync by feeding
    /// fetch results to [`Chain::on_event`].
    pub fn begin_sync(&mut self, new_head: BlockHeader) -> (r: SyncAction)
        requires
            old(self).buffer_wf(),
            old(self).can_sync_to(new_head),
        ensures
            final(self).settings == old(self).settings,
            final(self).blocks@ == old(self).blocks@,
            final(self).filter_addresses == old(self).filter_addresses,
            final(self).filter_events == old(self).filter_events,
            final(self).wf(),
            !(r is Done),
            ({
                let blocks = old(self).blocks@;
                let hs = old(self).settings.history_size;
                let bumped: u64 = if old(self).sync_error_count < SYNC_ERROR_COUNT_MAX {
                    (old(self).sync_error_count + 1) as u64
                } else {
                    old(self).sync_error_count
                };
                if blocks.len() == 0 {
                    &&& final(self).sync_error_count == old(self).sync_error_count
                    &&& sync_started(
                        *final(self),
                        new_head,
                        reset_min_number(new_head.number, hs),
                        true,
                        r,
                    )
                } else if is_stale_head(blocks, new_head, hs) {
                    &&& final(self).sync_error_count == bumped
                    &&& if bumped >= SYNC_ERROR_COUNT_MAX {
                        sync_started(
                            *final(self),
                            new_head,
                            reset_min_number(new_head.number, hs),
                            true,
                            r,
                        )
                    } else {
                        final(self).phase is Idle && (r matches SyncAction::Fail { error } && error
                            == ChainError::StaleHead)
                    }
                } else if is_skip_ahead(blocks, new_head, hs) {
                    &&& final(self).sync_error_count == old(self).sync_error_count
                    &&& sync_started(
                        *final(self),
                        new_head,
                        reset_min_number(new_head.number, hs),
                        true,
                        r,
                    )
                } else {
                    &&& final(self).sync_error_count == old(self).sync_error_count
                    &&& sync_started(
                        *final(self),
                        new_head,
                        (blocks.last().number + 1) as u64,
                        false,
                        r,
                    )
                }
            }),
    {
        self.phase = SyncPhase::Idle;
        if self.blocks.len() == 0 {
            return self.start_reset(new_head);
        }
        let current_block_number = self.blocks[self.blocks.len() - 1].number;
        let new_block_number = new_head.number;
        let hsize = self.settings.history_size;
        if current_block_number > hsize && current_block_number - hsize > new_block_number {
            if self.sync_error_count < SYNC_ERROR_COUNT_MAX {
                self.sync_error_count = self.sync_error_count + 1;
            }
            if self.sync_error_count >= SYNC_ERROR_COUNT_MAX {
                return self.start_reset(new_head);
            }
            return SyncAction::Fail { error: ChainError::StaleHead };
        }
        if new_block_number > hsize && new_block_number - hsize > current_block_number {
            return self.start_reset(new_head);
        }
        self.start_advance(new_head, current_block_number)
    }
}

impl Chain {
    /// Handles a failed block fetch during the backward walk: retry after a
    /// sleep while attempts remain, else give the sync up.
    fn walk_retry(
        &mut self,
        pending: VecDeque<BlockSummary>,
        min_number: u64,
        attempt: u64,
        reset: bool,
    ) -> (r: SyncAction)
        requires
            old(self).buffer_wf(),
            old(self).phase is Idle,
            old(self).walk_phase_wf(pending@, min_number, attempt, reset),
        ensures
            final(self).settings == old(self).settings,
            final(self).blocks@ == old(self).blocks@,
            final(self).sync_error_count == old(self).sync_error_count,
            final(self).filter_addresses == old(self).filter_addresses,
            final(self).filter_events == old(self).filter_events,
            final(self).wf(),
            if attempt < old(self).settings.max_sync_retries {
                &&& final(self).phase matches SyncPhase::WalkingBack {
                    pending: p,
                    min_number: m,
                    attempt: a,
                    reset: rs,
                } && p@ == pending@ && m == min_number && a == attempt + 1 && rs == reset
                &&& r matches SyncAction::SleepThenFetchBlock { hash } && hash
                    == pending@[0].parent_hash
            } else {
                final(self).phase is Idle && (r matches SyncAction::Fail { error } && error
                    == ChainError::ProviderTransient)
            },
    {
        if attempt < self.settings.max_sync_retries {
            let hash = pending[0].parent_hash;
            self.phase = SyncPhase::WalkingBack { pending, min_number, attempt: attempt + 1, reset };
            SyncAction::SleepThenFetchBlock { hash }
        } else {
            SyncAction::Fail { error: ChainError::ProviderTransient }
        }
    }

    /// Feeds one fetch result to the sync in flight and returns the next
    /// action. Fetched blocks are validated against the number and the hash
    /// the engine asked for, so that a successful sync always leaves the
    /// buffer consecutive and hash linked, whatever the provider returned.
    pub fn on_event(&mut self, event: SyncEvent) -> (r: SyncAction)
        requires
            old(self).wf(),
            old(self).expects(event),
        ensures
            final(self).settings == old(self).settings,
            final(self).filter_addresses == old(self).filter_addresses,
            final(self).filter_events == old(self).filter_events,
            final(self).wf(),
            !(r is Done) ==> final(self).blocks@ == old(self).blocks@,
            r is Fail ==> final(self).phase is Idle,
            r is Done ==> final(self).phase is Idle && final(self).blocks@.len() >= 1,
            (old(self).phase matches SyncPhase::WalkingBack { pending, min_number, attempt, reset }
                ==> {
                &&& final(self).sync_error_count == old(self).sync_error_count
                &&& match event {
                    SyncEvent::Block { header } => {
                        if header.number + 1 == pending@[0].number && header.hash
                            == pending@[0].parent_hash {
                            exists|p2: Seq<BlockSummary>|
                                {
                                    &&& p2.len() == pending@.len() + 1
                                    &&& p2.skip(1) == pending@
                                    &&& summary_of_header(p2[0], header)
                                    &&& p2[0].ops@.len() == 0
                                    &&& p2[0].entity_balance_updates@.len() == 0
                                    &&& #[trigger] walk_proceeded(
                                        *final(self),
                                        p2,
                                        min_number,
                                        reset,
                                        r,
                                    )
                                }
                        } else {
                            final(self).phase is Idle && (r matches SyncAction::Fail { error }
                                && error == ChainError::ProviderInconsistent)
                        }
                    },
                    SyncEvent::BlockNotFound | SyncEvent::BlockUnavailable => {
                        if attempt < old(self).settings.max_sync_retries {
                            &&& final(self).phase matches SyncPhase::WalkingBack {
                                pending: p,
                                min_number: m,
                                attempt: a,
                                reset: rs,
                            } && p@ == pending@ && m == min_number && a == attempt + 1 && rs
                                == reset
                            &&& r matches SyncAction::SleepThenFetchBlock { hash } && hash
                                == pending@[0].parent_hash
                        } else {
                            final(self).phase is Idle && (r matches SyncAction::Fail { error }
                                && error == ChainError::ProviderTransient)
                        }
                    },
                    _ => true,
                }
            }),
            (old(self).phase matches SyncPhase::Connecting { pending } ==> {
                &&& final(self).sync_error_count == old(self).sync_error_count
                &&& match event {
                    SyncEvent::Block { header } => {
                        if header.number + 1 == pending@[0].number && header.hash
                            == pending@[0].parent_hash {
                            exists|p2: Seq<BlockSummary>|
                                {
                                    &&& p2.len() == pending@.len() + 1
                                    &&& p2.skip(1) == pending@
                                    &&& summary_of_header(p2[0], header)
                                    &&& p2[0].ops@.len() == 0
                                    &&& p2[0].entity_balance_updates@.len() == 0
                                    &&& #[trigger] connect_decided(*final(self), p2, r)
                                }
                        } else {
                            final(self).phase is Idle && (r matches SyncAction::Fail { error }
                                && error == ChainError::ProviderInconsistent)
                        }
                    },
                    SyncEvent::BlockNotFound => final(self).phase is Idle && (r
                        matches SyncAction::Fail { error } && error
                        == ChainError::ProviderInconsistent),
                    SyncEvent::BlockUnavailable => final(self).phase is Idle && (r
                        matches SyncAction::Fail { error } && error
                        == ChainError::ProviderTransient),
                    _ => true,
                }
            }),
            (old(self).phase matches SyncPhase::LoadingOps { pending, reset } ==> match event {
                SyncEvent::Logs { logs } => r matches SyncAction::Done { update } && (if reset {
                    &&& final(self).sync_error_count == 0
                    &&& reset_complete(
                        pending@,
                        old(self).settings.entry_point_addresses@,
                        logs@,
                        update,
                        final(self).blocks@,
                    )
                } else {
                    &&& final(self).sync_error_count == old(self).sync_error_count
                    &&& advance_complete(
                        old(self).blocks@,
                        pending@,
                        old(self).settings.entry_point_addresses@,
                        logs@,
                        old(self).settings.history_size,
                        update,
                        final(self).blocks@,
                    )
                }),
                SyncEvent::LogsUnavailable => {
                    &&& final(self).sync_error_count == old(self).sync_error_count
                    &&& final(self).phase is Idle
                    &&& r matches SyncAction::Fail { error } && error
                        == ChainError::ProviderTransient
                },
                _ => true,
            }),
    {
        let mut ph = SyncPhase::Idle;
        core::mem::swap(&mut ph, &mut self.phase);
        match (ph, event) {
            (
                SyncPhase::WalkingBack { pending, min_number, attempt: _, reset },
                SyncEvent::Block { header },
            ) => {
                let mut pending = pending;
                let expected = pending[0].number - 1;
                match BlockSummary::try_from_block_without_ops(header, Some(expected)) {
                    Err(error) => SyncAction::Fail { error },
                    Ok(summary) => {
                        if header.hash != pending[0].parent_hash {
                            return SyncAction::Fail { error: ChainError::ProviderInconsistent };
                        }
                        let ghost pold = pending@;
                        pending.push_front(summary);
                        let ghost p2 = pending@;
                        proof {
                            assert(p2.skip(1) =~= pold);
                            assert forall|i: int| 1 <= i < p2.len() implies {
                                &&& (#[trigger] p2[i]).number == p2[i - 1].number + 1
                                &&& p2[i].parent_hash == p2[i - 1].hash
                            } by {
                                if i >= 2 {
                                    assert(p2[i] == pold[i - 1]);
                                    assert(p2[i - 1] == pold[i - 2]);
                                }
                            }
                            lemma_linked_numbers(self.blocks@);
                        }
                        let r = self.walk_or_proceed(pending, min_number, reset);
                        proof {
                            assert(walk_proceeded(*self, p2, min_number, reset, r));
                        }
                        r
                    },
                }
            },
            (
                SyncPhase::WalkingBack { pending, min_number, attempt, reset },
                SyncEvent::BlockNotFound,
            ) => self.walk_retry(pending, min_number, attempt, reset),
            (
                SyncPhase::WalkingBack { pending, min_number, attempt, reset },
                SyncEvent::BlockUnavailable,
            ) => self.walk_retry(pending, min_number, attempt, reset),
            (SyncPhase::Connecting { pending }, SyncEvent::Block { header }) => {
                let mut pending = pending;
                let expected = pending[0].number - 1;
                match BlockSummary::try_from_block_without_ops(header, Some(expected)) {
                    Err(error) => SyncAction::Fail { error },
                    Ok(summary) => {
                        if header.hash != pending[0].parent_hash {
                            return SyncAction::Fail { error: ChainError::ProviderInconsistent };
                        }
                        let ghost pold = pending@;
                        pending.push_front(summary);
                        let ghost p2 = pending@;
                        proof {
                            assert(p2.skip(1) =~= pold);
                            assert forall|i: int| 1 <= i < p2.len() implies {
                                &&& (#[trigger] p2[i]).number == p2[i - 1].number + 1
                                &&& p2[i].parent_hash == p2[i - 1].hash
                            } by {
                                if i >= 2 {
                                    assert(p2[i] == pold[i - 1]);
                                    assert(p2[i - 1] == pold[i - 2]);
                                }
                            }
                        }
                        let r = self.connect_or_proceed(pending);
                        proof {
                            assert(connect_decided(*self, p2, r));
                        }
                        r
                    },
                }
            },
            (SyncPhase::Connecting { pending: _ }, SyncEvent::BlockNotFound) => {
                // A parent hash of a known block resolved to nothing.
                SyncAction::Fail { error: ChainError::ProviderInconsistent }
            },
            (SyncPhase::Connecting { pending: _ }, SyncEvent::BlockUnavailable) => {
                SyncAction::Fail { error: ChainError::ProviderTransient }
            },
            (SyncPhase::LoadingOps { pending, reset }, SyncEvent::Logs { logs }) => {
                let ghost pend0 = pending@;
                let ghost eps = self.settings.entry_point_addresses@;
                let added = load_ops_into_block_summaries(&self.settings, pending, &logs);
                proof {
                    assert forall|i: int| 1 <= i < added@.len() implies {
                        &&& (#[trigger] added@[i]).number == added@[i - 1].number + 1
                        &&& added@[i].parent_hash == added@[i - 1].hash
                    } by {
                        assert(filled_from(added@[i], pend0[i], eps, logs@[i]));
                        assert(filled_from(added@[i - 1], pend0[i - 1], eps, logs@[i - 1]));
                    }
                    lemma_flat_filled(added@, pend0, eps, logs@);
                }
                if reset {
                    let r = self.commit_reset(added);
                    r
                } else {
                    let current_block_number = self.blocks[self.blocks.len() - 1].number;
                    proof {
                        assert(filled_from(added@[0], pend0[0], eps, logs@[0]));
                        assert(filled_from(
                            added@[added@.len() - 1],
                            pend0[pend0.len() - 1],
                            eps,
                            logs@[pend0.len() - 1],
                        ));
                    }
                    let update = self.update_with_blocks(current_block_number, added);
                    proof {
                        assert(blocks_filled(added@, pend0, eps, logs@) && applied_update(
                            old(self).blocks@,
                            added@,
                            old(self).settings.history_size,
                            update,
                            self.blocks@,
                        ));
                    }
                    SyncAction::Done { update }
                }
            },
            (SyncPhase::LoadingOps { pending: _, reset: _ }, SyncEvent::LogsUnavailable) => {
                SyncAction::Fail { error: ChainError::ProviderTransient }
            },
            _ => {
                proof {
                    assert(false);
                }
                SyncAction::Fail { error: ChainError::ProviderTransient }
            },
        }
    }
}

/// All balance updates of the blocks of `blocks` from index `start` on.
fn balances_from(blocks: &VecDeque<BlockSummary>, start: usize) -> (r: Vec<BalanceUpdate>)
    requires
        start <= blocks@.len(),
    ensures
        r@ == flat_balances(blocks@.skip(start as int)),
{
    let ghost tail = blocks@.skip(start as int);
    let mut r: Vec<BalanceUpdate> = Vec::new();
    let mut i: usize = start;
    while i < blocks.len()
        invariant
            start <= i <= blocks@.len(),
            tail == blocks@.skip(start as int),
            r@ == flat_balances(tail.take(i - start)),
        decreases blocks@.len() - i,
    {
        let updates = &blocks[i].entity_balance_updates;
        let mut j: usize = 0;
        while j < updates.len()
            invariant
                start <= i < blocks@.len(),
                0 <= j <= updates@.len(),
                tail == blocks@.skip(start as int),
                updates == &blocks@[i as int].entity_balance_updates,
                r@ == flat_balances(tail.take(i - start)) + updates@.take(j as int),
            decreases updates@.len() - j,
        {
            r.push(updates[j]);
            proof {
                assert(r@ =~= flat_balances(tail.take(i - start)) + updates@.take(j + 1));
            }
            j += 1;
        }
        proof {
            lemma_flat_take_succ(tail, i - start);
            assert(tail[i - start] == blocks@[i as int]);
            assert(updates@.take(updates@.len() as int) =~= updates@);
            assert(r@ == flat_balances(tail.take(i - start + 1)));
        }
        i += 1;
    }
    proof {
        assert(tail.take(tail.len() as int) =~= tail);
    }
    r
}

} // verus!
