//! Decoding entry-point logs into mined ops and balance updates.
//!
//! ABI byte decoding itself is done by the embedding application, which
//! hands the library one [`RawLog`] per provider log: the emitting address,
//! plus the decoded payload for the event shape named by the log's leading
//! topic (or `None` when the payload did not decode, or `Other` when the
//! topic is not one of the known signatures). This module holds the logic on
//! top of that: dispatching on the configured entry-point version, skipping
//! unknown or malformed logs, and building the output records.

use vstd::prelude::*;

use crate::types::{Address, BalanceUpdate, EntryPointVersion, Hash32, MinedOp, Settings, Uint256};
use crate::types::spec_version_of;

verus! {

/// The three event shapes the tracker understands.
#[derive(Clone, Copy, Debug, PartialEq, Eq, Structural)]
pub enum EventKind {
    UserOperation,
    Deposited,
    Withdrawn,
}

/// One event signature to subscribe to: a shape, as emitted by entry points
/// of one version. The embedding application maps each selector to the
/// concrete 32-byte signature hash of that version's ABI.
#[derive(Clone, Copy, Debug, PartialEq, Eq, Structural)]
pub struct EventSelector {
    pub version: EntryPointVersion,
    pub kind: EventKind,
}

/// Payload of a `UserOperationEvent` log.
#[derive(Clone, Copy, Debug, PartialEq, Eq)]
pub struct UserOperationEventData {
    pub user_op_hash: Hash32,
    pub sender: Address,
    pub paymaster: Address,
    pub nonce: Uint256,
    pub success: bool,
    pub actual_gas_cost: Uint256,
    pub actual_gas_used: Uint256,
}

/// Payload of a `Deposited` log.
#[derive(Clone, Copy, Debug, PartialEq, Eq)]
pub struct DepositedData {
    pub account: Address,
    pub total_deposit: Uint256,
}

/// Payload of a `Withdrawn` log.
#[derive(Clone, Copy, Debug, PartialEq, Eq)]
pub struct WithdrawnData {
    pub account: Address,
    pub withdraw_address: Address,
    pub amount: Uint256,
}

/// What a log's leading topic named, together with the decoded payload for
/// that shape; `None` inside a variant means the payload was malformed for
/// the named shape and the log is to be skipped.
#[derive(Clone, Copy, Debug, PartialEq, Eq)]
pub enum LogPayload {
    UserOperation(Option<UserOperationEventData>),
    Deposited(Option<DepositedData>),
    Withdrawn(Option<WithdrawnData>),
    /// Missing or unrecognized leading topic.
    Other,
}

/// One provider log, reduced to what the decoder reads.
#[derive(Clone, Copy, Debug, PartialEq, Eq)]
pub struct RawLog {
    /// The emitting contract.
    pub address: Address,
    pub payload: LogPayload,
}

/// The mined op a well-formed `UserOperationEvent` log yields: the emitting
/// address becomes the entry point, and the paymaster is kept only when it
/// is not the zero address.
pub open spec fn decoded_op(log: RawLog) -> Option<MinedOp> {
    match log.payload {
        LogPayload::UserOperation(Some(e)) => Some(
            MinedOp {
                hash: e.user_op_hash,
                entry_point: log.address,
                sender: e.sender,
                nonce: e.nonce,
                actual_gas_cost: e.actual_gas_cost,
                paymaster: if e.paymaster.spec_is_zero() {
                    None
                } else {
                    Some(e.paymaster)
                },
            },
        ),
        _ => None,
    }
}

/// The balance update a well-formed `Deposited` or `Withdrawn` log yields.
pub open spec fn decoded_balance(log: RawLog) -> Option<BalanceUpdate> {
    match log.payload {
        LogPayload::Deposited(Some(d)) => Some(
            BalanceUpdate {
                address: d.account,
                entrypoint: log.address,
                amount: d.total_deposit,
                is_addition: true,
            },
        ),
        LogPayload::Withdrawn(Some(w)) => Some(
            BalanceUpdate {
                address: w.account,
                entrypoint: log.address,
                amount: w.amount,
                is_addition: false,
            },
        ),
        _ => None,
    }
}

/// The mined op `log` yields under configuration `eps`: logs from addresses
/// with no configured version are skipped.
pub open spec fn log_op(eps: Seq<(Address, EntryPointVersion)>, log: RawLog) -> Option<MinedOp> {
    match spec_version_of(eps, log.address) {
        Some(EntryPointVersion::V0_6) => decoded_op(log),
        Some(EntryPointVersion::V0_7) => decoded_op(log),
        _ => None,
    }
}

/// The balance update `log` yields under configuration `eps`.
pub open spec fn log_balance(eps: Seq<(Address, EntryPointVersion)>, log: RawLog) -> Option<
    BalanceUpdate,
> {
    match spec_version_of(eps, log.address) {
        Some(EntryPointVersion::V0_6) => decoded_balance(log),
        Some(EntryPointVersion::V0_7) => decoded_balance(log),
        _ => None,
    }
}

/// All mined ops of `logs` under configuration `eps`, in log order.
pub open spec fn mined_ops_of(eps: Seq<(Address, EntryPointVersion)>, logs: Seq<RawLog>) -> Seq<
    MinedOp,
>
    decreases logs.len(),
{
    if logs.len() == 0 {
        Seq::empty()
    } else {
        let rest = mined_ops_of(eps, logs.drop_last());
        match log_op(eps, logs.last()) {
            Some(op) => rest.push(op),
            None => rest,
        }
    }
}

/// All balance updates of `logs` under configuration `eps`, in log order.
pub open spec fn balances_of(eps: Seq<(Address, EntryPointVersion)>, logs: Seq<RawLog>) -> Seq<
    BalanceUpdate,
>
    decreases logs.len(),
{
    if logs.len() == 0 {
        Seq::empty()
    } else {
        let rest = balances_of(eps, logs.drop_last());
        match log_balance(eps, logs.last()) {
            Some(b) => rest.push(b),
            None => rest,
        }
    }
}

/// Decodes one log emitted by a v0.6 entry point, appending the resulting
/// op or balance update; malformed and unrecognized logs are skipped.
pub fn load_v0_6(log: RawLog, mined_ops: &mut Vec<MinedOp>, balance_updates: &mut Vec<
    BalanceUpdate,
>)
    ensures
        final(mined_ops)@ == match decoded_op(log) {
            Some(op) => old(mined_ops)@.push(op),
            None => old(mined_ops)@,
        },
        final(balance_updates)@ == match decoded_balance(log) {
            Some(b) => old(balance_updates)@.push(b),
            None => old(balance_updates)@,
        },
{
    let address = log.address;
    match log.payload {
        LogPayload::UserOperation(Some(event)) => {
            let paymaster = if event.paymaster.is_zero() {
                None
            } else {
                Some(event.paymaster)
            };
            let mined = MinedOp {
                hash: event.user_op_hash,
                entry_point: address,
                sender: event.sender,
                nonce: event.nonce,
                actual_gas_cost: event.actual_gas_cost,
                paymaster,
            };
            mined_ops.push(mined);
        },
        LogPayload::Deposited(Some(event)) => {
            let info = BalanceUpdate {
                entrypoint: address,
                address: event.account,
                amount: event.total_deposit,
                is_addition: true,
            };
            balance_updates.push(info);
        },
        LogPayload::Withdrawn(Some(event)) => {
            let info = BalanceUpdate {
                entrypoint: address,
                address: event.account,
                amount: event.amount,
                is_addition: false,
            };
            balance_updates.push(info);
        },
        _ => {
            // Decode failure or unknown signature: skip this log.
        },
    }
}

/// Decodes one log emitted by a v0.7 entry point. The v0.7 payload shapes
/// coincide with the v0.6 ones, so the record built is the same; only the
/// ABI decoder the embedding application ran differs.
pub fn load_v0_7(log: RawLog, mined_ops: &mut Vec<MinedOp>, balance_updates: &mut Vec<
    BalanceUpdate,
>)
    ensures
        final(mined_ops)@ == match decoded_op(log) {
            Some(op) => old(mined_ops)@.push(op),
            None => old(mined_ops)@,
        },
        final(balance_updates)@ == match decoded_balance(log) {
            Some(b) => old(balance_updates)@.push(b),
            None => old(balance_updates)@,
        },
{
    let address = log.address;
    match log.payload {
        LogPayload::UserOperation(Some(event)) => {
            let paymaster = if event.paymaster.is_zero() {
                None
            } else {
                Some(event.paymaster)
            };
            let mined = MinedOp {
                hash: event.user_op_hash,
                entry_point: address,
                sender: event.sender,
                nonce: event.nonce,
                actual_gas_cost: event.actual_gas_cost,
                paymaster,
            };
            mined_ops.push(mined);
        },
        LogPayload::Deposited(Some(event)) => {
            let info = BalanceUpdate {
                entrypoint: address,
                address: event.account,
                amount: event.total_deposit,
                is_addition: true,
            };
            balance_updates.push(info);
        },
        LogPayload::Withdrawn(Some(event)) => {
            let info = BalanceUpdate {
                entrypoint: address,
                address: event.account,
                amount: event.amount,
                is_addition: false,
            };
            balance_updates.push(info);
        },
        _ => {
            // Decode failure or unknown signature: skip this log.
        },
    }
}

/// Decodes a whole block's logs in emission order, dispatching each log on
/// the version configured for its emitting address; logs from unconfigured
/// addresses are skipped.
pub fn decode_logs(settings: &Settings, logs: &Vec<RawLog>) -> (r: (Vec<MinedOp>, Vec<
    BalanceUpdate,
>))
    ensures
        r.0@ == mined_ops_of(settings.entry_point_addresses@, logs@),
        r.1@ == balances_of(settings.entry_point_addresses@, logs@),
{
    let ghost eps = settings.entry_point_addresses@;
    let mut mined_ops: Vec<MinedOp> = Vec::new();
    let mut balance_updates: Vec<BalanceUpdate> = Vec::new();
    let mut i: usize = 0;
    while i < logs.len()
        invariant
            0 <= i <= logs@.len(),
            eps == settings.entry_point_addresses@,
            mined_ops@ == mined_ops_of(eps, logs@.take(i as int)),
            balance_updates@ == balances_of(eps, logs@.take(i as int)),
        decreases logs@.len() - i,
    {
        proof {
            assert(logs@.take(i + 1).drop_last() =~= logs@.take(i as int));
            assert(logs@.take(i + 1).last() == logs@[i as int]);
        }
        let log = logs[i];
        match settings.version_of(&log.address) {
            Some(EntryPointVersion::V0_6) => {
                load_v0_6(log, &mut mined_ops, &mut balance_updates);
            },
            Some(EntryPointVersion::V0_7) => {
                load_v0_7(log, &mut mined_ops, &mut balance_updates);
            },
            _ => {
                // Log with an unknown entry-point address: ignore.
            },
        }
        i += 1;
    }
    proof {
        assert(logs@.take(logs@.len() as int) =~= logs@);
    }
    (mined_ops, balance_updates)
}

} // verus!
