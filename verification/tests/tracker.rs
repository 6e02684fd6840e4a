//! End-to-end tests: a mock provider held as plain data, and a driver that
//! performs the sync engine's actions against it.

use chain_tracker::chain::{Chain, SyncAction, SyncEvent};
use chain_tracker::events::{
    decode_logs, load_v0_6, DepositedData, EventKind, LogPayload, RawLog, UserOperationEventData,
    WithdrawnData,
};
use chain_tracker::types::{
    Address, BalanceUpdate, BlockHeader, ChainError, EntryPointVersion, Hash32, MinedOp, Settings,
    Uint256,
};
use chain_tracker::update::ChainUpdate;

const HISTORY_SIZE: u64 = 3;

fn hash(n: u8) -> Hash32 {
    Hash32 { w0: (n as u64) << 56, w1: 0, w2: 0, w3: 0 }
}

fn addr(n: u8) -> Address {
    Address { a0: (n as u64) << 56, a1: 0, a2: 0 }
}

fn entry_point_address_v0_6() -> Address {
    Address { a0: 0x0123456789012345, a1: 0x6789012345678901, a2: 0x01234567 }
}

fn entry_point_address_v0_7() -> Address {
    Address { a0: 0x9876543210987654, a1: 0x3210987654321098, a2: 0x98765432 }
}

#[derive(Clone, Debug)]
struct MockEntryPointEvents {
    address: Address,
    op_hashes: Vec<Hash32>,
    deposit_addresses: Vec<Address>,
    withdrawal_addresses: Vec<Address>,
}

#[derive(Clone, Debug)]
struct MockBlock {
    hash: Hash32,
    events: Vec<MockEntryPointEvents>,
}

impl MockBlock {
    fn new(hash: Hash32) -> Self {
        Self { hash, events: vec![] }
    }

    fn add_ep(
        mut self,
        address: Address,
        op_hashes: Vec<Hash32>,
        deposit_addresses: Vec<Address>,
        withdrawal_addresses: Vec<Address>,
    ) -> Self {
        self.events.push(MockEntryPointEvents {
            address,
            op_hashes,
            deposit_addresses,
            withdrawal_addresses,
        });
        self
    }
}

fn get_block(blocks: &[MockBlock], h: Hash32) -> Option<BlockHeader> {
    let number = blocks.iter().position(|b| b.hash == h)?;
    let parent_hash = if number > 0 { blocks[number - 1].hash } else { Hash32::zero() };
    Some(BlockHeader { number: number as u64, hash: h, parent_hash, timestamp: 0 })
}

fn get_head(blocks: &[MockBlock]) -> BlockHeader {
    get_block(blocks, blocks.last().unwrap().hash).unwrap()
}

fn get_logs(blocks: &[MockBlock], h: Hash32) -> Vec<RawLog> {
    let mut joined: Vec<RawLog> = Vec::new();
    let block = match blocks.iter().find(|b| b.hash == h) {
        Some(b) => b,
        None => return joined,
    };
    for events in &block.events {
        for op_hash in &events.op_hashes {
            joined.push(RawLog {
                address: events.address,
                payload: LogPayload::UserOperation(Some(UserOperationEventData {
                    user_op_hash: *op_hash,
                    sender: Address::zero(),
                    paymaster: Address::zero(),
                    nonce: Uint256::zero(),
                    success: true,
                    actual_gas_cost: Uint256::zero(),
                    actual_gas_used: Uint256::zero(),
                })),
            });
        }
        for account in &events.deposit_addresses {
            joined.push(RawLog {
                address: events.address,
                payload: LogPayload::Deposited(Some(DepositedData {
                    account: *account,
                    total_deposit: Uint256::zero(),
                })),
            });
        }
        for account in &events.withdrawal_addresses {
            joined.push(RawLog {
                address: events.address,
                payload: LogPayload::Withdrawn(Some(WithdrawnData {
                    account: *account,
                    withdraw_address: Address::zero(),
                    amount: Uint256::zero(),
                })),
            });
        }
    }
    joined
}

/// Drives one whole sync against the mock chain.
fn sync_to_block(
    chain: &mut Chain,
    head: BlockHeader,
    blocks: &[MockBlock],
) -> Result<ChainUpdate, ChainError> {
    let mut action = chain.begin_sync(head);
    loop {
        match action {
            SyncAction::FetchBlock { hash } | SyncAction::SleepThenFetchBlock { hash } => {
                let event = match get_block(blocks, hash) {
                    Some(header) => SyncEvent::Block { header },
                    None => SyncEvent::BlockNotFound,
                };
                action = chain.on_event(event);
            }
            SyncAction::FetchLogs { hashes } => {
                let logs: Vec<Vec<RawLog>> =
                    hashes.iter().map(|h| get_logs(blocks, *h)).collect();
                action = chain.on_event(SyncEvent::Logs { logs });
            }
            SyncAction::Done { update } => return Ok(update),
            SyncAction::Fail { error } => return Err(error),
        }
    }
}

fn new_settings() -> Settings {
    Settings {
        history_size: HISTORY_SIZE,
        poll_interval_millis: 250,
        entry_point_addresses: vec![
            (entry_point_address_v0_6(), EntryPointVersion::V0_6),
            (entry_point_address_v0_7(), EntryPointVersion::V0_7),
        ],
        max_sync_retries: 1,
    }
}

fn new_chain() -> Chain {
    Chain::new(new_settings())
}

fn fake_mined_op(n: u8, ep: Address) -> MinedOp {
    MinedOp {
        hash: hash(n),
        entry_point: ep,
        sender: Address::zero(),
        nonce: Uint256::zero(),
        actual_gas_cost: Uint256::zero(),
        paymaster: None,
    }
}

fn fake_mined_balance_update(address: Address, is_addition: bool, ep: Address) -> BalanceUpdate {
    BalanceUpdate { address, entrypoint: ep, amount: Uint256::zero(), is_addition }
}

#[test]
fn test_initial_load() {
    let mut chain = new_chain();
    let blocks = vec![
        MockBlock::new(hash(0)).add_ep(
            entry_point_address_v0_6(),
            vec![hash(101), hash(102)],
            vec![],
            vec![],
        ),
        MockBlock::new(hash(1)).add_ep(entry_point_address_v0_6(), vec![hash(103)], vec![], vec![]),
        MockBlock::new(hash(2)).add_ep(entry_point_address_v0_6(), vec![], vec![], vec![]),
        MockBlock::new(hash(3)).add_ep(
            entry_point_address_v0_6(),
            vec![hash(104), hash(105)],
            vec![],
            vec![],
        ),
    ];
    let update = sync_to_block(&mut chain, get_head(&blocks), &blocks).unwrap();
    // With a history size of 3, we should get updates from all blocks except the first one.
    assert_eq!(
        update,
        ChainUpdate {
            latest_block_number: 3,
            latest_block_hash: hash(3),
            latest_block_timestamp: 0,
            earliest_remembered_block_number: 1,
            reorg_depth: 0,
            mined_ops: vec![
                fake_mined_op(103, entry_point_address_v0_6()),
                fake_mined_op(104, entry_point_address_v0_6()),
                fake_mined_op(105, entry_point_address_v0_6()),
            ],
            unmined_ops: vec![],
            entity_balance_updates: vec![],
            unmined_entity_balance_updates: vec![],
            reorg_larger_than_history: false,
        }
    );
}

#[test]
fn test_simple_advance() {
    let mut chain = new_chain();
    let mut blocks = vec![
        MockBlock::new(hash(0)).add_ep(
            entry_point_address_v0_6(),
            vec![hash(101), hash(102)],
            vec![],
            vec![],
        ),
        MockBlock::new(hash(1)).add_ep(entry_point_address_v0_6(), vec![hash(103)], vec![], vec![]),
        MockBlock::new(hash(2)).add_ep(entry_point_address_v0_6(), vec![], vec![], vec![]),
        MockBlock::new(hash(3)).add_ep(
            entry_point_address_v0_6(),
            vec![hash(104), hash(105)],
            vec![],
            vec![],
        ),
    ];
    sync_to_block(&mut chain, get_head(&blocks), &blocks).unwrap();
    blocks.push(MockBlock::new(hash(4)).add_ep(
        entry_point_address_v0_6(),
        vec![hash(106)],
        vec![],
        vec![],
    ));
    let update = sync_to_block(&mut chain, get_head(&blocks), &blocks).unwrap();
    assert_eq!(
        update,
        ChainUpdate {
            latest_block_number: 4,
            latest_block_hash: hash(4),
            latest_block_timestamp: 0,
            earliest_remembered_block_number: 2,
            reorg_depth: 0,
            mined_ops: vec![fake_mined_op(106, entry_point_address_v0_6())],
            unmined_ops: vec![],
            entity_balance_updates: vec![],
            unmined_entity_balance_updates: vec![],
            reorg_larger_than_history: false,
        }
    );
}

#[test]
fn test_forward_reorg() {
    let mut chain = new_chain();
    let mut blocks = vec![
        MockBlock::new(hash(0)).add_ep(entry_point_address_v0_6(), vec![hash(100)], vec![], vec![]),
        MockBlock::new(hash(1)).add_ep(entry_point_address_v0_6(), vec![hash(101)], vec![], vec![]),
        MockBlock::new(hash(2)).add_ep(
            entry_point_address_v0_6(),
            vec![hash(102)],
            vec![Address::zero()],
            vec![addr(1)],
        ),
    ];
    sync_to_block(&mut chain, get_head(&blocks), &blocks).unwrap();
    // Replaces the head of the chain with three new blocks.
    blocks.pop();
    blocks.extend([
        MockBlock::new(hash(12)).add_ep(entry_point_address_v0_6(), vec![hash(112)], vec![], vec![]),
        MockBlock::new(hash(13)).add_ep(entry_point_address_v0_6(), vec![hash(113)], vec![], vec![]),
        MockBlock::new(hash(14)).add_ep(
            entry_point_address_v0_6(),
            vec![hash(114)],
            vec![],
            vec![addr(3)],
        ),
    ]);
    let update = sync_to_block(&mut chain, get_head(&blocks), &blocks).unwrap();
    assert_eq!(
        update,
        ChainUpdate {
            latest_block_number: 4,
            latest_block_hash: hash(14),
            latest_block_timestamp: 0,
            earliest_remembered_block_number: 2,
            reorg_depth: 1,
            mined_ops: vec![
                fake_mined_op(112, entry_point_address_v0_6()),
                fake_mined_op(113, entry_point_address_v0_6()),
                fake_mined_op(114, entry_point_address_v0_6()),
            ],
            unmined_ops: vec![fake_mined_op(102, entry_point_address_v0_6())],
            entity_balance_updates: vec![fake_mined_balance_update(
                addr(3),
                false,
                entry_point_address_v0_6()
            )],
            unmined_entity_balance_updates: vec![
                fake_mined_balance_update(addr(0), true, entry_point_address_v0_6()),
                fake_mined_balance_update(addr(1), false, entry_point_address_v0_6()),
            ],
            reorg_larger_than_history: false,
        }
    );
}

#[test]
fn test_sideways_reorg() {
    let mut chain = new_chain();
    let mut blocks = vec![
        MockBlock::new(hash(0)).add_ep(entry_point_address_v0_6(), vec![hash(100)], vec![], vec![]),
        MockBlock::new(hash(1)).add_ep(
            entry_point_address_v0_6(),
            vec![hash(101)],
            vec![addr(1)],
            vec![addr(9)],
        ),
        MockBlock::new(hash(2)).add_ep(entry_point_address_v0_6(), vec![hash(102)], vec![], vec![]),
    ];
    sync_to_block(&mut chain, get_head(&blocks), &blocks).unwrap();
    // Replaces the top two blocks with two new ones.
    blocks.pop();
    blocks.pop();
    blocks.extend([
        MockBlock::new(hash(11)).add_ep(
            entry_point_address_v0_6(),
            vec![hash(111)],
            vec![addr(2)],
            vec![],
        ),
        MockBlock::new(hash(12)).add_ep(entry_point_address_v0_6(), vec![hash(112)], vec![], vec![]),
    ]);
    let update = sync_to_block(&mut chain, get_head(&blocks), &blocks).unwrap();
    assert_eq!(
        update,
        ChainUpdate {
            entity_balance_updates: vec![fake_mined_balance_update(
                addr(2),
                true,
                entry_point_address_v0_6()
            )],
            latest_block_number: 2,
            latest_block_hash: hash(12),
            latest_block_timestamp: 0,
            earliest_remembered_block_number: 0,
            reorg_depth: 2,
            mined_ops: vec![
                fake_mined_op(111, entry_point_address_v0_6()),
                fake_mined_op(112, entry_point_address_v0_6()),
            ],
            unmined_ops: vec![
                fake_mined_op(101, entry_point_address_v0_6()),
                fake_mined_op(102, entry_point_address_v0_6()),
            ],
            unmined_entity_balance_updates: vec![
                fake_mined_balance_update(addr(1), true, entry_point_address_v0_6()),
                fake_mined_balance_update(addr(9), false, entry_point_address_v0_6()),
            ],
            reorg_larger_than_history: false,
        }
    );
}

#[test]
fn test_backwards_reorg() {
    let mut chain = new_chain();
    let mut blocks = vec![
        MockBlock::new(hash(0)).add_ep(entry_point_address_v0_6(), vec![hash(100)], vec![], vec![]),
        MockBlock::new(hash(1)).add_ep(entry_point_address_v0_6(), vec![hash(101)], vec![], vec![]),
        MockBlock::new(hash(2)).add_ep(entry_point_address_v0_6(), vec![hash(102)], vec![], vec![]),
    ];
    sync_to_block(&mut chain, get_head(&blocks), &blocks).unwrap();
    // Replaces the top two blocks with just one new one.
    blocks.pop();
    blocks.pop();
    blocks.push(MockBlock::new(hash(11)).add_ep(
        entry_point_address_v0_6(),
        vec![hash(111)],
        vec![addr(1)],
        vec![],
    ));
    let update = sync_to_block(&mut chain, get_head(&blocks), &blocks).unwrap();
    assert_eq!(
        update,
        ChainUpdate {
            latest_block_number: 1,
            entity_balance_updates: vec![fake_mined_balance_update(
                addr(1),
                true,
                entry_point_address_v0_6()
            )],
            latest_block_hash: hash(11),
            latest_block_timestamp: 0,
            earliest_remembered_block_number: 0,
            reorg_depth: 2,
            mined_ops: vec![fake_mined_op(111, entry_point_address_v0_6())],
            unmined_ops: vec![
                fake_mined_op(101, entry_point_address_v0_6()),
                fake_mined_op(102, entry_point_address_v0_6()),
            ],
            unmined_entity_balance_updates: vec![],
            reorg_larger_than_history: false,
        }
    );
}

#[test]
fn test_reorg_longer_than_history() {
    let mut chain = new_chain();
    let blocks = vec![
        MockBlock::new(hash(0)).add_ep(entry_point_address_v0_6(), vec![hash(100)], vec![], vec![]),
        MockBlock::new(hash(1)).add_ep(entry_point_address_v0_6(), vec![hash(101)], vec![], vec![]),
        MockBlock::new(hash(2)).add_ep(entry_point_address_v0_6(), vec![hash(102)], vec![], vec![]),
        MockBlock::new(hash(3)).add_ep(entry_point_address_v0_6(), vec![hash(103)], vec![], vec![]),
    ];
    sync_to_block(&mut chain, get_head(&blocks), &blocks).unwrap();
    // The history has size 3, so after this update it's completely unrecognizable.
    let blocks = vec![
        MockBlock::new(hash(0)).add_ep(entry_point_address_v0_6(), vec![hash(100)], vec![], vec![]),
        MockBlock::new(hash(11)).add_ep(entry_point_address_v0_6(), vec![hash(111)], vec![], vec![]),
        MockBlock::new(hash(12)).add_ep(entry_point_address_v0_6(), vec![hash(112)], vec![], vec![]),
        MockBlock::new(hash(13)).add_ep(entry_point_address_v0_6(), vec![hash(113)], vec![], vec![]),
    ];
    let update = sync_to_block(&mut chain, get_head(&blocks), &blocks).unwrap();
    assert_eq!(
        update,
        ChainUpdate {
            latest_block_number: 3,
            latest_block_hash: hash(13),
            latest_block_timestamp: 0,
            earliest_remembered_block_number: 1,
            reorg_depth: 3,
            mined_ops: vec![
                fake_mined_op(111, entry_point_address_v0_6()),
                fake_mined_op(112, entry_point_address_v0_6()),
                fake_mined_op(113, entry_point_address_v0_6()),
            ],
            unmined_ops: vec![
                fake_mined_op(101, entry_point_address_v0_6()),
                fake_mined_op(102, entry_point_address_v0_6()),
                fake_mined_op(103, entry_point_address_v0_6()),
            ],
            entity_balance_updates: vec![],
            unmined_entity_balance_updates: vec![],
            reorg_larger_than_history: true,
        }
    );
}

#[test]
fn test_advance_larger_than_history_size() {
    let mut chain = new_chain();
    let mut blocks = vec![
        MockBlock::new(hash(0)).add_ep(entry_point_address_v0_6(), vec![hash(100)], vec![], vec![]),
        MockBlock::new(hash(1)).add_ep(entry_point_address_v0_6(), vec![hash(101)], vec![], vec![]),
        MockBlock::new(hash(2)).add_ep(entry_point_address_v0_6(), vec![hash(102)], vec![], vec![]),
    ];
    sync_to_block(&mut chain, get_head(&blocks), &blocks).unwrap();
    for i in 3..7u8 {
        blocks.push(MockBlock::new(hash(10 + i)).add_ep(
            entry_point_address_v0_6(),
            vec![hash(100 + i)],
            vec![],
            vec![],
        ));
    }
    let update = sync_to_block(&mut chain, get_head(&blocks), &blocks).unwrap();
    assert_eq!(
        update,
        ChainUpdate {
            latest_block_number: 6,
            latest_block_hash: hash(16),
            latest_block_timestamp: 0,
            earliest_remembered_block_number: 4,
            reorg_depth: 0,
            entity_balance_updates: vec![],
            unmined_entity_balance_updates: vec![],
            mined_ops: vec![
                fake_mined_op(104, entry_point_address_v0_6()),
                fake_mined_op(105, entry_point_address_v0_6()),
                fake_mined_op(106, entry_point_address_v0_6()),
            ],
            unmined_ops: vec![],
            reorg_larger_than_history: false,
        }
    );
}

/// This test probably only matters for running against a local chain.
#[test]
fn test_latest_block_number_smaller_than_history_size() {
    let mut chain = new_chain();
    let blocks = vec![
        MockBlock::new(hash(0)).add_ep(
            entry_point_address_v0_6(),
            vec![hash(101), hash(102)],
            vec![],
            vec![],
        ),
        MockBlock::new(hash(1)).add_ep(entry_point_address_v0_6(), vec![hash(103)], vec![], vec![]),
    ];
    let update = sync_to_block(&mut chain, get_head(&blocks), &blocks).unwrap();
    assert_eq!(
        update,
        ChainUpdate {
            latest_block_number: 1,
            latest_block_hash: hash(1),
            latest_block_timestamp: 0,
            earliest_remembered_block_number: 0,
            reorg_depth: 0,
            mined_ops: vec![
                fake_mined_op(101, entry_point_address_v0_6()),
                fake_mined_op(102, entry_point_address_v0_6()),
                fake_mined_op(103, entry_point_address_v0_6()),
            ],
            unmined_ops: vec![],
            entity_balance_updates: vec![],
            unmined_entity_balance_updates: vec![],
            reorg_larger_than_history: false,
        }
    );
}

#[test]
fn test_mixed_event_types() {
    let mut chain = new_chain();
    let blocks = vec![MockBlock::new(hash(0))
        .add_ep(
            entry_point_address_v0_6(),
            vec![hash(101), hash(102)],
            vec![addr(1), addr(2)],
            vec![addr(3), addr(4)],
        )
        .add_ep(
            entry_point_address_v0_7(),
            vec![hash(201), hash(202)],
            vec![addr(5), addr(6)],
            vec![addr(7), addr(8)],
        )];
    let update = sync_to_block(&mut chain, get_head(&blocks), &blocks).unwrap();
    assert_eq!(
        update,
        ChainUpdate {
            latest_block_number: 0,
            latest_block_hash: hash(0),
            latest_block_timestamp: 0,
            earliest_remembered_block_number: 0,
            reorg_depth: 0,
            mined_ops: vec![
                fake_mined_op(101, entry_point_address_v0_6()),
                fake_mined_op(102, entry_point_address_v0_6()),
                fake_mined_op(201, entry_point_address_v0_7()),
                fake_mined_op(202, entry_point_address_v0_7()),
            ],
            unmined_ops: vec![],
            entity_balance_updates: vec![
                fake_mined_balance_update(addr(1), true, entry_point_address_v0_6()),
                fake_mined_balance_update(addr(2), true, entry_point_address_v0_6()),
                fake_mined_balance_update(addr(3), false, entry_point_address_v0_6()),
                fake_mined_balance_update(addr(4), false, entry_point_address_v0_6()),
                fake_mined_balance_update(addr(5), true, entry_point_address_v0_7()),
                fake_mined_balance_update(addr(6), true, entry_point_address_v0_7()),
                fake_mined_balance_update(addr(7), false, entry_point_address_v0_7()),
                fake_mined_balance_update(addr(8), false, entry_point_address_v0_7()),
            ],
            unmined_entity_balance_updates: vec![],
            reorg_larger_than_history: false,
        }
    );
}

#[test]
fn buffer_stays_linked_and_bounded() {
    let mut chain = new_chain();
    let mut blocks = vec![
        MockBlock::new(hash(0)).add_ep(entry_point_address_v0_6(), vec![hash(100)], vec![], vec![]),
        MockBlock::new(hash(1)).add_ep(entry_point_address_v0_6(), vec![hash(101)], vec![], vec![]),
        MockBlock::new(hash(2)).add_ep(entry_point_address_v0_6(), vec![hash(102)], vec![], vec![]),
    ];
    sync_to_block(&mut chain, get_head(&blocks), &blocks).unwrap();
    blocks.pop();
    blocks.extend([
        MockBlock::new(hash(12)).add_ep(entry_point_address_v0_6(), vec![hash(112)], vec![], vec![]),
        MockBlock::new(hash(13)).add_ep(entry_point_address_v0_6(), vec![hash(113)], vec![], vec![]),
    ]);
    sync_to_block(&mut chain, get_head(&blocks), &blocks).unwrap();
    assert!(chain.blocks.len() <= HISTORY_SIZE as usize);
    for i in 1..chain.blocks.len() {
        assert_eq!(chain.blocks[i].number, chain.blocks[i - 1].number + 1);
        assert_eq!(chain.blocks[i].parent_hash, chain.blocks[i - 1].hash);
    }
}

#[test]
fn earliest_remembered_matches_buffer_front() {
    let mut chain = new_chain();
    let blocks = vec![
        MockBlock::new(hash(0)).add_ep(entry_point_address_v0_6(), vec![hash(100)], vec![], vec![]),
        MockBlock::new(hash(1)).add_ep(entry_point_address_v0_6(), vec![hash(101)], vec![], vec![]),
        MockBlock::new(hash(2)).add_ep(entry_point_address_v0_6(), vec![hash(102)], vec![], vec![]),
        MockBlock::new(hash(3)).add_ep(entry_point_address_v0_6(), vec![hash(103)], vec![], vec![]),
    ];
    let update = sync_to_block(&mut chain, get_head(&blocks), &blocks).unwrap();
    assert_eq!(
        update.earliest_remembered_block_number,
        chain.blocks.front().unwrap().number
    );
}

#[test]
fn op_accounting_across_updates() {
    // Across the initial load and a forward reorg, every op hash is mined
    // and unmined a matching number of times relative to the final window.
    let mut chain = new_chain();
    let mut blocks = vec![
        MockBlock::new(hash(0)).add_ep(entry_point_address_v0_6(), vec![hash(100)], vec![], vec![]),
        MockBlock::new(hash(1)).add_ep(entry_point_address_v0_6(), vec![hash(101)], vec![], vec![]),
        MockBlock::new(hash(2)).add_ep(entry_point_address_v0_6(), vec![hash(102)], vec![], vec![]),
    ];
    let first = sync_to_block(&mut chain, get_head(&blocks), &blocks).unwrap();
    blocks.pop();
    blocks.extend([
        MockBlock::new(hash(12)).add_ep(entry_point_address_v0_6(), vec![hash(112)], vec![], vec![]),
        MockBlock::new(hash(13)).add_ep(entry_point_address_v0_6(), vec![hash(113)], vec![], vec![]),
    ]);
    let second = sync_to_block(&mut chain, get_head(&blocks), &blocks).unwrap();
    let count = |ops: &[MinedOp], h: Hash32| ops.iter().filter(|op| op.hash == h).count() as i64;
    let balance = |h: Hash32| {
        count(&first.mined_ops, h) - count(&first.unmined_ops, h) + count(&second.mined_ops, h)
            - count(&second.unmined_ops, h)
    };
    // Op 102 was mined and then unmined by the reorg; ops 112 and 113 are
    // mined in the final window; ops 100 and 101 are still in the window.
    assert_eq!(balance(hash(102)), 0);
    assert_eq!(balance(hash(112)), 1);
    assert_eq!(balance(hash(113)), 1);
    assert_eq!(balance(hash(100)), 1);
    assert_eq!(balance(hash(101)), 1);
}

#[test]
fn stale_head_errors_then_forces_reset() {
    let mut chain = new_chain();
    let mut blocks = vec![MockBlock::new(hash(0)).add_ep(
        entry_point_address_v0_6(),
        vec![hash(100)],
        vec![],
        vec![],
    )];
    for i in 1..11u8 {
        blocks.push(MockBlock::new(hash(i)).add_ep(
            entry_point_address_v0_6(),
            vec![hash(100 + i)],
            vec![],
            vec![],
        ));
    }
    sync_to_block(&mut chain, get_head(&blocks), &blocks).unwrap();
    // Current head is block 10; block 6 is more than history_size behind.
    let stale = get_block(&blocks, hash(6)).unwrap();
    for _ in 0..49 {
        assert_eq!(sync_to_block(&mut chain, stale, &blocks), Err(ChainError::StaleHead));
    }
    // The 50th consecutive stale head forces a reset around the stale head.
    let update = sync_to_block(&mut chain, stale, &blocks).unwrap();
    assert_eq!(update.latest_block_number, 6);
    assert_eq!(update.earliest_remembered_block_number, 4);
    assert_eq!(update.reorg_depth, 0);
    assert_eq!(
        update.mined_ops,
        vec![
            fake_mined_op(104, entry_point_address_v0_6()),
            fake_mined_op(105, entry_point_address_v0_6()),
            fake_mined_op(106, entry_point_address_v0_6()),
        ]
    );
}

#[test]
fn wrong_block_number_fails_sync() {
    let mut chain = new_chain();
    let head = BlockHeader { number: 5, hash: hash(5), parent_hash: hash(4), timestamp: 0 };
    let action = chain.begin_sync(head);
    assert!(matches!(action, SyncAction::FetchBlock { hash: h } if h == hash(4)));
    // The provider hands back a block with the wrong number.
    let bad = BlockHeader { number: 7, hash: hash(4), parent_hash: hash(3), timestamp: 0 };
    let action = chain.on_event(SyncEvent::Block { header: bad });
    assert!(matches!(
        action,
        SyncAction::Fail { error: ChainError::ProviderInconsistent }
    ));
}

#[test]
fn missing_block_retries_then_fails() {
    let mut chain = new_chain();
    let head = BlockHeader { number: 5, hash: hash(5), parent_hash: hash(4), timestamp: 0 };
    let action = chain.begin_sync(head);
    assert!(matches!(action, SyncAction::FetchBlock { .. }));
    // max_sync_retries is 1, so the single failed attempt ends the sync.
    let action = chain.on_event(SyncEvent::BlockNotFound);
    assert!(matches!(
        action,
        SyncAction::Fail { error: ChainError::ProviderTransient }
    ));
}

#[test]
fn missing_block_retries_after_sleep_then_succeeds() {
    let mut settings = new_settings();
    settings.max_sync_retries = 2;
    let mut chain = Chain::new(settings);
    let blocks = vec![
        MockBlock::new(hash(0)).add_ep(entry_point_address_v0_6(), vec![hash(100)], vec![], vec![]),
        MockBlock::new(hash(1)).add_ep(entry_point_address_v0_6(), vec![hash(101)], vec![], vec![]),
    ];
    let action = chain.begin_sync(get_head(&blocks));
    assert!(matches!(action, SyncAction::FetchBlock { hash: h } if h == hash(0)));
    // The first attempt fails; the engine asks for a retry after a sleep.
    let action = chain.on_event(SyncEvent::BlockNotFound);
    assert!(matches!(action, SyncAction::SleepThenFetchBlock { hash: h } if h == hash(0)));
    // The second attempt succeeds and the sync completes.
    let header = get_block(&blocks, hash(0)).unwrap();
    let mut action = chain.on_event(SyncEvent::Block { header });
    loop {
        match action {
            SyncAction::FetchLogs { hashes } => {
                let logs: Vec<Vec<RawLog>> =
                    hashes.iter().map(|h| get_logs(&blocks, *h)).collect();
                action = chain.on_event(SyncEvent::Logs { logs });
            }
            SyncAction::Done { update } => {
                assert_eq!(update.latest_block_number, 1);
                assert_eq!(
                    update.mined_ops,
                    vec![
                        fake_mined_op(100, entry_point_address_v0_6()),
                        fake_mined_op(101, entry_point_address_v0_6()),
                    ]
                );
                return;
            }
            other => panic!("unexpected action: {other:?}"),
        }
    }
}

#[test]
fn unspecified_version_logs_are_skipped() {
    let settings = Settings {
        history_size: HISTORY_SIZE,
        poll_interval_millis: 250,
        entry_point_addresses: vec![
            (entry_point_address_v0_6(), EntryPointVersion::V0_6),
            (addr(50), EntryPointVersion::Unspecified),
        ],
        max_sync_retries: 1,
    };
    let logs = vec![RawLog {
        address: addr(50),
        payload: LogPayload::UserOperation(Some(UserOperationEventData {
            user_op_hash: hash(1),
            sender: Address::zero(),
            paymaster: Address::zero(),
            nonce: Uint256::zero(),
            success: true,
            actual_gas_cost: Uint256::zero(),
            actual_gas_used: Uint256::zero(),
        })),
    }];
    let (ops, balance_updates) = decode_logs(&settings, &logs);
    assert!(ops.is_empty());
    assert!(balance_updates.is_empty());
}

#[test]
fn zero_retries_cannot_walk() {
    let mut settings = new_settings();
    settings.max_sync_retries = 0;
    let mut chain = Chain::new(settings);
    let head = BlockHeader { number: 2, hash: hash(2), parent_hash: hash(1), timestamp: 0 };
    let action = chain.begin_sync(head);
    assert!(matches!(
        action,
        SyncAction::Fail { error: ChainError::ProviderTransient }
    ));
}

#[test]
fn genesis_sync_needs_no_walk() {
    let mut settings = new_settings();
    settings.max_sync_retries = 0;
    let mut chain = Chain::new(settings);
    let blocks = vec![MockBlock::new(hash(0)).add_ep(
        entry_point_address_v0_6(),
        vec![hash(100)],
        vec![],
        vec![],
    )];
    let update = sync_to_block(&mut chain, get_head(&blocks), &blocks).unwrap();
    assert_eq!(update.latest_block_number, 0);
    assert_eq!(update.mined_ops, vec![fake_mined_op(100, entry_point_address_v0_6())]);
}

#[test]
fn block_with_number_looks_up_window() {
    let mut chain = new_chain();
    let blocks = vec![
        MockBlock::new(hash(0)).add_ep(entry_point_address_v0_6(), vec![], vec![], vec![]),
        MockBlock::new(hash(1)).add_ep(entry_point_address_v0_6(), vec![], vec![], vec![]),
        MockBlock::new(hash(2)).add_ep(entry_point_address_v0_6(), vec![], vec![], vec![]),
        MockBlock::new(hash(3)).add_ep(entry_point_address_v0_6(), vec![], vec![], vec![]),
    ];
    sync_to_block(&mut chain, get_head(&blocks), &blocks).unwrap();
    // The window is blocks 1..=3.
    assert!(chain.block_with_number(0).is_none());
    assert_eq!(chain.block_with_number(1).unwrap().hash, hash(1));
    assert_eq!(chain.block_with_number(3).unwrap().hash, hash(3));
    assert!(chain.block_with_number(4).is_none());
}

#[test]
fn deduped_ops_cancels_remined_ops() {
    let update = ChainUpdate {
        mined_ops: vec![
            fake_mined_op(1, entry_point_address_v0_6()),
            fake_mined_op(2, entry_point_address_v0_6()),
        ],
        unmined_ops: vec![
            fake_mined_op(2, entry_point_address_v0_6()),
            fake_mined_op(3, entry_point_address_v0_6()),
        ],
        ..Default::default()
    };
    let deduped = update.deduped_ops();
    assert_eq!(deduped.mined_ops, vec![fake_mined_op(1, entry_point_address_v0_6())]);
    assert_eq!(deduped.unmined_ops, vec![fake_mined_op(3, entry_point_address_v0_6())]);
    // The update's own lists are untouched.
    assert_eq!(update.mined_ops.len(), 2);
    assert_eq!(update.unmined_ops.len(), 2);
}

#[test]
fn decode_skips_unknown_and_malformed_logs() {
    let settings = new_settings();
    let logs = vec![
        // Unknown emitting address: skipped.
        RawLog {
            address: addr(77),
            payload: LogPayload::UserOperation(Some(UserOperationEventData {
                user_op_hash: hash(1),
                sender: Address::zero(),
                paymaster: Address::zero(),
                nonce: Uint256::zero(),
                success: true,
                actual_gas_cost: Uint256::zero(),
                actual_gas_used: Uint256::zero(),
            })),
        },
        // Malformed payload for a recognized signature: skipped.
        RawLog {
            address: entry_point_address_v0_6(),
            payload: LogPayload::UserOperation(None),
        },
        // Unrecognized leading topic: skipped.
        RawLog { address: entry_point_address_v0_6(), payload: LogPayload::Other },
        // A well-formed deposit.
        RawLog {
            address: entry_point_address_v0_6(),
            payload: LogPayload::Deposited(Some(DepositedData {
                account: addr(4),
                total_deposit: Uint256::zero(),
            })),
        },
    ];
    let (ops, balance_updates) = decode_logs(&settings, &logs);
    assert!(ops.is_empty());
    assert_eq!(
        balance_updates,
        vec![fake_mined_balance_update(addr(4), true, entry_point_address_v0_6())]
    );
}

#[test]
fn paymaster_kept_only_when_nonzero() {
    let mut mined_ops: Vec<MinedOp> = Vec::new();
    let mut balance_updates: Vec<BalanceUpdate> = Vec::new();
    let log = RawLog {
        address: entry_point_address_v0_6(),
        payload: LogPayload::UserOperation(Some(UserOperationEventData {
            user_op_hash: hash(9),
            sender: addr(1),
            paymaster: addr(5),
            nonce: Uint256::zero(),
            success: true,
            actual_gas_cost: Uint256::zero(),
            actual_gas_used: Uint256::zero(),
        })),
    };
    load_v0_6(log, &mut mined_ops, &mut balance_updates);
    assert_eq!(mined_ops[0].paymaster, Some(addr(5)));
    let zero_paymaster = RawLog {
        address: entry_point_address_v0_6(),
        payload: LogPayload::UserOperation(Some(UserOperationEventData {
            user_op_hash: hash(10),
            sender: addr(1),
            paymaster: Address::zero(),
            nonce: Uint256::zero(),
            success: true,
            actual_gas_cost: Uint256::zero(),
            actual_gas_used: Uint256::zero(),
        })),
    };
    load_v0_6(zero_paymaster, &mut mined_ops, &mut balance_updates);
    assert_eq!(mined_ops[1].paymaster, None);
    assert!(balance_updates.is_empty());
}

#[test]
fn filter_template_follows_configured_versions() {
    let chain = new_chain();
    assert_eq!(
        chain.filter_addresses,
        vec![entry_point_address_v0_6(), entry_point_address_v0_7()]
    );
    assert_eq!(chain.filter_events.len(), 6);
    assert_eq!(chain.filter_events[0].version, EntryPointVersion::V0_6);
    assert_eq!(chain.filter_events[0].kind, EventKind::UserOperation);
    assert_eq!(chain.filter_events[1].kind, EventKind::Deposited);
    assert_eq!(chain.filter_events[2].kind, EventKind::Withdrawn);
    assert_eq!(chain.filter_events[3].version, EntryPointVersion::V0_7);

    let only_v0_6 = Chain::new(Settings {
        history_size: HISTORY_SIZE,
        poll_interval_millis: 250,
        entry_point_addresses: vec![(entry_point_address_v0_6(), EntryPointVersion::V0_6)],
        max_sync_retries: 1,
    });
    assert_eq!(only_v0_6.filter_events.len(), 3);
    assert!(only_v0_6
        .filter_events
        .iter()
        .all(|s| s.version == EntryPointVersion::V0_6));
}

#[test]
fn mined_op_id_is_sender_and_nonce() {
    let op = MinedOp {
        hash: hash(7),
        entry_point: entry_point_address_v0_6(),
        sender: addr(2),
        nonce: Uint256 { u0: 0, u1: 0, u2: 0, u3: 9 },
        actual_gas_cost: Uint256::zero(),
        paymaster: None,
    };
    let id = op.id();
    assert_eq!(id.sender, addr(2));
    assert_eq!(id.nonce, Uint256 { u0: 0, u1: 0, u2: 0, u3: 9 });
}
