//! What notifications make of the state.

use rex_sim::account::AccountInfo;
use rex_sim::block::{Header, Log, Receipt, SealedHeader};
use rex_sim::builder::RexSim;
use rex_sim::chain::{
    extract_block_data, extract_execution_changes, extract_logs, BundleAccount, BundleState, Chain,
    ChainBlock, Notification, StorageSlot,
};
use rex_sim::changeset::{ChangesetManager, StateUpdate};
use rex_sim::code::Bytecode;
use rex_sim::fetch::FetchConfig;
use rex_sim::primitives::{Address, B256, U256};
use rex_sim::state::{Read, StateSnapshot, StateValidity, StaticState};
use rex_sim::table::Table;
use rex_sim::transitions::{CacheMergeStats, Caches};

fn hash(n: u64) -> B256 {
    B256 { hi: 0, lo: n as u128 }
}

fn addr(n: u64) -> Address {
    Address { hi: 0, lo: n as u128 }
}

fn u(n: u64) -> U256 {
    U256::from_u64(n)
}

fn account_info(balance: u64) -> AccountInfo {
    AccountInfo { balance: u(balance), nonce: 0, code_hash: hash(0), account_id: None, code: None }
}

fn block(number: u64, own: u64, parent: u64) -> ChainBlock {
    let zero = B256::zero();
    ChainBlock {
        header: SealedHeader {
            header: Header {
                parent_hash: hash(parent),
                ommers_hash: zero,
                beneficiary: addr(0),
                state_root: zero,
                transactions_root: zero,
                receipts_root: zero,
                logs_bloom: [0; 256],
                difficulty: u(0),
                number,
                gas_limit: 0,
                gas_used: 0,
                timestamp: 0,
                extra_data: vec![],
                mix_hash: zero,
                nonce: 0,
                base_fee_per_gas: None,
                withdrawals_root: None,
                blob_gas_used: None,
                excess_blob_gas: None,
                parent_beacon_block_root: None,
                requests_hash: None,
                block_access_list_hash: None,
                slot_number: None,
            },
            hash: hash(own),
        },
        withdrawals: None,
        tx_hashes: vec![hash(own + 1_000)],
    }
}

fn log(n: u64) -> Log {
    Log { address: addr(n), topics: vec![hash(n)], data: vec![n as u8] }
}

fn receipt(gas: u64, logs: Vec<Log>) -> Receipt {
    Receipt { tx_type: 2, success: true, cumulative_gas_used: gas, logs }
}

fn bundle(accounts: &[(u64, Option<u64>, &[(u64, u64)])]) -> BundleState {
    let mut state = Table::new();
    for (n, balance, slots) in accounts {
        let mut storage = Table::new();
        for (slot, value) in slots.iter() {
            storage.insert(
                u(*slot),
                StorageSlot { previous_or_original_value: u(0), present_value: u(*value) },
            );
        }
        state.insert(addr(*n), BundleAccount { info: balance.map(account_info), storage });
    }
    BundleState { state, contracts: Table::new() }
}

/// Blocks with hashes equal to their numbers, and one receipt each.
fn chain(first: u64, last: u64, bundle: BundleState) -> Chain {
    let blocks: Vec<ChainBlock> = (first..=last).map(|n| block(n, n, n.wrapping_sub(1))).collect();
    let receipts = (first..=last).map(|n| vec![receipt(n, vec![log(n)])]).collect();
    Chain::new(blocks, receipts, bundle).unwrap()
}

fn commit(first: u64, last: u64) -> Notification {
    Notification::ChainCommitted { new: chain(first, last, bundle(&[])) }
}

fn manager_at(number: u64) -> ChangesetManager {
    let snapshot = StateSnapshot { block: number, block_hash: hash(number), ..Default::default() };
    ChangesetManager::new(StaticState::new(snapshot, FetchConfig::default()), true)
}

#[test]
fn first_commit_is_taken_unconditionally() {
    let mut manager = ChangesetManager::new(
        StaticState::new(StateSnapshot::default(), FetchConfig::default()),
        true,
    );
    let reaction = manager.handle(&commit(500, 501), Caches::default(), true);
    assert_eq!(
        reaction.update,
        Some(StateUpdate { block: 501, block_hash: hash(501), generation: 1 })
    );
    assert_eq!(reaction.ready, Some(501));
    assert_eq!(reaction.logs.unwrap().len(), 2);
    assert!(!manager.awaits_ready());
    let state = manager.state();
    assert_eq!(state.block(), 501);
    assert_eq!(state.block_hash(), hash(501));
    assert_eq!(state.header().unwrap().header.number, 501);
    assert_eq!(state.receipts(500).unwrap()[0].cumulative_gas_used, 500);
    assert_eq!(state.receipts_and_tx_hashes(501).unwrap().1, vec![hash(1_501)]);
}

#[test]
fn commit_applies_to_what_is_held() {
    let mut snapshot = StateSnapshot { block: 99, block_hash: hash(99), ..Default::default() };
    snapshot.accounts.insert(addr(1), account_info(10));
    snapshot.storage.insert((addr(1), u(5)), u(50));
    snapshot.storage.insert((addr(2), u(5)), u(51));
    let mut manager = ChangesetManager::new(StaticState::new(snapshot, FetchConfig::default()), false);

    let mut caches = Caches::default();
    caches.accounts.block_hash = hash(99);
    caches.accounts.data.insert(addr(3), account_info(30));
    caches.storage.block_hash = hash(98);
    caches.storage.data.insert((addr(3), u(5)), u(52));

    let new = chain(
        100,
        100,
        bundle(&[(1, Some(11), &[(5, 55), (6, 66)]), (2, None, &[(5, 56)]), (4, Some(40), &[])]),
    );
    let reaction = manager.handle(&Notification::ChainCommitted { new }, caches, false);
    assert!(reaction.logs.is_none());
    assert_eq!(reaction.ready, None);
    assert_eq!(
        reaction.cache_stats,
        Some(CacheMergeStats { accounts_merged: 1, storage_discarded: 1, ..Default::default() })
    );

    let snapshot = manager.state().snapshot();
    assert_eq!(snapshot.accounts.get(&addr(1)).unwrap().balance, u(11));
    assert_eq!(snapshot.accounts.get(&addr(3)).unwrap().balance, u(30));
    assert!(!snapshot.accounts.contains_key(&addr(4)));
    assert_eq!(snapshot.accounts.len(), 2);
    assert_eq!(snapshot.storage.get(&(addr(1), u(5))), Some(&u(55)));
    assert_eq!(snapshot.storage.get(&(addr(2), u(5))), Some(&u(56)));
    assert!(!snapshot.storage.contains_key(&(addr(1), u(6))));
    assert!(!snapshot.storage.contains_key(&(addr(3), u(5))));
    assert_eq!(
        manager.state().changed_accounts(100),
        Some(vec![addr(1), addr(2), addr(4)])
    );
}

#[test]
fn gap_marks_stale_and_keeps_everything() {
    let mut snapshot = StateSnapshot { block: 99, block_hash: hash(99), ..Default::default() };
    snapshot.accounts.insert(addr(1), account_info(10));
    let mut manager = ChangesetManager::new(StaticState::new(snapshot, FetchConfig::default()), true);
    let guard = manager.state().guard();

    let reaction = manager.handle(&commit(101, 101), Caches::default(), true);
    assert!(reaction.update.is_none());
    assert!(reaction.logs.is_none());
    assert!(reaction.ready.is_none());
    assert!(reaction.cache_stats.is_none());
    assert!(manager.awaits_ready());
    let state = manager.state();
    assert!(state.is_stale());
    assert_eq!(state.block(), 99);
    assert_eq!(state.generation(), 1);
    assert_eq!(state.check_guard(&guard), StateValidity::BecameStale);
    assert!(state.basic_ref(addr(1)).is_err());
    assert!(state.snapshot().accounts.contains_key(&addr(1)));
}

#[test]
fn overlap_without_the_held_block_marks_stale() {
    let mut manager = manager_at(99);
    let blocks = vec![block(98, 9_998, 97), block(99, 9_999, 9_998)];
    let new = Chain::new(blocks, vec![vec![], vec![]], bundle(&[])).unwrap();
    let reaction = manager.handle(&Notification::ChainCommitted { new }, Caches::default(), true);
    assert!(reaction.update.is_none());
    assert!(manager.state().is_stale());
}

#[test]
fn stale_state_recovers_by_any_commit() {
    let mut manager = manager_at(99);
    manager.handle(&commit(105, 105), Caches::default(), false);
    assert!(manager.state().is_stale());
    let reaction = manager.handle(&commit(200, 200), Caches::default(), false);
    assert_eq!(
        reaction.update,
        Some(StateUpdate { block: 200, block_hash: hash(200), generation: 2 })
    );
    assert_eq!(reaction.ready, Some(200));
    assert!(!manager.state().is_stale());
    assert!(matches!(
        manager.state().basic_ref(addr(1)).unwrap(),
        Read::Unknown(request) if request.block_hash == hash(200)
    ));
}

/// A block was missed, so nothing that was held before can be shown to hold.
#[test]
fn recovery_starts_from_scratch() {
    let mut snapshot = StateSnapshot { block: 99, block_hash: hash(99), ..Default::default() };
    snapshot.accounts.insert(addr(1), account_info(10));
    snapshot.storage.insert((addr(1), u(5)), u(50));
    snapshot.block_hashes.insert(99, hash(99));
    snapshot.code.insert(hash(3), Bytecode::new_raw(vec![0x60, 0x01]));
    snapshot.push_changed_accounts(99, vec![addr(1)]);
    let mut manager = ChangesetManager::new(StaticState::new(snapshot, FetchConfig::default()), false);
    manager.handle(&commit(101, 101), Caches::default(), false);
    assert!(manager.state().is_stale());
    assert!(manager.state().snapshot().accounts.contains_key(&addr(1)));

    let new = chain(102, 102, bundle(&[(2, Some(20), &[(6, 60)])]));
    let reaction =
        manager.handle(&Notification::ChainCommitted { new }, Caches::default(), false);
    assert_eq!(
        reaction.update,
        Some(StateUpdate { block: 102, block_hash: hash(102), generation: 2 })
    );
    assert_eq!(reaction.cache_stats, Some(CacheMergeStats::default()));
    let state = manager.state();
    assert!(!state.is_stale());
    let snapshot = state.snapshot();
    assert!(snapshot.accounts.is_empty());
    assert!(snapshot.storage.is_empty());
    assert_eq!(snapshot.block_hashes.len(), 1);
    assert_eq!(snapshot.block_hashes.get(&102), Some(&hash(102)));
    assert!(snapshot.code.contains_key(&hash(3)));
    assert_eq!(state.changed_accounts(99), None);
    assert_eq!(state.changed_accounts(102), Some(vec![addr(2)]));
    assert!(state.receipts(102).is_some());
    assert!(matches!(
        state.basic_ref(addr(1)).unwrap(),
        Read::Unknown(request) if request.block == 102 && request.block_hash == hash(102)
    ));
    assert!(matches!(
        state.storage_ref(addr(1), u(5)).unwrap(),
        Read::Unknown(request) if request.block == 102 && request.block_hash == hash(102)
    ));
    assert!(matches!(state.block_hash_ref(99).unwrap(), Read::Unknown(_)));
}

/// What was read before the gap is dropped and counted, whatever block it was
/// read at; code is taken over.
#[test]
fn recovery_drops_what_was_read_before() {
    for tag in [hash(99), B256::zero(), hash(200)] {
        let mut manager = manager_at(99);
        manager.handle(&commit(101, 101), Caches::default(), false);
        let mut caches = Caches::default();
        caches.accounts.block_hash = tag;
        caches.accounts.data.insert(addr(3), account_info(30));
        caches.storage.block_hash = tag;
        caches.storage.data.insert((addr(3), u(5)), u(52));
        caches.storage.data.insert((addr(3), u(6)), u(53));
        caches.block_hashes.block_hash = tag;
        caches.block_hashes.data.insert(7, hash(7));
        caches.code.data.insert(hash(3), Bytecode::new_raw(vec![0x60, 0x01]));
        let reaction = manager.handle(&commit(200, 200), caches, false);
        assert_eq!(
            reaction.cache_stats,
            Some(CacheMergeStats {
                accounts_discarded: 1,
                storage_discarded: 2,
                block_hashes_discarded: 1,
                code_merged: 1,
                ..Default::default()
            })
        );
        let snapshot = manager.state().snapshot();
        assert!(!snapshot.stale);
        assert!(snapshot.accounts.is_empty());
        assert!(snapshot.storage.is_empty());
        assert!(!snapshot.block_hashes.contains_key(&7));
        assert!(snapshot.code.contains_key(&hash(3)));
    }
}

#[test]
fn reorg_replaces_what_was_held() {
    let mut manager = manager_at(97);
    manager.handle(&commit(98, 98), Caches::default(), false);
    manager.handle(&commit(99, 100), Caches::default(), false);

    let old = chain(99, 100, bundle(&[]));
    let blocks = vec![block(99, 9_099, 98), block(100, 9_100, 9_099), block(101, 9_101, 9_100)];
    let receipts = vec![vec![receipt(1, vec![])], vec![receipt(2, vec![])], vec![]];
    let new = Chain::new(blocks, receipts, bundle(&[(7, Some(1), &[])])).unwrap();
    let mut caches = Caches::default();
    caches.accounts.block_hash = hash(100);
    caches.accounts.data.insert(addr(3), account_info(30));
    let reaction = manager.handle(&Notification::ChainReorged { old, new }, caches, true);

    assert_eq!(
        reaction.update,
        Some(StateUpdate { block: 101, block_hash: hash(9_101), generation: 3 })
    );
    assert!(reaction.logs.is_none());
    assert!(reaction.cache_stats.is_none());
    let state = manager.state();
    assert!(!state.is_stale());
    let snapshot = state.snapshot();
    assert!(snapshot.accounts.is_empty());
    assert!(snapshot.storage.is_empty());
    assert_eq!(snapshot.block_hashes.get(&98), Some(&hash(98)));
    assert_eq!(snapshot.block_hashes.get(&99), Some(&hash(9_099)));
    assert_eq!(snapshot.block_hashes.get(&100), Some(&hash(9_100)));
    assert_eq!(state.receipts(98).unwrap()[0].cumulative_gas_used, 98);
    assert_eq!(state.receipts(100).unwrap()[0].cumulative_gas_used, 2);
    assert_eq!(state.changed_accounts(98), Some(vec![]));
    assert_eq!(state.changed_accounts(100), None);
    assert_eq!(state.changed_accounts(101), Some(vec![addr(7)]));
}

#[test]
fn reorg_of_another_chain_marks_stale() {
    let mut manager = manager_at(99);
    let old = chain(97, 98, bundle(&[]));
    let new = chain(97, 98, bundle(&[]));
    let reaction =
        manager.handle(&Notification::ChainReorged { old, new }, Caches::default(), true);
    assert!(reaction.update.is_none());
    assert!(manager.state().is_stale());
    assert_eq!(manager.state().block(), 99);
}

#[test]
fn stale_state_stays_stale_through_a_reorg() {
    let mut manager = manager_at(99);
    manager.handle(&commit(105, 105), Caches::default(), false);
    let old = chain(99, 99, bundle(&[]));
    let new = chain(99, 100, bundle(&[]));
    manager.handle(&Notification::ChainReorged { old, new }, Caches::default(), false);
    assert!(manager.state().is_stale());
    assert_eq!(manager.state().block(), 100);
    assert!(manager.state().basic_ref(addr(1)).is_err());
    manager.handle(&commit(101, 101), Caches::default(), false);
    assert!(!manager.state().is_stale());
}

#[test]
fn revert_goes_back_and_is_stale() {
    let mut manager = manager_at(97);
    manager.handle(&commit(98, 100), Caches::default(), false);
    let old = chain(99, 100, bundle(&[]));
    let reaction = manager.handle(&Notification::ChainReverted { old }, Caches::default(), true);
    assert_eq!(
        reaction.update,
        Some(StateUpdate { block: 98, block_hash: B256::zero(), generation: 2 })
    );
    assert!(reaction.logs.is_none());
    assert!(reaction.ready.is_none());
    let state = manager.state();
    assert!(state.is_stale());
    assert_eq!(state.block(), 98);
    assert!(state.receipts(98).is_some());
    assert!(state.receipts(99).is_none());
}

#[test]
fn revert_does_not_make_ready() {
    let mut manager = manager_at(99);
    let old = chain(0, 0, bundle(&[]));
    let reaction = manager.handle(&Notification::ChainReverted { old }, Caches::default(), true);
    assert_eq!(reaction.update.unwrap().block, 0);
    assert!(manager.awaits_ready());
    assert_eq!(
        manager.handle(&commit(1, 1), Caches::default(), true).ready,
        Some(1)
    );
    assert_eq!(
        manager.handle(&commit(2, 2), Caches::default(), true).ready,
        None
    );
}

#[test]
fn greatest_block_cannot_be_judged() {
    let manager = manager_at(u64::MAX);
    assert!(!manager.can_judge(&commit(1, 1)));
    assert!(manager.can_judge(&Notification::ChainReverted { old: chain(1, 1, bundle(&[])) }));
    assert!(manager_at(5).can_judge(&commit(1, 1)));
}

#[test]
fn chain_needs_a_block() {
    assert!(Chain::new(vec![], vec![], bundle(&[])).is_none());
    let one = chain(5, 7, bundle(&[]));
    assert_eq!(one.len(), 3);
    assert_eq!(one.first().number(), 5);
    assert_eq!(one.last().hash(), hash(7));
    assert_eq!(one.tip().number, 7);
    assert_eq!(one.ancestor(), 4);
    assert_eq!(chain(0, 1, bundle(&[])).ancestor(), 0);
}

#[test]
fn only_blocks_with_receipts_are_extracted() {
    let blocks = vec![block(5, 5, 4), block(6, 6, 5)];
    let receipts = vec![vec![receipt(9, vec![log(1), log(2)])]];
    let short = Chain::new(blocks, receipts, bundle(&[])).unwrap();
    assert_eq!(short.numbered_hashes(), vec![(5, hash(5))]);
    let data = extract_block_data(&short);
    assert_eq!(data.len(), 1);
    assert_eq!(data[0].number, 5);
    assert_eq!(data[0].tx_hashes, vec![hash(1_005)]);
    assert_eq!(data[0].receipts[0].cumulative_gas_used, 9);
    assert_eq!(short.tip().number, 6);
}

#[test]
fn logs_come_in_order() {
    let blocks = vec![block(5, 5, 4), block(6, 6, 5)];
    let receipts = vec![
        vec![receipt(1, vec![log(1), log(2)]), receipt(2, vec![]), receipt(3, vec![log(3)])],
        vec![receipt(4, vec![log(4)])],
    ];
    let made = Chain::new(blocks, receipts, bundle(&[])).unwrap();
    let order: Vec<u8> = extract_logs(&made).iter().map(|log| log.data[0]).collect();
    assert_eq!(order, vec![1, 2, 3, 4]);
}

#[test]
fn execution_changes_take_present_values_and_code() {
    let mut state = bundle(&[(1, Some(11), &[(5, 55)])]);
    state.contracts.insert(hash(3), Bytecode::new_raw(vec![0x60, 0x01]));
    let made = Chain::new(vec![block(5, 5, 4)], vec![], state).unwrap();
    let changes = extract_execution_changes(&made);
    let change = changes.accounts.get(&addr(1)).unwrap();
    assert_eq!(change.info.as_ref().unwrap().balance, u(11));
    assert_eq!(change.storage.get(&u(5)), Some(&u(55)));
    assert_eq!(
        changes.contracts.get(&hash(3)).unwrap().original_bytes(),
        vec![0x60, 0x01]
    );
}

#[test]
fn simulator_stands_where_its_manager_does() {
    let mut sim: RexSim<u8> = RexSim::builder().build();
    assert_eq!(sim.block(None), 0);
    let mut manager = sim.spawn().manager;
    assert_eq!(sim.block(Some(manager.state())), 0);
    manager.handle(&commit(500, 501), Caches::default(), false);
    assert_eq!(sim.block(Some(manager.state())), 501);
}
