//! How snapshots follow from one another.

use rex_sim::account::AccountInfo;
use rex_sim::block::{Header, SealedHeader};
use rex_sim::code::Bytecode;
use rex_sim::primitives::{Address, B256, U256};
use rex_sim::state::StateSnapshot;
use rex_sim::table::Table;
use rex_sim::transitions::{
    apply_block_data, apply_execution_changes, build_commit_state, build_reorg_state,
    build_revert_state, merge_caches, AccountChange, BlockData, Caches, ChainTip,
    ExecutionChanges,
};

fn hash(n: u64) -> B256 {
    B256 { hi: 0, lo: n as u128 }
}

fn addr(n: u64) -> Address {
    Address { hi: 0, lo: n as u128 }
}

fn test_header(number: u64, hash: B256) -> SealedHeader {
    let zero = B256::zero();
    SealedHeader {
        header: Header {
            parent_hash: zero,
            ommers_hash: zero,
            beneficiary: addr(0),
            state_root: zero,
            transactions_root: zero,
            receipts_root: zero,
            logs_bloom: [0; 256],
            difficulty: U256::from_u64(0),
            number,
            gas_limit: 0,
            gas_used: 0,
            timestamp: 0,
            extra_data: vec![],
            mix_hash: zero,
            nonce: 0,
            base_fee_per_gas: None,
            withdrawals_root: None,
            blob_gas_used: None,
            excess_blob_gas: None,
            parent_beacon_block_root: None,
            requests_hash: None,
            block_access_list_hash: None,
            slot_number: None,
        },
        hash,
    }
}

fn test_block_data(number: u64) -> BlockData {
    let h = hash(number);
    BlockData {
        number,
        hash: h,
        header: test_header(number, h),
        withdrawals: None,
        receipts: vec![],
        tx_hashes: vec![],
    }
}

fn account_info(balance: u64) -> AccountInfo {
    AccountInfo {
        balance: U256::from_u64(balance),
        nonce: 0,
        code_hash: B256::zero(),
        account_id: None,
        code: None,
    }
}

#[test]
fn merges_valid_caches() {
    let mut state = StateSnapshot {
        block: 100,
        block_hash: hash(100),
        ..Default::default()
    };

    let mut caches = Caches::default();
    caches.accounts.block_hash = hash(100);
    caches.accounts.data.insert(addr(1), account_info(1000));
    caches.storage.block_hash = hash(100);
    caches
        .storage
        .data
        .insert((addr(1), U256::from_u64(0)), U256::from_u64(42));

    let stats = merge_caches(&mut state, caches, hash(100));

    assert_eq!(stats.accounts_merged, 1);
    assert_eq!(stats.accounts_discarded, 0);
    assert_eq!(stats.storage_merged, 1);
    assert_eq!(stats.storage_discarded, 0);

    assert!(state.accounts.contains_key(&addr(1)));
    assert!(state.storage.contains_key(&(addr(1), U256::from_u64(0))));
}

#[test]
fn discards_stale_caches() {
    let mut state = StateSnapshot {
        block: 100,
        block_hash: hash(100),
        ..Default::default()
    };

    let mut caches = Caches::default();

    caches.accounts.block_hash = hash(99);
    caches.accounts.data.insert(addr(1), account_info(1000));
    caches.storage.block_hash = hash(99);
    caches
        .storage
        .data
        .insert((addr(1), U256::from_u64(0)), U256::from_u64(42));

    let stats = merge_caches(&mut state, caches, hash(100));

    assert_eq!(stats.accounts_merged, 0);
    assert_eq!(stats.accounts_discarded, 1);
    assert_eq!(stats.storage_merged, 0);
    assert_eq!(stats.storage_discarded, 1);

    assert!(state.accounts.is_empty());
    assert!(state.storage.is_empty());
}

#[test]
fn code_always_merged() {
    let mut state = StateSnapshot::default();

    let mut caches = Caches::default();

    caches
        .code
        .data
        .insert(hash(1), Bytecode::new_raw(vec![0x60, 0x00]));

    let stats = merge_caches(&mut state, caches, hash(100));

    assert_eq!(stats.code_merged, 1);
    assert!(state.code.contains_key(&hash(1)));
}

#[test]
fn empty_caches_are_valid() {
    let mut state = StateSnapshot {
        block: 100,
        block_hash: hash(100),
        ..Default::default()
    };

    let caches = Caches::default();
    let stats = merge_caches(&mut state, caches, hash(100));

    assert_eq!(stats.accounts_merged, 0);
    assert_eq!(stats.accounts_discarded, 0);
}

/// Only accounts the snapshot already holds take the block's writes; the rest stay lazy.
#[test]
fn applies_account_info_to_known_accounts_only() {
    let mut state = StateSnapshot::default();
    state.accounts.insert(addr(1), account_info(1000));

    let mut changes = ExecutionChanges::default();
    for (n, balance) in [(1, 5000), (2, 7000)] {
        changes.accounts.insert(
            addr(n),
            AccountChange {
                info: Some(account_info(balance)),
                storage: Table::new(),
            },
        );
    }

    apply_execution_changes(&mut state, &changes);

    assert_eq!(
        state.accounts.get(&addr(1)).unwrap().balance,
        U256::from_u64(5000)
    );
    assert!(!state.accounts.contains_key(&addr(2)));
}

/// Only slots the snapshot already holds take the block's writes; the rest stay lazy.
#[test]
fn applies_storage_changes_to_known_slots_only() {
    let mut state = StateSnapshot::default();
    state
        .storage
        .insert((addr(1), U256::from_u64(0)), U256::from_u64(50));

    let mut storage = Table::new();
    storage.insert(U256::from_u64(0), U256::from_u64(100));
    storage.insert(U256::from_u64(1), U256::from_u64(200));

    let mut changes = ExecutionChanges::default();
    changes.accounts.insert(
        addr(1),
        AccountChange {
            info: None,
            storage,
        },
    );

    apply_execution_changes(&mut state, &changes);

    assert_eq!(
        state.storage.get(&(addr(1), U256::from_u64(0))),
        Some(&U256::from_u64(100))
    );
    assert!(!state.storage.contains_key(&(addr(1), U256::from_u64(1))));
}

#[test]
fn applies_contracts() {
    let mut state = StateSnapshot::default();

    let mut changes = ExecutionChanges::default();
    changes
        .contracts
        .insert(hash(1), Bytecode::new_raw(vec![0x60, 0x00]));

    apply_execution_changes(&mut state, &changes);

    assert!(state.code.contains_key(&hash(1)));
}

#[test]
fn overwrites_existing_values() {
    let mut state = StateSnapshot::default();
    state.accounts.insert(addr(1), account_info(1000));
    state
        .storage
        .insert((addr(1), U256::from_u64(0)), U256::from_u64(50));

    let mut storage = Table::new();
    storage.insert(U256::from_u64(0), U256::from_u64(999));

    let mut changes = ExecutionChanges::default();
    changes.accounts.insert(
        addr(1),
        AccountChange {
            info: Some(account_info(5000)),
            storage,
        },
    );

    apply_execution_changes(&mut state, &changes);

    assert_eq!(
        state.accounts.get(&addr(1)).unwrap().balance,
        U256::from_u64(5000)
    );
    assert_eq!(
        state.storage.get(&(addr(1), U256::from_u64(0))),
        Some(&U256::from_u64(999))
    );
}

#[test]
fn applies_block_hashes() {
    let mut state = StateSnapshot::default();

    let blocks = vec![test_block_data(100), test_block_data(101)];

    apply_block_data(&mut state, &blocks);

    assert_eq!(state.block_hashes.get(&100), Some(&hash(100)));
    assert_eq!(state.block_hashes.get(&101), Some(&hash(101)));
}

#[test]
fn applies_receipts() {
    let mut state = StateSnapshot::default();

    let blocks = vec![test_block_data(100), test_block_data(101)];

    apply_block_data(&mut state, &blocks);

    assert_eq!(state.receipts_history.len(), 2);
    assert_eq!(state.receipts_history[0].block, 100);
    assert_eq!(state.receipts_history[1].block, 101);
}

#[test]
fn builds_from_current_state() {
    let mut current = StateSnapshot {
        block: 99,
        block_hash: hash(99),
        stale: true,
        ..Default::default()
    };
    current.accounts.insert(addr(1), account_info(1000));

    let (new_state, _) = build_commit_state(
        &current,
        Caches::default(),
        &ExecutionChanges::default(),
        &[],
        ChainTip {
            number: 100,
            hash: hash(100),
        },
    );

    assert!(!new_state.stale);
    assert_eq!(new_state.block, 100);
    assert_eq!(new_state.block_hash, hash(100));

    assert!(new_state.accounts.contains_key(&addr(1)));
}

#[test]
fn execution_overwrites_cache() {
    let current = StateSnapshot {
        block: 99,
        block_hash: hash(99),
        ..Default::default()
    };

    let mut caches = Caches::default();
    caches.accounts.block_hash = hash(99);
    caches.accounts.data.insert(addr(1), account_info(1000));

    let mut changes = ExecutionChanges::default();
    changes.accounts.insert(
        addr(1),
        AccountChange {
            info: Some(account_info(5000)),
            storage: Table::new(),
        },
    );

    let (new_state, stats) = build_commit_state(
        &current,
        caches,
        &changes,
        &[],
        ChainTip {
            number: 100,
            hash: hash(100),
        },
    );

    assert_eq!(stats.accounts_merged, 1);

    assert_eq!(
        new_state.accounts.get(&addr(1)).unwrap().balance,
        U256::from_u64(5000)
    );
}

#[test]
fn records_changed_accounts_at_tip() {
    let current = StateSnapshot::default();
    let mut changes = ExecutionChanges::default();
    changes.accounts.insert(
        addr(1),
        AccountChange {
            info: Some(account_info(5000)),
            storage: Table::new(),
        },
    );
    changes.accounts.insert(
        addr(2),
        AccountChange {
            info: Some(account_info(7000)),
            storage: Table::new(),
        },
    );

    let (new_state, _) = build_commit_state(
        &current,
        Caches::default(),
        &changes,
        &[test_block_data(100)],
        ChainTip {
            number: 100,
            hash: hash(100),
        },
    );

    let mut got = new_state.changed_accounts(100).expect("recorded").to_vec();
    got.sort();
    let mut want = vec![addr(1), addr(2)];
    want.sort();
    assert_eq!(got, want);
}

#[test]
fn clears_accounts_and_storage() {
    let mut current = StateSnapshot {
        block: 100,
        block_hash: hash(100),
        ..Default::default()
    };
    current.accounts.insert(addr(1), account_info(1000));
    current
        .storage
        .insert((addr(1), U256::from_u64(0)), U256::from_u64(42));

    let new_state = build_reorg_state(
        &current,
        95,
        &ExecutionChanges::default(),
        &[],
        ChainTip {
            number: 98,
            hash: hash(98),
        },
    );

    assert!(new_state.accounts.is_empty());
    assert!(new_state.storage.is_empty());
}

#[test]
fn preserves_code() {
    let mut current = StateSnapshot::default();
    current
        .code
        .insert(hash(1), Bytecode::new_raw(vec![0x60]));

    let new_state = build_reorg_state(
        &current,
        95,
        &ExecutionChanges::default(),
        &[],
        ChainTip {
            number: 98,
            hash: hash(98),
        },
    );

    assert!(new_state.code.contains_key(&hash(1)));
}

#[test]
fn truncates_receipts_at_common_ancestor() {
    let mut current = StateSnapshot::default();
    current.push_receipts(90, vec![], vec![]);
    current.push_receipts(95, vec![], vec![]);
    current.push_receipts(100, vec![], vec![]);

    let new_state = build_reorg_state(
        &current,
        95,
        &ExecutionChanges::default(),
        &[],
        ChainTip {
            number: 98,
            hash: hash(98),
        },
    );

    assert_eq!(new_state.receipts_history.len(), 2);
    assert_eq!(new_state.receipts_history[0].block, 90);
    assert_eq!(new_state.receipts_history[1].block, 95);
}

#[test]
fn truncates_block_hashes_at_common_ancestor() {
    let mut current = StateSnapshot::default();
    current.block_hashes.insert(90, hash(90));
    current.block_hashes.insert(95, hash(95));
    current.block_hashes.insert(100, hash(100));

    let new_state = build_reorg_state(
        &current,
        95,
        &ExecutionChanges::default(),
        &[],
        ChainTip {
            number: 98,
            hash: hash(98),
        },
    );

    assert_eq!(new_state.block_hashes.len(), 2);
    assert!(new_state.block_hashes.contains_key(&90));
    assert!(new_state.block_hashes.contains_key(&95));
    assert!(!new_state.block_hashes.contains_key(&100));
}

/// A reorg empties the snapshot, so the new chain's diffs land on nothing and every read goes lazy.
#[test]
fn applies_new_chain_changes() {
    let current = StateSnapshot::default();

    let mut changes = ExecutionChanges::default();
    changes.accounts.insert(
        addr(1),
        AccountChange {
            info: Some(account_info(5000)),
            storage: Table::new(),
        },
    );

    let blocks = vec![test_block_data(98)];

    let new_state = build_reorg_state(
        &current,
        95,
        &changes,
        &blocks,
        ChainTip {
            number: 98,
            hash: hash(98),
        },
    );

    assert!(!new_state.accounts.contains_key(&addr(1)));

    assert!(new_state.block_hashes.contains_key(&98));
    assert_eq!(new_state.receipts_history.len(), 1);
}

#[test]
fn records_new_chain_changed_accounts() {
    let current = StateSnapshot::default();
    let mut changes = ExecutionChanges::default();
    changes.accounts.insert(
        addr(1),
        AccountChange {
            info: Some(account_info(5000)),
            storage: Table::new(),
        },
    );

    let new_state = build_reorg_state(
        &current,
        95,
        &changes,
        &[test_block_data(98)],
        ChainTip {
            number: 98,
            hash: hash(98),
        },
    );

    assert_eq!(new_state.changed_accounts(98), Some([addr(1)].as_slice()));
}

#[test]
fn truncates_changed_accounts_at_common_ancestor() {
    let mut current = StateSnapshot::default();
    current.push_changed_accounts(90, vec![addr(90)]);
    current.push_changed_accounts(95, vec![addr(95)]);
    current.push_changed_accounts(100, vec![addr(100)]);

    let new_state = build_reorg_state(
        &current,
        95,
        &ExecutionChanges::default(),
        &[],
        ChainTip {
            number: 98,
            hash: hash(98),
        },
    );

    assert!(new_state.changed_accounts(100).is_none());
    assert_eq!(new_state.changed_accounts(95), Some([addr(95)].as_slice()));
    assert_eq!(new_state.changed_accounts(90), Some([addr(90)].as_slice()));
}

#[test]
fn marks_state_as_stale() {
    let current = StateSnapshot::default();
    let new_state = build_revert_state(&current, 95);

    assert!(new_state.stale);
}

#[test]
fn sets_block_hash_to_zero() {
    let current = StateSnapshot::default();
    let new_state = build_revert_state(&current, 95);

    assert_eq!(new_state.block, 95);
    assert_eq!(new_state.block_hash, B256::zero());
}

#[test]
fn transitions_clears_accounts_and_storage() {
    let mut current = StateSnapshot::default();
    current.accounts.insert(addr(1), account_info(1000));
    current
        .storage
        .insert((addr(1), U256::from_u64(0)), U256::from_u64(42));

    let new_state = build_revert_state(&current, 95);

    assert!(new_state.accounts.is_empty());
    assert!(new_state.storage.is_empty());
}

#[test]
fn transitions_preserves_code() {
    let mut current = StateSnapshot::default();
    current
        .code
        .insert(hash(1), Bytecode::new_raw(vec![0x60]));

    let new_state = build_revert_state(&current, 95);

    assert!(new_state.code.contains_key(&hash(1)));
}

#[test]
fn truncates_at_common_ancestor() {
    let mut current = StateSnapshot::default();
    current.push_receipts(90, vec![], vec![]);
    current.push_receipts(95, vec![], vec![]);
    current.push_receipts(100, vec![], vec![]);
    current.block_hashes.insert(90, hash(90));
    current.block_hashes.insert(95, hash(95));
    current.block_hashes.insert(100, hash(100));

    let new_state = build_revert_state(&current, 95);

    assert_eq!(new_state.receipts_history.len(), 2);
    assert_eq!(new_state.block_hashes.len(), 2);
}

#[test]
fn commit_then_reorg_scenario() {
    let mut state = StateSnapshot {
        block: 100,
        block_hash: hash(100),
        stale: false,
        ..Default::default()
    };
    state.accounts.insert(addr(1), account_info(1000));
    state
        .storage
        .insert((addr(1), U256::from_u64(0)), U256::from_u64(42));
    state.block_hashes.insert(100, hash(100));

    let new_state = build_reorg_state(
        &state,
        95,
        &ExecutionChanges::default(),
        &[],
        ChainTip {
            number: 98,
            hash: hash(98),
        },
    );

    assert!(new_state.accounts.is_empty());
    assert!(new_state.storage.is_empty());
    assert!(!new_state.block_hashes.contains_key(&100));
    assert_eq!(new_state.block, 98);
    assert!(!new_state.stale);
}

#[test]
fn revert_then_recover_scenario() {
    let mut reverted = build_revert_state(&StateSnapshot::default(), 95);
    assert!(reverted.stale);

    reverted.stale = true;
    let (recovered, _) = build_commit_state(
        &reverted,
        Caches::default(),
        &ExecutionChanges::default(),
        &[],
        ChainTip {
            number: 100,
            hash: hash(100),
        },
    );

    assert!(!recovered.stale);
    assert_eq!(recovered.block, 100);
}

#[test]
fn stale_cache_discarded_on_commit() {
    let current = StateSnapshot {
        block: 99,
        block_hash: hash(99),
        ..Default::default()
    };

    let mut caches = Caches::default();
    caches.accounts.block_hash = hash(50);
    caches.accounts.data.insert(addr(1), account_info(1000));

    let (new_state, stats) = build_commit_state(
        &current,
        caches,
        &ExecutionChanges::default(),
        &[],
        ChainTip {
            number: 100,
            hash: hash(100),
        },
    );

    assert_eq!(stats.accounts_discarded, 1);
    assert_eq!(stats.accounts_merged, 0);
    assert!(new_state.accounts.is_empty());
}
