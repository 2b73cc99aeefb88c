//! Histories, guards and reads.

use rex_sim::account::AccountInfo;
use rex_sim::block::{Receipt, Withdrawal};
use rex_sim::code::Bytecode;
use rex_sim::error::{FetchKind, SimError};
use rex_sim::fetch::{
    AccountRequest, BlockHashRequest, CodeRequest, FetchConfig, StorageRequest,
};
use rex_sim::primitives::{Address, B256, U256};
use rex_sim::state::{
    await_fetch, FetchOutcome, Read, StateGuard, StateSnapshot, StateValidity, StaticState,
    RECEIPTS_HISTORY_DEPTH,
};

fn addr(n: u64) -> Address {
    Address { hi: 0, lo: n as u128 }
}

#[test]
fn stores_and_retrieves_changed_accounts() {
    let mut s = StateSnapshot::default();
    s.push_changed_accounts(100, vec![addr(1), addr(2)]);
    s.push_changed_accounts(101, vec![addr(3)]);
    assert_eq!(s.changed_accounts(100), Some([addr(1), addr(2)].as_slice()));
    assert_eq!(s.changed_accounts(101), Some([addr(3)].as_slice()));
    assert_eq!(s.changed_accounts(102), None);
}

#[test]
fn changed_accounts_respects_history_depth() {
    let mut s = StateSnapshot::default();
    for b in 0..(RECEIPTS_HISTORY_DEPTH as u64 + 10) {
        s.push_changed_accounts(b, vec![addr(b)]);
    }
    assert_eq!(s.changed_accounts_history.len(), RECEIPTS_HISTORY_DEPTH);

    assert!(s.changed_accounts(9).is_none());
    assert_eq!(s.changed_accounts(10), Some([addr(10)].as_slice()));
}

#[test]
fn truncates_changed_accounts_from_block() {
    let mut s = StateSnapshot::default();
    s.push_changed_accounts(90, vec![addr(90)]);
    s.push_changed_accounts(95, vec![addr(95)]);
    s.push_changed_accounts(100, vec![addr(100)]);
    s.truncate_changed_accounts(96);
    assert_eq!(s.changed_accounts_history.len(), 2);
    assert!(s.changed_accounts(100).is_none());
    assert_eq!(s.changed_accounts(95), Some([addr(95)].as_slice()));
}

#[test]
fn static_state_exposes_changed_accounts() {
    let mut snap = StateSnapshot::default();
    snap.push_changed_accounts(200, vec![addr(7)]);
    let state = StaticState::new(snap, FetchConfig::default());
    assert_eq!(state.changed_accounts(200), Some(vec![addr(7)]));
    assert_eq!(state.changed_accounts(201), None);
}

fn hash(n: u64) -> B256 {
    B256 { hi: 0, lo: n as u128 }
}

fn receipt(gas: u64) -> Receipt {
    Receipt { tx_type: 2, success: true, cumulative_gas_used: gas, logs: vec![] }
}

fn account_info(balance: u64) -> AccountInfo {
    AccountInfo {
        balance: U256::from_u64(balance),
        nonce: 3,
        code_hash: hash(9),
        account_id: None,
        code: None,
    }
}

#[test]
fn receipts_are_kept_by_block() {
    let mut s = StateSnapshot::default();
    s.push_receipts(100, vec![receipt(1), receipt(2)], vec![hash(7), hash(8)]);
    s.push_receipts(101, vec![], vec![]);
    assert_eq!(s.receipts(100).unwrap().len(), 2);
    assert_eq!(s.receipts(100).unwrap()[1].cumulative_gas_used, 2);
    assert_eq!(s.receipts(101).unwrap().len(), 0);
    assert!(s.receipts(102).is_none());
    let (receipts, tx_hashes) = s.receipts_and_tx_hashes(100).unwrap();
    assert_eq!(receipts.len(), 2);
    assert_eq!(tx_hashes, [hash(7), hash(8)].as_slice());
    assert!(s.receipts_and_tx_hashes(99).is_none());
}

#[test]
fn receipts_respect_history_depth() {
    let mut s = StateSnapshot::default();
    for b in 0..(RECEIPTS_HISTORY_DEPTH as u64 + 3) {
        s.push_receipts(b, vec![receipt(b)], vec![]);
    }
    assert_eq!(s.receipts_history.len(), RECEIPTS_HISTORY_DEPTH);
    assert!(s.receipts(2).is_none());
    assert_eq!(s.receipts(3).unwrap()[0].cumulative_gas_used, 3);
}

#[test]
fn oldest_entry_of_a_block_is_found() {
    let mut s = StateSnapshot::default();
    s.push_receipts(5, vec![receipt(1)], vec![]);
    s.push_receipts(5, vec![receipt(2)], vec![]);
    assert_eq!(s.receipts(5).unwrap()[0].cumulative_gas_used, 1);
}

#[test]
fn truncates_receipts_from_block() {
    let mut s = StateSnapshot::default();
    s.push_receipts(90, vec![], vec![]);
    s.push_receipts(95, vec![], vec![]);
    s.push_receipts(96, vec![], vec![]);
    s.truncate_receipts(96);
    assert_eq!(s.receipts_history.len(), 2);
    assert!(s.receipts(96).is_none());
    assert!(s.receipts(95).is_some());
    assert!(s.changed_accounts_history.is_empty());
}

#[test]
fn static_state_exposes_the_snapshot() {
    let mut snap = StateSnapshot { block: 7, block_hash: hash(7), ..Default::default() };
    snap.push_receipts(7, vec![receipt(4)], vec![hash(1)]);
    snap.withdrawals = Some(vec![Withdrawal {
        index: 1,
        validator_index: 2,
        address: addr(3),
        amount: 4,
    }]);
    let state = StaticState::new(snap, FetchConfig::default());
    assert_eq!(state.block(), 7);
    assert_eq!(state.block_hash(), hash(7));
    assert!(state.header().is_none());
    assert_eq!(state.withdrawals().unwrap()[0].amount, 4);
    assert!(!state.is_stale());
    assert_eq!(state.generation(), 0);
    assert_eq!(state.wait_timeout_ms(), 30_000);
    assert_eq!(state.receipts(7).unwrap()[0].cumulative_gas_used, 4);
    assert!(state.receipts(8).is_none());
    assert_eq!(state.receipts_and_tx_hashes(7).unwrap().1, vec![hash(1)]);
    assert!(state.receipts_and_tx_hashes(8).is_none());
}

#[test]
fn snapshot_outlives_a_swap() {
    let mut state = StaticState::new(
        StateSnapshot { block: 7, ..Default::default() },
        FetchConfig::default(),
    );
    let frozen = state.snapshot();
    state.swap(StateSnapshot { block: 8, ..Default::default() });
    assert_eq!(frozen.block, 7);
    assert_eq!(state.snapshot().block, 8);
    assert_eq!(state.generation(), 1);
    let other = state.clone();
    assert_eq!(other.block(), 8);
    assert_eq!(other.generation(), 1);
}

#[test]
fn guards_notice_what_happened() {
    let mut state = StaticState::new(
        StateSnapshot { block: 7, block_hash: hash(7), ..Default::default() },
        FetchConfig::default(),
    );
    let guard = state.guard();
    assert_eq!(guard, StateGuard { generation: 0, block_hash: hash(7), stale: false });
    assert_eq!(state.check_guard(&guard), StateValidity::Valid);

    state.swap(StateSnapshot { block: 8, ..Default::default() });
    assert_eq!(
        state.check_guard(&guard),
        StateValidity::Changed { old_gen: 0, new_gen: 1 }
    );

    state.swap(StateSnapshot { stale: true, ..Default::default() });
    assert_eq!(state.check_guard(&guard), StateValidity::BecameStale);
    let stale_guard = state.guard();
    assert_eq!(state.check_guard(&stale_guard), StateValidity::WasStale);

    state.swap(StateSnapshot::default());
    assert_eq!(state.check_guard(&stale_guard), StateValidity::WasStale);
}

#[test]
fn held_values_are_read_at_once() {
    let mut snap = StateSnapshot { block: 7, block_hash: hash(7), ..Default::default() };
    snap.accounts.insert(addr(1), account_info(10));
    snap.code.insert(hash(2), Bytecode::new_raw(vec![0x60]));
    snap.storage.insert((addr(1), U256::from_u64(5)), U256::from_u64(6));
    snap.block_hashes.insert(3, hash(33));
    let state = StaticState::new(snap, FetchConfig::default());

    match state.basic_ref(addr(1)).unwrap() {
        Read::Known(info) => assert_eq!(info.unwrap().balance, U256::from_u64(10)),
        Read::Unknown(_) => panic!("held"),
    }
    match state.code_by_hash_ref(hash(2)).unwrap() {
        Read::Known(code) => assert_eq!(code.original_bytes(), vec![0x60]),
        Read::Unknown(_) => panic!("held"),
    }
    match state.storage_ref(addr(1), U256::from_u64(5)).unwrap() {
        Read::Known(value) => assert_eq!(value, U256::from_u64(6)),
        Read::Unknown(_) => panic!("held"),
    }
    match state.block_hash_ref(3).unwrap() {
        Read::Known(found) => assert_eq!(found, hash(33)),
        Read::Unknown(_) => panic!("held"),
    }
}

#[test]
fn unknown_values_are_asked_for_at_the_snapshot_block() {
    let state = StaticState::new(
        StateSnapshot { block: 7, block_hash: hash(7), ..Default::default() },
        FetchConfig::default(),
    );
    assert!(matches!(
        state.basic_ref(addr(1)).unwrap(),
        Read::Unknown(request)
            if request == AccountRequest { address: addr(1), block: 7, block_hash: hash(7) }
    ));
    assert!(matches!(
        state.code_by_hash_ref(hash(2)).unwrap(),
        Read::Unknown(request)
            if request == CodeRequest { code_hash: hash(2), block: 7, address_hint: None }
    ));
    assert!(matches!(
        state.storage_ref(addr(1), U256::from_u64(5)).unwrap(),
        Read::Unknown(request)
            if request == StorageRequest {
                address: addr(1),
                index: U256::from_u64(5),
                block: 7,
                block_hash: hash(7),
            }
    ));
    assert!(matches!(
        state.block_hash_ref(3).unwrap(),
        Read::Unknown(request)
            if request == BlockHashRequest { number: 3, at_block_hash: hash(7) }
    ));
}

#[test]
fn stale_state_refuses_every_read() {
    let mut snap = StateSnapshot { stale: true, ..Default::default() };
    snap.accounts.insert(addr(1), account_info(10));
    let state = StaticState::new(snap, FetchConfig::default());
    assert!(matches!(state.basic_ref(addr(1)), Err(SimError::StaleState)));
    assert!(matches!(state.code_by_hash_ref(hash(2)), Err(SimError::StaleState)));
    assert!(matches!(
        state.storage_ref(addr(1), U256::from_u64(5)),
        Err(SimError::StaleState)
    ));
    assert!(matches!(state.block_hash_ref(3), Err(SimError::StaleState)));
}

#[test]
fn fetch_outcomes() {
    let answered = await_fetch(FetchOutcome::Answered(Ok(5u64)), FetchKind::Account, 30);
    assert_eq!(answered.unwrap(), 5);
    let refused: FetchOutcome<u64> = FetchOutcome::Answered(Err(SimError::BlockNotFound(4)));
    assert!(matches!(
        await_fetch(refused, FetchKind::Account, 30),
        Err(SimError::BlockNotFound(4))
    ));
    let late: FetchOutcome<u64> = FetchOutcome::TimedOut;
    assert!(matches!(
        await_fetch(late, FetchKind::Storage, 30),
        Err(SimError::FetchTimeout { kind: FetchKind::Storage, elapsed_ms: 30 })
    ));
    let unsent: FetchOutcome<u64> = FetchOutcome::NotSent;
    assert!(matches!(
        await_fetch(unsent, FetchKind::Code, 30),
        Err(SimError::FetcherClosed)
    ));
    let gone: FetchOutcome<u64> = FetchOutcome::Disconnected;
    assert!(matches!(
        await_fetch(gone, FetchKind::BlockHash, 30),
        Err(SimError::FetcherClosed)
    ));
}
