//! The fetch managers against a node that is played by a table.

use std::collections::HashMap;

use rex_sim::account::AccountInfo;
use rex_sim::code::Bytecode;
use rex_sim::error::SimError;
use rex_sim::fetch::{
    AccountCache, AccountRequest, BlockHashCache, BlockHashRequest, CodeCache, CodeRegistration,
    CodeRequest, FetchConfig, FetchMessage, StorageCache, StorageRequest,
};
use rex_sim::manager_core::{
    DrainEvent, FetchDone, FetchManager, FetchSpec, FlushAction, RequestAction, RpcCall,
};
use rex_sim::managers::{
    AccountFetchManager, AccountSpec, BlockHashFetchManager, BlockHashSpec, CodeFetchManager,
    CodeHints, CodeSpec, NoContext, StorageFetchManager, StorageSpec,
};
use rex_sim::primitives::{Address, B256, U256};

const KECCAK_EMPTY: B256 = B256 {
    hi: 0xc5d2460186f7233c927e7db2dcc703c0,
    lo: 0xe500b653ca82273b7bfad8045d85a470,
};

fn addr(n: u64) -> Address {
    Address { hi: 0, lo: n as u128 }
}

fn hash(n: u64) -> B256 {
    B256 { hi: 0, lo: n as u128 }
}

fn info(balance: u64, code_hash: B256) -> AccountInfo {
    AccountInfo {
        balance: U256::from_u64(balance),
        nonce: balance,
        code_hash,
        account_id: None,
        code: None,
    }
}

fn bytecode(byte: u8) -> Bytecode {
    Bytecode::new_raw(vec![0x60, byte])
}

/// A request that is with the node.
struct Ticket<K> {
    call: RpcCall,
    key: K,
    epoch: u64,
    caller: u32,
}

/// Flushes a manager; what is still with the node then is abandoned.
fn flushed<S: FetchSpec>(manager: &mut FetchManager<S>) -> S::Cache {
    let action = match manager.begin_flush() {
        FlushAction::Wait => manager.on_drain::<u32>(DrainEvent::TimedOut).1,
        done => done,
    };
    match action {
        FlushAction::HandOver(cache) => cache,
        FlushAction::Wait => panic!("time is over"),
    }
}

struct AccountHarness {
    manager: AccountFetchManager,
    accounts: HashMap<Address, Option<AccountInfo>>,
    regs: Vec<CodeRegistration>,
    calls: usize,
}

impl AccountHarness {
    fn new() -> AccountHarness {
        AccountHarness {
            manager: AccountFetchManager::new(NoContext),
            accounts: HashMap::new(),
            regs: vec![],
            calls: 0,
        }
    }

    fn issue(
        &mut self,
        caller: u32,
        address: Address,
        block: u64,
        block_hash: B256,
    ) -> Result<Option<AccountInfo>, Ticket<Address>> {
        let request = AccountRequest { address, block, block_hash };
        match self.manager.on_request(FetchMessage { request, respond_to: caller }) {
            RequestAction::Reply { respond_to, response } => {
                assert_eq!(respond_to, caller);
                Ok(response)
            }
            RequestAction::Fetch { call, key, epoch, respond_to } => {
                assert_eq!(call, RpcCall::Account { address, block });
                self.calls += 1;
                Err(Ticket { call, key, epoch, caller: respond_to })
            }
        }
    }

    fn complete(&mut self, ticket: Ticket<Address>) -> Result<Option<AccountInfo>, SimError> {
        let result = match ticket.call {
            RpcCall::Account { address, block } => match self.accounts.get(&address) {
                Some(info) => Ok(info.clone()),
                None => Err(SimError::BlockNotFound(block)),
            },
            _ => unreachable!(),
        };
        let action = self.manager.apply_completion(FetchDone {
            key: ticket.key,
            result,
            epoch: ticket.epoch,
            respond_to: ticket.caller,
        });
        assert_eq!(action.respond_to, ticket.caller);
        if let Some(registration) = action.registration {
            self.regs.push(registration);
        }
        action.result
    }

    fn get(
        &mut self,
        address: Address,
        block: u64,
        block_hash: B256,
    ) -> Result<Option<AccountInfo>, SimError> {
        match self.issue(1, address, block, block_hash) {
            Ok(response) => Ok(response),
            Err(ticket) => self.complete(ticket),
        }
    }

    fn flush(&mut self) -> AccountCache {
        flushed(&mut self.manager)
    }
}

struct CodeHarness {
    manager: CodeFetchManager,
    codes: HashMap<B256, Bytecode>,
    hints: Vec<Option<Address>>,
    calls: usize,
}

impl CodeHarness {
    fn new() -> CodeHarness {
        CodeHarness {
            manager: CodeFetchManager::new(CodeHints::default()),
            codes: HashMap::new(),
            hints: vec![],
            calls: 0,
        }
    }

    fn issue(
        &mut self,
        code_hash: B256,
        block: u64,
        address_hint: Option<Address>,
    ) -> Result<Bytecode, Ticket<B256>> {
        let request = CodeRequest { code_hash, block, address_hint };
        match self.manager.on_request(FetchMessage { request, respond_to: 1 }) {
            RequestAction::Reply { response, .. } => Ok(response),
            RequestAction::Fetch { call, key, epoch, respond_to } => {
                self.calls += 1;
                Err(Ticket { call, key, epoch, caller: respond_to })
            }
        }
    }

    fn complete(&mut self, ticket: Ticket<B256>) -> Result<Bytecode, SimError> {
        let result = match ticket.call {
            RpcCall::Code { code_hash, address_hint, .. } => {
                self.hints.push(address_hint);
                match (address_hint, self.codes.get(&code_hash)) {
                    (Some(_), Some(code)) => Ok(code.clone()),
                    _ => Err(SimError::MissingAddressHint { code_hash }),
                }
            }
            _ => unreachable!(),
        };
        self.manager
            .apply_completion(FetchDone {
                key: ticket.key,
                result,
                epoch: ticket.epoch,
                respond_to: ticket.caller,
            })
            .result
    }

    fn get(
        &mut self,
        code_hash: B256,
        block: u64,
        address_hint: Option<Address>,
    ) -> Result<Bytecode, SimError> {
        match self.issue(code_hash, block, address_hint) {
            Ok(response) => Ok(response),
            Err(ticket) => self.complete(ticket),
        }
    }

    fn flush(&mut self) -> CodeCache {
        flushed(&mut self.manager)
    }
}

struct StorageHarness {
    manager: StorageFetchManager,
    storage: HashMap<(Address, U256), U256>,
    calls: usize,
}

impl StorageHarness {
    fn new() -> StorageHarness {
        StorageHarness {
            manager: StorageFetchManager::new(NoContext),
            storage: HashMap::new(),
            calls: 0,
        }
    }

    fn issue(
        &mut self,
        address: Address,
        index: U256,
        block: u64,
        block_hash: B256,
    ) -> Result<U256, Ticket<(Address, U256)>> {
        let request = StorageRequest { address, index, block, block_hash };
        match self.manager.on_request(FetchMessage { request, respond_to: 1 }) {
            RequestAction::Reply { response, .. } => Ok(response),
            RequestAction::Fetch { call, key, epoch, respond_to } => {
                assert_eq!(call, RpcCall::Storage { address, index, block });
                self.calls += 1;
                Err(Ticket { call, key, epoch, caller: respond_to })
            }
        }
    }

    fn complete(&mut self, ticket: Ticket<(Address, U256)>) -> Result<U256, SimError> {
        let result = match ticket.call {
            RpcCall::Storage { address, index, block } => {
                match self.storage.get(&(address, index)) {
                    Some(value) => Ok(*value),
                    None => Err(SimError::BlockNotFound(block)),
                }
            }
            _ => unreachable!(),
        };
        self.manager
            .apply_completion(FetchDone {
                key: ticket.key,
                result,
                epoch: ticket.epoch,
                respond_to: ticket.caller,
            })
            .result
    }

    fn get(
        &mut self,
        address: Address,
        index: U256,
        block: u64,
        block_hash: B256,
    ) -> Result<U256, SimError> {
        match self.issue(address, index, block, block_hash) {
            Ok(response) => Ok(response),
            Err(ticket) => self.complete(ticket),
        }
    }

    fn flush(&mut self) -> StorageCache {
        flushed(&mut self.manager)
    }
}

struct BlockHashHarness {
    manager: BlockHashFetchManager,
    hashes: HashMap<u64, B256>,
    calls: usize,
}

impl BlockHashHarness {
    fn new() -> BlockHashHarness {
        BlockHashHarness {
            manager: BlockHashFetchManager::new(NoContext),
            hashes: HashMap::new(),
            calls: 0,
        }
    }

    fn get(&mut self, number: u64, at_block_hash: B256) -> Result<B256, SimError> {
        let request = BlockHashRequest { number, at_block_hash };
        match self.manager.on_request(FetchMessage { request, respond_to: 1 }) {
            RequestAction::Reply { response, .. } => Ok(response),
            RequestAction::Fetch { call, key, epoch, respond_to } => {
                assert_eq!(call, RpcCall::BlockHash { number });
                self.calls += 1;
                let result = match self.hashes.get(&number) {
                    Some(hash) => Ok(*hash),
                    None => Err(SimError::BlockNotFound(number)),
                };
                self.manager
                    .apply_completion(FetchDone { key, result, epoch, respond_to })
                    .result
            }
        }
    }

    fn flush(&mut self) -> BlockHashCache {
        flushed(&mut self.manager)
    }
}

/// A second request for a cached key is served without an RPC call.
#[test]
fn account_cache_hit_skips_rpc() {
    let mut h = AccountHarness::new();
    h.accounts.insert(addr(1), Some(info(10, KECCAK_EMPTY)));

    let first = h.get(addr(1), 100, hash(1));
    assert_eq!(first.unwrap().unwrap().balance, U256::from_u64(10));
    assert_eq!(h.calls, 1);

    let second = h.get(addr(1), 100, hash(1));
    assert_eq!(second.unwrap().unwrap().balance, U256::from_u64(10));
    assert_eq!(h.calls, 1, "cache hit must not hit the RPC");
}

/// A completion whose epoch predates a cache-tag change is delivered to the
/// caller but not inserted into the cache.
#[test]
fn account_stale_epoch_completion_is_not_cached() {
    let mut h = AccountHarness::new();
    h.accounts.insert(addr(1), Some(info(10, hash(0xaa))));
    h.accounts.insert(addr(2), Some(info(20, hash(0xbb))));

    let stale = h.issue(1, addr(1), 100, hash(1)).err().unwrap();
    assert_eq!(h.calls, 1);
    let fresh = h.issue(2, addr(2), 101, hash(2)).err().unwrap();
    assert_eq!(h.calls, 2);

    assert_eq!(h.complete(stale).unwrap().unwrap().balance, U256::from_u64(10));
    assert_eq!(h.complete(fresh).unwrap().unwrap().balance, U256::from_u64(20));
    assert_eq!(h.calls, 2);

    let refetch = h.get(addr(1), 101, hash(2));
    assert_eq!(refetch.unwrap().unwrap().balance, U256::from_u64(10));
    assert_eq!(h.calls, 3, "stale-epoch completion must not be cached");

    let cached = h.get(addr(2), 101, hash(2));
    assert_eq!(cached.unwrap().unwrap().balance, U256::from_u64(20));
    assert_eq!(h.calls, 3, "current-epoch completion must be cached");
}

/// The code-hash registration fires even for a completion the epoch guard
/// refuses to cache.
#[test]
fn account_registration_fires_even_when_epoch_is_stale() {
    let mut h = AccountHarness::new();
    h.accounts.insert(addr(1), Some(info(10, hash(0xaa))));
    h.accounts.insert(addr(2), Some(info(20, hash(0xbb))));

    let stale = h.issue(1, addr(1), 100, hash(1)).err().unwrap();
    let fresh = h.issue(2, addr(2), 101, hash(2)).err().unwrap();
    h.complete(stale).unwrap();
    h.complete(fresh).unwrap();

    let mut seen: Vec<(B256, Address)> =
        h.regs.iter().map(|reg| (reg.code_hash, reg.address)).collect();
    seen.sort();
    assert_eq!(
        seen,
        vec![(hash(0xaa), addr(1)), (hash(0xbb), addr(2))],
        "code registration must fire outside the epoch guard"
    );
}

/// A negative account lookup is never memoized.
#[test]
fn account_none_result_is_not_cached() {
    let mut h = AccountHarness::new();
    h.accounts.insert(addr(1), None);

    assert!(h.get(addr(1), 100, hash(1)).unwrap().is_none());
    assert_eq!(h.calls, 1);

    assert!(h.get(addr(1), 100, hash(1)).unwrap().is_none());
    assert_eq!(
        h.calls, 2,
        "Ok(None) must not be cached, so the second lookup refetches"
    );

    assert!(
        h.regs.is_empty(),
        "Ok(None) carries no code hash, so no registration"
    );
}

/// `inflight` returns to zero after completions, so a later flush has nothing
/// to wait for.
#[test]
fn account_inflight_returns_to_zero_so_flush_does_not_wait() {
    let mut h = AccountHarness::new();
    for n in 1..=8u64 {
        h.accounts.insert(addr(n), Some(info(n, KECCAK_EMPTY)));
    }

    let pending: Vec<Ticket<Address>> = (1..=8u64)
        .map(|n| h.issue(n as u32, addr(n), 100, hash(1)).err().unwrap())
        .collect();
    assert_eq!(h.manager.inflight(), 8);
    for ticket in pending {
        h.complete(ticket).unwrap().unwrap();
    }
    assert_eq!(h.calls, 8);
    assert!(!h.manager.has_inflight());

    let cache = h.flush();
    assert_eq!(cache.data.len(), 8);
    assert_eq!(cache.block_hash, hash(1));
}

/// Bytecode is content-addressed, so a completion that crosses a flush boundary
/// is still cached and no block change invalidates it.
#[test]
fn code_completion_across_flush_boundary_is_cached() {
    let mut h = CodeHarness::new();
    h.codes.insert(hash(0xcc), bytecode(1));

    let pending = h.issue(hash(0xcc), 100, Some(addr(1))).err().unwrap();
    assert_eq!(h.calls, 1);

    let flushed = h.flush();
    assert!(flushed.data.is_empty());

    assert!(h.complete(pending).unwrap() == bytecode(1));

    let again = h.get(hash(0xcc), 101, None);
    assert!(again.unwrap() == bytecode(1));
    assert_eq!(
        h.calls, 1,
        "code completions are cached regardless of epoch/flush boundary"
    );
}

/// The registration channel back-fills the address hint the caller lacked.
#[test]
fn code_registration_supplies_missing_address_hint() {
    let mut h = CodeHarness::new();
    h.codes.insert(hash(0xcc), bytecode(2));

    let err = h.get(hash(0xcc), 100, None).unwrap_err();
    assert!(matches!(err, SimError::MissingAddressHint { .. }));
    assert_eq!(h.calls, 1);

    h.manager.on_side(CodeRegistration { code_hash: hash(0xcc), address: addr(7) });

    let ok = h.get(hash(0xcc), 100, None);
    assert!(ok.unwrap() == bytecode(2));
    assert_eq!(h.calls, 2);
    assert_eq!(
        h.hints,
        vec![None, Some(addr(7))],
        "registered address must be used as the hint"
    );
}

/// The caller's own hint is used before a registered one.
#[test]
fn code_hint_of_the_caller_comes_first() {
    let mut h = CodeHarness::new();
    h.codes.insert(hash(0xcc), bytecode(2));
    h.manager.on_side(CodeRegistration { code_hash: hash(0xcc), address: addr(7) });
    h.get(hash(0xcc), 100, Some(addr(8))).unwrap();
    assert_eq!(h.hints, vec![Some(addr(8))]);
}

#[test]
fn storage_cache_hit_skips_rpc() {
    let mut h = StorageHarness::new();
    h.storage.insert((addr(1), U256::from_u64(7)), U256::from_u64(42));

    let first = h.get(addr(1), U256::from_u64(7), 100, hash(1));
    assert_eq!(first.unwrap(), U256::from_u64(42));
    assert_eq!(h.calls, 1);

    let second = h.get(addr(1), U256::from_u64(7), 100, hash(1));
    assert_eq!(second.unwrap(), U256::from_u64(42));
    assert_eq!(h.calls, 1);
}

#[test]
fn storage_stale_epoch_completion_is_not_cached() {
    let mut h = StorageHarness::new();
    h.storage.insert((addr(1), U256::from_u64(7)), U256::from_u64(42));
    h.storage.insert((addr(2), U256::from_u64(8)), U256::from_u64(43));

    let stale = h.issue(addr(1), U256::from_u64(7), 100, hash(1)).err().unwrap();
    assert_eq!(h.calls, 1);
    let fresh = h.issue(addr(2), U256::from_u64(8), 101, hash(2)).err().unwrap();
    assert_eq!(h.calls, 2);

    assert_eq!(h.complete(stale).unwrap(), U256::from_u64(42));
    assert_eq!(h.complete(fresh).unwrap(), U256::from_u64(43));

    let refetch = h.get(addr(1), U256::from_u64(7), 101, hash(2));
    assert_eq!(refetch.unwrap(), U256::from_u64(42));
    assert_eq!(h.calls, 3, "stale-epoch completion must not be cached");

    let cached = h.get(addr(2), U256::from_u64(8), 101, hash(2));
    assert_eq!(cached.unwrap(), U256::from_u64(43));
    assert_eq!(h.calls, 3);
}

/// A completion abandoned by a flush must not be memoized when it lands.
#[test]
fn storage_completion_abandoned_by_flush_is_not_cached_probed_by_second_flush_not_refetch() {
    let mut h = StorageHarness::new();
    h.storage.insert((addr(1), U256::from_u64(7)), U256::from_u64(42));

    let pending = h.issue(addr(1), U256::from_u64(7), 100, hash(1)).err().unwrap();
    assert_eq!(h.calls, 1);

    let flushed = h.flush();
    assert!(
        flushed.data.is_empty(),
        "the fetch was still in flight, nothing to hand over"
    );

    assert_eq!(h.complete(pending).unwrap(), U256::from_u64(42));

    let after = h.flush();
    assert!(
        after.data.is_empty(),
        "a completion abandoned by a flush must not be cached"
    );
}

/// The storage cache key is the (address, index) pair, so one slot is never
/// served another slot's value.
#[test]
fn storage_cache_key_is_address_index_pair() {
    let mut h = StorageHarness::new();
    h.storage.insert((addr(1), U256::from_u64(7)), U256::from_u64(42));
    h.storage.insert((addr(1), U256::from_u64(8)), U256::from_u64(43));

    let slot7 = h.get(addr(1), U256::from_u64(7), 100, hash(1));
    assert_eq!(slot7.unwrap(), U256::from_u64(42));
    assert_eq!(h.calls, 1);

    let slot8 = h.get(addr(1), U256::from_u64(8), 100, hash(1));
    assert_eq!(
        slot8.unwrap(),
        U256::from_u64(43),
        "slot 8 must not be served slot 7's value"
    );
    assert_eq!(
        h.calls, 2,
        "a different index under the same address must miss the cache"
    );

    let again7 = h.get(addr(1), U256::from_u64(7), 100, hash(1));
    assert_eq!(again7.unwrap(), U256::from_u64(42));
    let again8 = h.get(addr(1), U256::from_u64(8), 100, hash(1));
    assert_eq!(again8.unwrap(), U256::from_u64(43));
    assert_eq!(h.calls, 2, "both slots must be cached under their own keys");

    let cache = h.flush();
    assert_eq!(cache.block_hash, hash(1));
    assert_eq!(
        cache.data.get(&(addr(1), U256::from_u64(7))),
        Some(&U256::from_u64(42))
    );
    assert_eq!(
        cache.data.get(&(addr(1), U256::from_u64(8))),
        Some(&U256::from_u64(43))
    );
    assert_eq!(cache.data.len(), 2);
}

#[test]
fn block_hash_cache_hit_and_flush_returns_tagged_cache() {
    let mut h = BlockHashHarness::new();
    h.hashes.insert(99, hash(0x99));

    assert_eq!(h.get(99, hash(1)).unwrap(), hash(0x99));
    assert_eq!(h.calls, 1);

    assert_eq!(h.get(99, hash(1)).unwrap(), hash(0x99));
    assert_eq!(h.calls, 1);

    assert!(!h.manager.has_inflight());
    let cache = h.flush();
    assert_eq!(cache.block_hash, hash(1));
    assert_eq!(cache.data.get(&99), Some(&hash(0x99)));
}

/// A tag change clears the cache outright, independent of the epoch guard.
#[test]
fn block_hash_tag_change_clears_cache() {
    let mut h = BlockHashHarness::new();
    h.hashes.insert(99, hash(0x99));

    h.get(99, hash(1)).unwrap();
    assert_eq!(h.calls, 1);

    h.get(99, hash(2)).unwrap();
    assert_eq!(h.calls, 2);

    let cache = h.flush();
    assert_eq!(cache.block_hash, hash(2));
}

/// A failed fetch is handed to its caller and leaves nothing behind.
#[test]
fn failed_fetch_is_answered_and_not_cached() {
    let mut h = StorageHarness::new();
    let err = h.get(addr(1), U256::from_u64(7), 100, hash(1)).unwrap_err();
    assert!(matches!(err, SimError::BlockNotFound(100)));
    assert_eq!(h.calls, 1);
    h.storage.insert((addr(1), U256::from_u64(7)), U256::from_u64(5));
    assert_eq!(
        h.get(addr(1), U256::from_u64(7), 100, hash(1)).unwrap(),
        U256::from_u64(5)
    );
    assert_eq!(h.calls, 2);
}

/// A flush leaves the tag at zero and moves the epoch on.
#[test]
fn flush_resets_tag_and_epoch() {
    let mut h = BlockHashHarness::new();
    h.hashes.insert(99, hash(0x99));
    h.get(99, hash(1)).unwrap();
    assert_eq!(h.manager.epoch(), 1);
    h.flush();
    assert_eq!(h.manager.epoch(), 2);
    let second = h.flush();
    assert_eq!(second.block_hash, B256::zero());
    assert!(second.data.is_empty());
    assert_eq!(h.manager.epoch(), 3);
}

#[test]
fn each_kind_has_its_own_permits() {
    let fetch = FetchConfig {
        account: 1,
        code: 2,
        storage: 3,
        block_hash: 4,
        rpc_timeout_ms: 1_000,
        wait_timeout_ms: 2_000,
        flush_timeout_ms: 5_000,
    };
    assert_eq!(AccountSpec::permits(&fetch), 1);
    assert_eq!(CodeSpec::permits(&fetch), 2);
    assert_eq!(StorageSpec::permits(&fetch), 3);
    assert_eq!(BlockHashSpec::permits(&fetch), 4);
}

/// A flush waits for what is with the node and hands over the answers too.
#[test]
fn flush_waits_for_outstanding_answers() {
    let mut h = StorageHarness::new();
    let ticket = h.issue(addr(1), U256::from_u64(7), 100, hash(1)).err().unwrap();
    assert!(matches!(h.manager.begin_flush(), FlushAction::Wait));
    let (answer, next) = h.manager.on_drain(DrainEvent::Completed(FetchDone {
        key: ticket.key,
        result: Ok(U256::from_u64(42)),
        epoch: ticket.epoch,
        respond_to: 5u32,
    }));
    let answer = answer.unwrap();
    assert_eq!(answer.respond_to, 5);
    assert_eq!(answer.result.unwrap(), U256::from_u64(42));
    match next {
        FlushAction::HandOver(cache) => {
            assert_eq!(cache.block_hash, hash(1));
            assert_eq!(cache.data.len(), 1);
        }
        FlushAction::Wait => panic!("nothing is outstanding"),
    }
}

/// A flush that runs out of time abandons what is with the node.
#[test]
fn flush_abandons_late_answers() {
    let mut h = StorageHarness::new();
    h.storage.insert((addr(1), U256::from_u64(7)), U256::from_u64(42));
    h.storage.insert((addr(1), U256::from_u64(8)), U256::from_u64(43));
    let late = h.issue(addr(1), U256::from_u64(7), 100, hash(1)).err().unwrap();
    h.get(addr(1), U256::from_u64(8), 100, hash(1)).unwrap();
    assert!(matches!(h.manager.begin_flush(), FlushAction::Wait));
    let (answer, next) = h.manager.on_drain::<u32>(DrainEvent::TimedOut);
    assert!(answer.is_none());
    match next {
        FlushAction::HandOver(cache) => assert_eq!(cache.data.len(), 1),
        FlushAction::Wait => panic!("time is over"),
    }
    assert_eq!(h.complete(late).unwrap(), U256::from_u64(42));
    let (answer, next) = h.manager.on_drain::<u32>(DrainEvent::Closed);
    assert!(answer.is_none());
    assert!(matches!(next, FlushAction::HandOver(cache) if cache.data.is_empty()));
    assert!(matches!(h.manager.begin_flush(), FlushAction::HandOver(_)));
}
