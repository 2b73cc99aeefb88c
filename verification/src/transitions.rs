//! How one snapshot follows from another.

use vstd::prelude::*;

use crate::account::{AccountInfo, AccountInfoView};
use crate::block::{
    Receipt, ReceiptView, SealedHeader, SealedHeaderView, Withdrawal, Withdrawals,
};
use crate::code::Bytecode;
use crate::fetch::{AccountCache, BlockHashCache, CodeCache, StorageCache, TaggedCacheView};
use crate::history::{copy_up_to, up_to};
use crate::primitives::{Address, Duplicate, B256, U256};
use crate::sort::{sort_members, sorted_members};
use crate::state::{
    BlockChangedAccounts, BlockChangedAccountsView, BlockReceipts, BlockReceiptsView,
    StateSnapshot, StateSnapshotView,
};
use crate::table::Table;

verus! {

/// How many entries of each cache were taken over, and how many dropped.
#[derive(Clone, Copy, Debug, PartialEq, Eq, Structural)]
pub struct CacheMergeStats {
    pub accounts_merged: usize,
    pub accounts_discarded: usize,
    pub storage_merged: usize,
    pub storage_discarded: usize,
    pub block_hashes_merged: usize,
    pub block_hashes_discarded: usize,
    pub code_merged: usize,
}

impl Default for CacheMergeStats {
    fn default() -> (stats: CacheMergeStats)
        ensures
            stats == (CacheMergeStats {
                accounts_merged: 0,
                accounts_discarded: 0,
                storage_merged: 0,
                storage_discarded: 0,
                block_hashes_merged: 0,
                block_hashes_discarded: 0,
                code_merged: 0,
            }),
    {
        CacheMergeStats {
            accounts_merged: 0,
            accounts_discarded: 0,
            storage_merged: 0,
            storage_discarded: 0,
            block_hashes_merged: 0,
            block_hashes_discarded: 0,
            code_merged: 0,
        }
    }
}

impl CacheMergeStats {
    /// The caches by name, each with how many of its entries were taken over
    /// and how many dropped. Code is never dropped.
    pub fn iter(&self) -> (rows: Vec<(&'static str, usize, usize)>)
        ensures
            rows@ == seq![
                ("accounts", self.accounts_merged, self.accounts_discarded),
                ("storage", self.storage_merged, self.storage_discarded),
                ("block_hashes", self.block_hashes_merged, self.block_hashes_discarded),
                ("code", self.code_merged, 0usize),
            ],
    {
        let mut rows: Vec<(&'static str, usize, usize)> = Vec::with_capacity(4);
        rows.push(("accounts", self.accounts_merged, self.accounts_discarded));
        rows.push(("storage", self.storage_merged, self.storage_discarded));
        rows.push(("block_hashes", self.block_hashes_merged, self.block_hashes_discarded));
        rows.push(("code", self.code_merged, 0));
        rows
    }
}

/// How many entries of each cache a merge takes over, and how many it drops.
pub struct MergeCounts {
    pub accounts: (nat, nat),
    pub storage: (nat, nat),
    pub block_hashes: (nat, nat),
    pub code: nat,
}

impl View for CacheMergeStats {
    type V = MergeCounts;

    open spec fn view(&self) -> MergeCounts {
        MergeCounts {
            accounts: (self.accounts_merged as nat, self.accounts_discarded as nat),
            storage: (self.storage_merged as nat, self.storage_discarded as nat),
            block_hashes: (
                self.block_hashes_merged as nat,
                self.block_hashes_discarded as nat,
            ),
            code: self.code_merged as nat,
        }
    }
}

/// What the four fetch managers hand over when they are flushed.
pub struct Caches {
    pub accounts: AccountCache,
    pub code: CodeCache,
    pub storage: StorageCache,
    pub block_hashes: BlockHashCache,
}

/// The model of a `Caches`.
#[verifier::ext_equal]
pub struct CachesView {
    pub accounts: TaggedCacheView<Address, AccountInfoView>,
    pub code: Map<B256, Seq<u8>>,
    pub storage: TaggedCacheView<(Address, U256), U256>,
    pub block_hashes: TaggedCacheView<u64, B256>,
}

impl View for Caches {
    type V = CachesView;

    open spec fn view(&self) -> CachesView {
        CachesView {
            accounts: self.accounts@,
            code: self.code.data@,
            storage: self.storage@,
            block_hashes: self.block_hashes@,
        }
    }
}

impl Default for Caches {
    fn default() -> (caches: Caches)
        ensures
            caches@ == (CachesView {
                accounts: TaggedCacheView { block_hash: B256::zero_hash(), data: Map::empty() },
                code: Map::empty(),
                storage: TaggedCacheView { block_hash: B256::zero_hash(), data: Map::empty() },
                block_hashes: TaggedCacheView {
                    block_hash: B256::zero_hash(),
                    data: Map::empty(),
                },
            }),
    {
        Caches {
            accounts: AccountCache::default(),
            code: CodeCache::default(),
            storage: StorageCache::default(),
            block_hashes: BlockHashCache::default(),
        }
    }
}

/// What execution did to an account. Without an `info`, only slots changed.
pub struct AccountChange {
    pub info: Option<AccountInfo>,
    pub storage: Table<U256, U256>,
}

/// The model of an `AccountChange`.
#[verifier::ext_equal]
pub struct AccountChangeView {
    pub info: Option<AccountInfoView>,
    pub storage: Map<U256, U256>,
}

impl DeepView for AccountChange {
    type V = AccountChangeView;

    open spec fn deep_view(&self) -> AccountChangeView {
        AccountChangeView { info: self.info.deep_view(), storage: self.storage@ }
    }
}

impl Default for AccountChange {
    fn default() -> (change: AccountChange)
        ensures
            change.deep_view() == (AccountChangeView { info: None, storage: Map::empty() }),
    {
        AccountChange { info: None, storage: Table::new() }
    }
}

/// What execution did to the state.
pub struct ExecutionChanges {
    pub accounts: Table<Address, AccountChange>,
    pub contracts: Table<B256, Bytecode>,
}

/// The model of an `ExecutionChanges`.
#[verifier::ext_equal]
pub struct ExecutionChangesView {
    pub accounts: Map<Address, AccountChangeView>,
    pub contracts: Map<B256, Seq<u8>>,
}

impl View for ExecutionChanges {
    type V = ExecutionChangesView;

    open spec fn view(&self) -> ExecutionChangesView {
        ExecutionChangesView { accounts: self.accounts@, contracts: self.contracts@ }
    }
}

impl Default for ExecutionChanges {
    fn default() -> (changes: ExecutionChanges)
        ensures
            changes@ == (ExecutionChangesView { accounts: Map::empty(), contracts: Map::empty() }),
    {
        ExecutionChanges { accounts: Table::new(), contracts: Table::new() }
    }
}

/// What a snapshot takes over from a block besides its execution.
pub struct BlockData {
    pub number: u64,
    pub hash: B256,
    pub header: SealedHeader,
    pub withdrawals: Option<Withdrawals>,
    pub receipts: Vec<Receipt>,
    pub tx_hashes: Vec<B256>,
}

/// The model of a `BlockData`.
#[verifier::ext_equal]
pub struct BlockDataView {
    pub number: u64,
    pub hash: B256,
    pub header: SealedHeaderView,
    pub withdrawals: Option<Seq<Withdrawal>>,
    pub receipts: Seq<ReceiptView>,
    pub tx_hashes: Seq<B256>,
}

impl DeepView for BlockData {
    type V = BlockDataView;

    open spec fn deep_view(&self) -> BlockDataView {
        BlockDataView {
            number: self.number,
            hash: self.hash,
            header: self.header.deep_view(),
            withdrawals: self.withdrawals.deep_view(),
            receipts: self.receipts.deep_view(),
            tx_hashes: self.tx_hashes.deep_view(),
        }
    }
}

/// The last block of a chain.
#[derive(Clone, Copy, Debug, PartialEq, Eq, Structural)]
pub struct ChainTip {
    pub number: u64,
    pub hash: B256,
}

/// What is held once a cache has been merged: all of the cache where it holds
/// at the current block, none of it otherwise.
pub open spec fn with_cache<K, M>(
    held: Map<K, M>,
    cache: TaggedCacheView<K, M>,
    current_hash: B256,
) -> Map<K, M> {
    if cache.valid_for(current_hash) {
        held.union_prefer_right(cache.data)
    } else {
        held
    }
}

/// The state once the caches have been merged.
pub open spec fn merged(
    state: StateSnapshotView,
    caches: CachesView,
    current_hash: B256,
) -> StateSnapshotView {
    StateSnapshotView {
        accounts: with_cache(state.accounts, caches.accounts, current_hash),
        storage: with_cache(state.storage, caches.storage, current_hash),
        block_hashes: with_cache(state.block_hashes, caches.block_hashes, current_hash),
        code: state.code.union_prefer_right(caches.code),
        ..state
    }
}

/// How many entries a merge takes over from a cache, and how many it drops.
pub open spec fn merge_counts<K, M>(cache: TaggedCacheView<K, M>, current_hash: B256) -> (nat, nat) {
    if cache.valid_for(current_hash) {
        (cache.data.len(), 0)
    } else {
        (0, cache.data.len())
    }
}

/// How many entries of each cache a merge at a block takes over, and how many
/// it drops.
pub open spec fn merge_totals(caches: CachesView, current_hash: B256) -> MergeCounts {
    MergeCounts {
        accounts: merge_counts(caches.accounts, current_hash),
        storage: merge_counts(caches.storage, current_hash),
        block_hashes: merge_counts(caches.block_hashes, current_hash),
        code: caches.code.len(),
    }
}

/// Merges what the fetch managers hand over. A cache whose values were read at
/// another block than the current one is dropped; code always holds.
pub fn merge_caches(
    state: &mut StateSnapshot,
    caches: Caches,
    current_hash: B256,
) -> (stats: CacheMergeStats)
    ensures
        final(state)@ == merged(old(state)@, caches@, current_hash),
        stats@ == merge_totals(caches@, current_hash),
{
    let mut stats = CacheMergeStats::default();
    if caches.accounts.is_valid_for(current_hash) {
        stats.accounts_merged = caches.accounts.data.len();
        state.accounts.extend(caches.accounts.data);
    } else {
        stats.accounts_discarded = caches.accounts.data.len();
    }
    if caches.storage.is_valid_for(current_hash) {
        stats.storage_merged = caches.storage.data.len();
        state.storage.extend(caches.storage.data);
    } else {
        stats.storage_discarded = caches.storage.data.len();
    }
    if caches.block_hashes.is_valid_for(current_hash) {
        stats.block_hashes_merged = caches.block_hashes.data.len();
        state.block_hashes.extend(caches.block_hashes.data);
    } else {
        stats.block_hashes_discarded = caches.block_hashes.data.len();
    }
    stats.code_merged = caches.code.data.len();
    state.code.extend(caches.code.data);
    stats
}

/// The info that execution left an account with, where it gave it a new one.
pub open spec fn new_info(
    changes: Map<Address, AccountChangeView>,
    address: Address,
) -> Option<AccountInfoView> {
    if changes.contains_key(address) {
        changes[address].info
    } else {
        None
    }
}

/// The value that execution left in a slot, where it wrote to it.
pub open spec fn new_value(
    changes: Map<Address, AccountChangeView>,
    slot: (Address, U256),
) -> Option<U256> {
    if changes.contains_key(slot.0) && changes[slot.0].storage.contains_key(slot.1) {
        Some(changes[slot.0].storage[slot.1])
    } else {
        None
    }
}

/// The held accounts after execution: the same addresses, each with its new
/// info where it has one.
pub open spec fn accounts_after(
    held: Map<Address, AccountInfoView>,
    changes: Map<Address, AccountChangeView>,
) -> Map<Address, AccountInfoView> {
    held.map_entries(
        |address: Address, info: AccountInfoView|
            match new_info(changes, address) {
                Some(written) => written,
                None => info,
            },
    )
}

/// The held slots after execution: the same slots, each with its new value
/// where it was written to.
pub open spec fn storage_after(
    held: Map<(Address, U256), U256>,
    changes: Map<Address, AccountChangeView>,
) -> Map<(Address, U256), U256> {
    held.map_entries(
        |slot: (Address, U256), value: U256|
            match new_value(changes, slot) {
                Some(written) => written,
                None => value,
            },
    )
}

/// The state after execution: what is held takes the new values, what is not
/// held stays unknown, and new code is held.
pub open spec fn executed(
    state: StateSnapshotView,
    changes: ExecutionChangesView,
) -> StateSnapshotView {
    StateSnapshotView {
        accounts: accounts_after(state.accounts, changes.accounts),
        storage: storage_after(state.storage, changes.accounts),
        code: state.code.union_prefer_right(changes.contracts),
        ..state
    }
}

/// Writes an account's slots where they are held.
fn write_slots(
    storage: &mut Table<(Address, U256), U256>,
    address: Address,
    written: &Table<U256, U256>,
)
    ensures
        final(storage)@ == old(storage)@.map_entries(
            |slot: (Address, U256), value: U256|
                if slot.0 == address && written@.contains_key(slot.1) {
                    written@[slot.1]
                } else {
                    value
                },
        ),
{
    let ghost start = storage@;
    let ghost keys = written.keys();
    let len: usize = written.len();
    let mut i: usize = 0;
    while i < len
        invariant
            i <= len,
            len == keys.len(),
            len == written@.len(),
            keys == written.keys(),
            keys.no_duplicates(),
            storage@.dom() == start.dom(),
            forall|slot: (Address, U256)| #[trigger]
                storage@.contains_key(slot) ==> storage@[slot] == (if slot.0 == address
                    && keys.take(i as int).contains(slot.1) {
                    written@[slot.1]
                } else {
                    start[slot]
                }),
        decreases len - i,
    {
        let entry = written.entry_at(i);
        storage.replace(&(address, entry.0), entry.1);
        proof {
            let now = keys.take(i + 1);
            let then = keys.take(i as int);
            assert(now =~= then.push(entry.0));
            assert(now[i as int] == entry.0);
            assert forall|k: U256| now.contains(k) == (then.contains(k) || k == entry.0) by {
                if then.contains(k) {
                    let j = choose|j: int| 0 <= j < then.len() && then[j] == k;
                    assert(now[j] == k);
                }
                if now.contains(k) {
                    let j = choose|j: int| 0 <= j < now.len() && now[j] == k;
                    if j < i {
                        assert(then[j] == k);
                    }
                }
            }
            assert(storage@.dom() =~= start.dom());
        }
        i += 1;
    }
    proof {
        assert(keys.take(len as int) =~= keys);
        assert forall|k: U256| keys.contains(k) == written@.contains_key(k) by {
            assert(keys.contains(k) == keys.to_set().contains(k));
        }
        assert(storage@ =~= start.map_entries(
            |slot: (Address, U256), value: U256|
                if slot.0 == address && written@.contains_key(slot.1) {
                    written@[slot.1]
                } else {
                    value
                },
        ));
    }
}

/// Applies what execution did. Only the accounts and slots that the snapshot
/// already holds take the new values; the rest stays to be fetched.
pub fn apply_execution_changes(state: &mut StateSnapshot, changes: &ExecutionChanges)
    ensures
        final(state)@ == executed(old(state)@, changes@),
{
    let ghost start = state@;
    let ghost keys = changes.accounts.keys();
    let len: usize = changes.accounts.len();
    let mut i: usize = 0;
    while i < len
        invariant
            i <= len,
            len == keys.len(),
            len == changes.accounts@.len(),
            keys == changes.accounts.keys(),
            keys.no_duplicates(),
            state@ == (StateSnapshotView {
                accounts: state.accounts@,
                storage: state.storage@,
                ..start
            }),
            state.accounts@.dom() == start.accounts.dom(),
            state.storage@.dom() == start.storage.dom(),
            forall|address: Address| #[trigger]
                state.accounts@.contains_key(address) ==> state.accounts@[address] == (
                match new_info(changes@.accounts, address) {
                    Some(written) if keys.take(i as int).contains(address) => written,
                    _ => start.accounts[address],
                }),
            forall|slot: (Address, U256)| #[trigger]
                state.storage@.contains_key(slot) ==> state.storage@[slot] == (match new_value(
                    changes@.accounts,
                    slot,
                ) {
                    Some(written) if keys.take(i as int).contains(slot.0) => written,
                    _ => start.storage[slot],
                }),
        decreases len - i,
    {
        let entry = changes.accounts.entry_at(i);
        let address = entry.0;
        proof {
            let now = keys.take(i + 1);
            let then = keys.take(i as int);
            assert(now =~= then.push(address));
            assert(now[i as int] == address);
            assert forall|k: Address| now.contains(k) == (then.contains(k) || k == address) by {
                if then.contains(k) {
                    let j = choose|j: int| 0 <= j < then.len() && then[j] == k;
                    assert(now[j] == k);
                }
                if now.contains(k) {
                    let j = choose|j: int| 0 <= j < now.len() && now[j] == k;
                    if j < i {
                        assert(then[j] == k);
                    }
                }
            }
            if then.contains(address) {
                let j = choose|j: int| 0 <= j < then.len() && then[j] == address;
                assert(keys[j] == keys[i as int]);
            }
        }
        if let Some(info) = &entry.1.info {
            state.accounts.replace(&address, info.duplicate());
        }
        write_slots(&mut state.storage, address, &entry.1.storage);
        proof {
            assert(state.accounts@.dom() =~= start.accounts.dom());
            assert(state.storage@.dom() =~= start.storage.dom());
        }
        i += 1;
    }
    proof {
        assert(keys.take(len as int) =~= keys);
        assert forall|k: Address| keys.contains(k) == changes@.accounts.contains_key(k) by {
            assert(keys.contains(k) == keys.to_set().contains(k));
        }
        assert(state.accounts@ =~= accounts_after(start.accounts, changes@.accounts));
        assert(state.storage@ =~= storage_after(start.storage, changes@.accounts));
    }
    state.code.extend(changes.contracts.duplicate());
}

/// The state once a block's receipts and hash have been taken over.
pub open spec fn with_block(state: StateSnapshotView, block: BlockDataView) -> StateSnapshotView {
    StateSnapshotView {
        block_hashes: state.block_hashes.insert(block.number, block.hash),
        ..state.with_receipts(
            BlockReceiptsView {
                block: block.number,
                receipts: block.receipts,
                tx_hashes: block.tx_hashes,
            },
        )
    }
}

/// The state once the receipts and hashes of all these blocks have been taken
/// over, from the first to the last.
pub open spec fn with_blocks(
    state: StateSnapshotView,
    blocks: Seq<BlockDataView>,
) -> StateSnapshotView
    decreases blocks.len(),
{
    if blocks.len() == 0 {
        state
    } else {
        with_block(with_blocks(state, blocks.drop_last()), blocks.last())
    }
}

/// The state once all these blocks have been taken over: header and
/// withdrawals are those of the last one.
pub open spec fn with_block_data(
    state: StateSnapshotView,
    blocks: Seq<BlockDataView>,
) -> StateSnapshotView {
    if blocks.len() == 0 {
        state
    } else {
        StateSnapshotView {
            header: Some(blocks.last().header),
            withdrawals: blocks.last().withdrawals,
            ..with_blocks(state, blocks)
        }
    }
}

/// Takes over what blocks bring besides their execution.
pub fn apply_block_data(state: &mut StateSnapshot, blocks: &[BlockData])
    ensures
        final(state)@ == with_block_data(old(state)@, blocks.deep_view()),
{
    let ghost start = state@;
    let ghost model = blocks.deep_view();
    let len: usize = blocks.len();
    let mut i: usize = 0;
    assert(model.take(0) =~= Seq::<BlockDataView>::empty());
    while i < len
        invariant
            i <= len,
            len == blocks@.len(),
            model == blocks.deep_view(),
            state@ == with_blocks(start, model.take(i as int)),
        decreases len - i,
    {
        let block = &blocks[i];
        state.push_receipts(block.number, block.receipts.duplicate(), block.tx_hashes.duplicate());
        state.block_hashes.insert(block.number, block.hash);
        proof {
            let longer = model.take(i + 1);
            assert(longer.drop_last() =~= model.take(i as int));
            assert(longer.last() == block.deep_view());
        }
        i += 1;
    }
    assert(model.take(len as int) =~= model);
    if len > 0 {
        let tip = &blocks[len - 1];
        state.header = Some(tip.header.duplicate());
        state.withdrawals = tip.withdrawals.duplicate();
    }
}

/// The state with the tip and its changed accounts noted.
pub open spec fn at_tip(
    state: StateSnapshotView,
    changed: Set<Address>,
    tip: ChainTip,
) -> StateSnapshotView {
    StateSnapshotView {
        block: tip.number,
        block_hash: tip.hash,
        ..state.with_changed_accounts(
            BlockChangedAccountsView { block: tip.number, accounts: sorted_members(changed) },
        )
    }
}

/// The addresses of the accounts that execution touched, in ascending order.
fn changed_addresses(changes: &ExecutionChanges) -> (addresses: Vec<Address>)
    ensures
        addresses@ == sorted_members(changes@.accounts.dom()),
{
    let ghost keys = changes.accounts.keys();
    let len: usize = changes.accounts.len();
    let mut addresses: Vec<Address> = Vec::with_capacity(len);
    let mut i: usize = 0;
    while i < len
        invariant
            i <= len,
            len == keys.len(),
            len == changes.accounts@.len(),
            keys == changes.accounts.keys(),
            addresses@ == keys.take(i as int),
        decreases len - i,
    {
        addresses.push(changes.accounts.entry_at(i).0);
        assert(addresses@ =~= keys.take(i + 1));
        i += 1;
    }
    assert(addresses@ =~= keys);
    sort_members(addresses)
}

/// Moves a snapshot to the tip and notes the accounts that changed there.
fn advance(state: &mut StateSnapshot, changes: &ExecutionChanges, tip: ChainTip)
    ensures
        final(state)@ == at_tip(old(state)@, changes@.accounts.dom(), tip),
{
    let changed = changed_addresses(changes);
    assert(changed.deep_view() =~= changed@);
    state.push_changed_accounts(tip.number, changed);
    state.block = tip.number;
    state.block_hash = tip.hash;
}

/// The snapshot after a commit.
pub open spec fn committed(
    current: StateSnapshotView,
    caches: CachesView,
    changes: ExecutionChangesView,
    blocks: Seq<BlockDataView>,
    tip: ChainTip,
) -> StateSnapshotView {
    let usable = StateSnapshotView { stale: false, ..current };
    let hydrated = merged(usable, caches, current.block_hash);
    at_tip(
        with_block_data(executed(hydrated, changes), blocks),
        changes.accounts.dom(),
        tip,
    )
}

/// The snapshot after a commit: the current one with the caches merged, then
/// what execution did, then what the blocks bring, at the new tip and usable.
pub fn build_commit_state(
    current: &StateSnapshot,
    caches: Caches,
    changes: &ExecutionChanges,
    blocks: &[BlockData],
    tip: ChainTip,
) -> (res: (StateSnapshot, CacheMergeStats))
    ensures
        res.0@ == committed(current@, caches@, changes@, blocks.deep_view(), tip),
        res.1@ == merge_totals(caches@, current.block_hash),
{
    let mut new_state = current.clone();
    new_state.stale = false;
    let stats = merge_caches(&mut new_state, caches, current.block_hash);
    apply_execution_changes(&mut new_state, changes);
    apply_block_data(&mut new_state, blocks);
    advance(&mut new_state, changes, tip);
    (new_state, stats)
}

/// What stays of a snapshot that lost track of the chain: its code, which
/// holds wherever the chain went.
pub open spec fn from_scratch(current: StateSnapshotView) -> StateSnapshotView {
    StateSnapshotView { code: current.code, ..StateSnapshotView::empty() }
}

/// What stays of the caches when what they were read for is given up.
pub open spec fn only_code(caches: CachesView) -> CachesView {
    CachesView {
        accounts: TaggedCacheView { block_hash: B256::zero_hash(), data: Map::empty() },
        code: caches.code,
        storage: TaggedCacheView { block_hash: B256::zero_hash(), data: Map::empty() },
        block_hashes: TaggedCacheView { block_hash: B256::zero_hash(), data: Map::empty() },
    }
}

/// How many entries of each cache are dropped, and that all code is taken over,
/// when what the caches were read for is given up.
pub open spec fn dropped_totals(caches: CachesView) -> MergeCounts {
    MergeCounts {
        accounts: (0, caches.accounts.data.len()),
        storage: (0, caches.storage.data.len()),
        block_hashes: (0, caches.block_hashes.data.len()),
        code: caches.code.len(),
    }
}

/// The snapshot after a commit that a stale snapshot takes: nothing that was
/// held or read before it stays but code.
pub open spec fn recovered(
    current: StateSnapshotView,
    caches: CachesView,
    changes: ExecutionChangesView,
    blocks: Seq<BlockDataView>,
    tip: ChainTip,
) -> StateSnapshotView {
    committed(from_scratch(current), only_code(caches), changes, blocks, tip)
}

/// The snapshot after a commit that a stale snapshot takes. Blocks may have
/// been missed, so nothing of before is built on: the commit makes a new start
/// at its tip, with the code that is known.
pub fn build_recovery_state(
    current: &StateSnapshot,
    caches: Caches,
    changes: &ExecutionChanges,
    blocks: &[BlockData],
    tip: ChainTip,
) -> (res: (StateSnapshot, CacheMergeStats))
    ensures
        res.0@ == recovered(current@, caches@, changes@, blocks.deep_view(), tip),
        res.1@ == dropped_totals(caches@),
{
    let mut base = StateSnapshot::default();
    base.code = current.code.duplicate();
    assert(base@ =~= from_scratch(current@));
    let accounts: usize = caches.accounts.data.len();
    let storage: usize = caches.storage.data.len();
    let block_hashes: usize = caches.block_hashes.data.len();
    let ghost handed_over = caches@;
    let mut kept = Caches::default();
    kept.code = caches.code;
    assert(kept@ =~= only_code(handed_over));
    let (new_state, mut stats) = build_commit_state(&base, kept, changes, blocks, tip);
    stats.accounts_discarded = accounts;
    stats.storage_discarded = storage;
    stats.block_hashes_discarded = block_hashes;
    (new_state, stats)
}

/// What stays of a state when the chain goes back to a block: the histories
/// and block hashes up to that block, and all code.
pub open spec fn kept_up_to(current: StateSnapshotView, cutoff: u64) -> StateSnapshotView {
    StateSnapshotView {
        receipts_history: up_to::<BlockReceipts>(current.receipts_history, cutoff),
        changed_accounts_history: up_to::<BlockChangedAccounts>(
            current.changed_accounts_history,
            cutoff,
        ),
        block_hashes: current.block_hashes.restrict(Set::new(|number: u64| number <= cutoff)),
        code: current.code,
        ..StateSnapshotView::empty()
    }
}

/// Builds what stays of a state when the chain goes back to a block.
fn copy_history_before(current: &StateSnapshot, cutoff: u64) -> (kept: StateSnapshot)
    ensures
        kept@ == kept_up_to(current@, cutoff),
{
    let mut kept = StateSnapshot::default();
    kept.receipts_history = copy_up_to(&current.receipts_history, cutoff);
    kept.changed_accounts_history = copy_up_to(&current.changed_accounts_history, cutoff);
    let ghost keys = current.block_hashes.keys();
    let ghost early = Set::new(|number: u64| number <= cutoff);
    let ghost others = kept@;
    let len: usize = current.block_hashes.len();
    let mut i: usize = 0;
    while i < len
        invariant
            i <= len,
            len == keys.len(),
            len == current.block_hashes@.len(),
            keys == current.block_hashes.keys(),
            early == Set::new(|number: u64| number <= cutoff),
            kept@ == (StateSnapshotView { block_hashes: kept.block_hashes@, ..others }),
            kept.block_hashes@ == current.block_hashes@.restrict(
                early.intersect(keys.take(i as int).to_set()),
            ),
        decreases len - i,
    {
        let (number, hash) = *current.block_hashes.entry_at(i);
        proof {
            let now = keys.take(i + 1);
            assert(now =~= keys.take(i as int).push(number));
            assert(now[i as int] == number);
            assert forall|k: u64|
                now.contains(k) == (keys.take(i as int).contains(k) || k == number) by {
                let then = keys.take(i as int);
                if then.contains(k) {
                    let j = choose|j: int| 0 <= j < then.len() && then[j] == k;
                    assert(now[j] == k);
                }
                if now.contains(k) {
                    let j = choose|j: int| 0 <= j < now.len() && now[j] == k;
                    if j < i {
                        assert(then[j] == k);
                    }
                }
            }
        }
        if number <= cutoff {
            kept.block_hashes.insert(number, hash);
        }
        proof {
            let now = keys.take(i + 1);
            assert(kept.block_hashes@ =~= current.block_hashes@.restrict(
                early.intersect(now.to_set()),
            ));
        }
        i += 1;
    }
    kept.code = current.code.duplicate();
    proof {
        assert(keys.take(len as int) =~= keys);
        assert(kept.block_hashes@ =~= current.block_hashes@.restrict(early));
        assert(kept@ =~= kept_up_to(current@, cutoff));
    }
    kept
}

/// The snapshot after a reorg.
pub open spec fn reorged(
    current: StateSnapshotView,
    common_ancestor: u64,
    changes: ExecutionChangesView,
    blocks: Seq<BlockDataView>,
    tip: ChainTip,
) -> StateSnapshotView {
    at_tip(
        with_block_data(executed(kept_up_to(current, common_ancestor), changes), blocks),
        changes.accounts.dom(),
        tip,
    )
}

/// The snapshot after a reorg: what stays of the current one at the common
/// ancestor, and the new chain on top of it.
pub fn build_reorg_state(
    current: &StateSnapshot,
    common_ancestor: u64,
    changes: &ExecutionChanges,
    blocks: &[BlockData],
    tip: ChainTip,
) -> (state: StateSnapshot)
    ensures
        state@ == reorged(current@, common_ancestor, changes@, blocks.deep_view(), tip),
{
    let mut new_state = copy_history_before(current, common_ancestor);
    apply_execution_changes(&mut new_state, changes);
    apply_block_data(&mut new_state, blocks);
    advance(&mut new_state, changes, tip);
    new_state
}

/// The snapshot after a revert.
pub open spec fn reverted(current: StateSnapshotView, common_ancestor: u64) -> StateSnapshotView {
    StateSnapshotView {
        stale: true,
        block: common_ancestor,
        block_hash: B256::zero_hash(),
        ..kept_up_to(current, common_ancestor)
    }
}

/// The snapshot after a revert: what stays of the current one at the common
/// ancestor, whose hash is unknown, and stale.
pub fn build_revert_state(current: &StateSnapshot, common_ancestor: u64) -> (state: StateSnapshot)
    ensures
        state@ == reverted(current@, common_ancestor),
{
    let mut new_state = copy_history_before(current, common_ancestor);
    new_state.stale = true;
    new_state.block = common_ancestor;
    new_state.block_hash = B256::zero();
    new_state
}

/// The same snapshot, stale.
pub fn mark_stale(state: &StateSnapshot) -> (res: StateSnapshot)
    ensures
        res@ == (StateSnapshotView { stale: true, ..state@ }),
{
    let mut new_state = state.clone();
    new_state.stale = true;
    new_state
}

/// The models of what a transition works with say all there is to it.
pub proof fn transition_models_are_complete(
    stats: CacheMergeStats,
    caches: Caches,
    change: AccountChange,
    changes: ExecutionChanges,
    block: BlockData,
)
    ensures
        stats@.accounts == (stats.accounts_merged as nat, stats.accounts_discarded as nat),
        stats@.storage == (stats.storage_merged as nat, stats.storage_discarded as nat),
        stats@.block_hashes == (
            stats.block_hashes_merged as nat,
            stats.block_hashes_discarded as nat,
        ),
        stats@.code == stats.code_merged,
        caches@.accounts == caches.accounts@,
        caches@.code == caches.code.data@,
        caches@.storage == caches.storage@,
        caches@.block_hashes == caches.block_hashes@,
        change.deep_view().info == (match change.info {
            Some(info) => Some(info.deep_view()),
            None => None,
        }),
        change.deep_view().storage == change.storage@,
        changes@.accounts == changes.accounts@,
        changes@.contracts == changes.contracts@,
        block.deep_view().number == block.number,
        block.deep_view().hash == block.hash,
        block.deep_view().header == block.header.deep_view(),
        block.deep_view().withdrawals == (match block.withdrawals {
            Some(withdrawals) => Some(withdrawals@),
            None => None,
        }),
        block.deep_view().receipts == block.receipts.deep_view(),
        block.deep_view().tx_hashes == block.tx_hashes@,
{
    assert(block.deep_view().tx_hashes =~= block.tx_hashes@);
    if let Some(withdrawals) = block.withdrawals {
        assert(withdrawals.deep_view() =~= withdrawals@);
    }
}

/// The rows of the statistics name each cache with what was taken over of it and
/// what was dropped; code is never dropped.
pub proof fn statistics_are_listed_by_cache(
    stats: CacheMergeStats,
    rows: Vec<(&'static str, usize, usize)>,
)
    requires
        call_ensures(CacheMergeStats::iter, (&stats,), rows),
    ensures
        rows@.len() == 4,
        rows@[0].0@ == "accounts"@ && rows@[0].1 == stats.accounts_merged && rows@[0].2
            == stats.accounts_discarded,
        rows@[1].0@ == "storage"@ && rows@[1].1 == stats.storage_merged && rows@[1].2
            == stats.storage_discarded,
        rows@[2].0@ == "block_hashes"@ && rows@[2].1 == stats.block_hashes_merged && rows@[2].2
            == stats.block_hashes_discarded,
        rows@[3].0@ == "code"@ && rows@[3].1 == stats.code_merged && rows@[3].2 == 0,
{
}

} // verus!
