//! The state at the tip of the chain, and how it is read.

use std::collections::VecDeque;
use std::sync::Arc;

use vstd::prelude::*;

use crate::account::{AccountInfo, AccountInfoView};
use crate::block::{Receipt, ReceiptView, SealedHeader, SealedHeaderView, Withdrawal, Withdrawals};
use crate::code::Bytecode;
use crate::error::{FetchKind, SimError};
use crate::fetch::{AccountRequest, BlockHashRequest, CodeRequest, FetchConfig, StorageRequest};
use crate::history::{
    before, copy_all, find, lookup, lookup_finds_oldest, push, pushed, pushed_is_found, truncate,
    PerBlock,
};
use crate::primitives::{Address, Duplicate, B256, U256};
use crate::table::Table;

verus! {

/// How many blocks the histories reach back.
pub const RECEIPTS_HISTORY_DEPTH: usize = 64;

/// The receipts of a block, and the hashes of its transactions.
#[derive(Debug)]
pub struct BlockReceipts {
    pub block: u64,
    pub receipts: Vec<Receipt>,
    pub tx_hashes: Vec<B256>,
}

/// The model of a `BlockReceipts`.
#[verifier::ext_equal]
pub struct BlockReceiptsView {
    pub block: u64,
    pub receipts: Seq<ReceiptView>,
    pub tx_hashes: Seq<B256>,
}

impl DeepView for BlockReceipts {
    type V = BlockReceiptsView;

    open spec fn deep_view(&self) -> BlockReceiptsView {
        BlockReceiptsView {
            block: self.block,
            receipts: self.receipts.deep_view(),
            tx_hashes: self.tx_hashes.deep_view(),
        }
    }
}

impl Duplicate for BlockReceipts {
    fn duplicate(&self) -> (res: BlockReceipts) {
        BlockReceipts {
            block: self.block,
            receipts: self.receipts.duplicate(),
            tx_hashes: self.tx_hashes.duplicate(),
        }
    }
}

impl PerBlock for BlockReceipts {
    open spec fn block_of(model: BlockReceiptsView) -> u64 {
        model.block
    }

    fn block_number(&self) -> (block: u64) {
        self.block
    }
}

/// The accounts that changed up to a block since the one applied before it.
#[derive(Debug)]
pub struct BlockChangedAccounts {
    pub block: u64,
    pub accounts: Vec<Address>,
}

/// The model of a `BlockChangedAccounts`.
#[verifier::ext_equal]
pub struct BlockChangedAccountsView {
    pub block: u64,
    pub accounts: Seq<Address>,
}

impl DeepView for BlockChangedAccounts {
    type V = BlockChangedAccountsView;

    open spec fn deep_view(&self) -> BlockChangedAccountsView {
        BlockChangedAccountsView { block: self.block, accounts: self.accounts.deep_view() }
    }
}

impl Duplicate for BlockChangedAccounts {
    fn duplicate(&self) -> (res: BlockChangedAccounts) {
        BlockChangedAccounts { block: self.block, accounts: self.accounts.duplicate() }
    }
}

impl PerBlock for BlockChangedAccounts {
    open spec fn block_of(model: BlockChangedAccountsView) -> u64 {
        model.block
    }

    fn block_number(&self) -> (block: u64) {
        self.block
    }
}

/// What is known of the chain's state as of one block. Accounts, slots and
/// code that it does not hold are unknown, not absent.
pub struct StateSnapshot {
    pub block: u64,
    pub block_hash: B256,
    pub header: Option<SealedHeader>,
    pub withdrawals: Option<Withdrawals>,
    pub accounts: Table<Address, AccountInfo>,
    pub code: Table<B256, Bytecode>,
    pub storage: Table<(Address, U256), U256>,
    pub block_hashes: Table<u64, B256>,
    pub receipts_history: VecDeque<BlockReceipts>,
    pub changed_accounts_history: VecDeque<BlockChangedAccounts>,
    /// Whether the state cannot be shown to be that of the chain.
    pub stale: bool,
}

/// The model of a `StateSnapshot`.
#[verifier::ext_equal]
pub struct StateSnapshotView {
    pub block: u64,
    pub block_hash: B256,
    pub header: Option<SealedHeaderView>,
    pub withdrawals: Option<Seq<Withdrawal>>,
    pub accounts: Map<Address, AccountInfoView>,
    pub code: Map<B256, Seq<u8>>,
    pub storage: Map<(Address, U256), U256>,
    pub block_hashes: Map<u64, B256>,
    pub receipts_history: Seq<BlockReceiptsView>,
    pub changed_accounts_history: Seq<BlockChangedAccountsView>,
    pub stale: bool,
}

impl View for StateSnapshot {
    type V = StateSnapshotView;

    open spec fn view(&self) -> StateSnapshotView {
        StateSnapshotView {
            block: self.block,
            block_hash: self.block_hash,
            header: self.header.deep_view(),
            withdrawals: self.withdrawals.deep_view(),
            accounts: self.accounts@,
            code: self.code@,
            storage: self.storage@,
            block_hashes: self.block_hashes@,
            receipts_history: self.receipts_history.deep_view(),
            changed_accounts_history: self.changed_accounts_history.deep_view(),
            stale: self.stale,
        }
    }
}

impl StateSnapshotView {
    /// The state of which nothing is known.
    pub open spec fn empty() -> StateSnapshotView {
        StateSnapshotView {
            block: 0,
            block_hash: B256::zero_hash(),
            header: None,
            withdrawals: None,
            accounts: Map::empty(),
            code: Map::empty(),
            storage: Map::empty(),
            block_hashes: Map::empty(),
            receipts_history: Seq::empty(),
            changed_accounts_history: Seq::empty(),
            stale: false,
        }
    }

    /// The receipts of the block and the hashes of its transactions, where
    /// the history holds them.
    pub open spec fn receipts_at(self, block: u64) -> Option<BlockReceiptsView> {
        lookup::<BlockReceipts>(self.receipts_history, block)
    }

    /// The accounts that changed at the block, where the history holds them.
    pub open spec fn changed_accounts_at(self, block: u64) -> Option<BlockChangedAccountsView> {
        lookup::<BlockChangedAccounts>(self.changed_accounts_history, block)
    }

    /// The state with a block's receipts added to the history.
    pub open spec fn with_receipts(self, entry: BlockReceiptsView) -> StateSnapshotView {
        StateSnapshotView { receipts_history: pushed(self.receipts_history, entry), ..self }
    }

    /// The state with a block's changed accounts added to the history.
    pub open spec fn with_changed_accounts(
        self,
        entry: BlockChangedAccountsView,
    ) -> StateSnapshotView {
        StateSnapshotView {
            changed_accounts_history: pushed(self.changed_accounts_history, entry),
            ..self
        }
    }
}

impl Default for StateSnapshot {
    fn default() -> (state: StateSnapshot)
        ensures
            state@ == StateSnapshotView::empty(),
    {
        let state = StateSnapshot {
            block: 0,
            block_hash: B256::zero(),
            header: None,
            withdrawals: None,
            accounts: Table::new(),
            code: Table::new(),
            storage: Table::new(),
            block_hashes: Table::new(),
            receipts_history: VecDeque::new(),
            changed_accounts_history: VecDeque::new(),
            stale: false,
        };
        assert(state@ =~= StateSnapshotView::empty());
        state
    }
}

impl Clone for StateSnapshot {
    fn clone(&self) -> (res: StateSnapshot)
        ensures
            res@ == self@,
    {
        StateSnapshot {
            block: self.block,
            block_hash: self.block_hash,
            header: self.header.duplicate(),
            withdrawals: self.withdrawals.duplicate(),
            accounts: self.accounts.duplicate(),
            code: self.code.duplicate(),
            storage: self.storage.duplicate(),
            block_hashes: self.block_hashes.duplicate(),
            receipts_history: copy_all(&self.receipts_history),
            changed_accounts_history: copy_all(&self.changed_accounts_history),
            stale: self.stale,
        }
    }
}

impl StateSnapshot {
    pub fn receipts(&self, block: u64) -> (res: Option<&[Receipt]>)
        ensures
            res is Some == self@.receipts_at(block) is Some,
            res matches Some(receipts) ==> receipts.deep_view() == self@.receipts_at(
                block,
            )->0.receipts,
    {
        match find(&self.receipts_history, block) {
            Some(i) => {
                let entry = &self.receipts_history[i];
                let receipts = entry.receipts.as_slice();
                assert(receipts.deep_view() =~= entry.receipts.deep_view());
                Some(receipts)
            },
            None => None,
        }
    }

    pub fn receipts_and_tx_hashes(&self, block: u64) -> (res: Option<(&[Receipt], &[B256])>)
        ensures
            res is Some == self@.receipts_at(block) is Some,
            res matches Some((receipts, tx_hashes)) ==> {
                &&& receipts.deep_view() == self@.receipts_at(block)->0.receipts
                &&& tx_hashes.deep_view() == self@.receipts_at(block)->0.tx_hashes
            },
    {
        match find(&self.receipts_history, block) {
            Some(i) => {
                let entry = &self.receipts_history[i];
                let receipts = entry.receipts.as_slice();
                let tx_hashes = entry.tx_hashes.as_slice();
                assert(receipts.deep_view() =~= entry.receipts.deep_view());
                assert(tx_hashes.deep_view() =~= entry.tx_hashes.deep_view());
                Some((receipts, tx_hashes))
            },
            None => None,
        }
    }

    pub fn push_receipts(&mut self, block: u64, receipts: Vec<Receipt>, tx_hashes: Vec<B256>)
        ensures
            final(self)@ == old(self)@.with_receipts(
                BlockReceiptsView {
                    block,
                    receipts: receipts.deep_view(),
                    tx_hashes: tx_hashes.deep_view(),
                },
            ),
    {
        push(&mut self.receipts_history, BlockReceipts { block, receipts, tx_hashes });
    }

    /// Forgets the receipts of the given block and of every later one.
    pub fn truncate_receipts(&mut self, from_block: u64)
        ensures
            final(self)@ == (StateSnapshotView {
                receipts_history: before::<BlockReceipts>(old(self)@.receipts_history, from_block),
                ..old(self)@
            }),
    {
        truncate(&mut self.receipts_history, from_block);
    }

    pub fn changed_accounts(&self, block: u64) -> (res: Option<&[Address]>)
        ensures
            res is Some == self@.changed_accounts_at(block) is Some,
            res matches Some(accounts) ==> accounts.deep_view() == self@.changed_accounts_at(
                block,
            )->0.accounts,
    {
        match find(&self.changed_accounts_history, block) {
            Some(i) => {
                let entry = &self.changed_accounts_history[i];
                let accounts = entry.accounts.as_slice();
                assert(accounts.deep_view() =~= entry.accounts.deep_view());
                Some(accounts)
            },
            None => None,
        }
    }

    pub fn push_changed_accounts(&mut self, block: u64, accounts: Vec<Address>)
        ensures
            final(self)@ == old(self)@.with_changed_accounts(
                BlockChangedAccountsView { block, accounts: accounts.deep_view() },
            ),
    {
        push(&mut self.changed_accounts_history, BlockChangedAccounts { block, accounts });
    }

    /// Forgets the changed accounts of the given block and of every later one.
    pub fn truncate_changed_accounts(&mut self, from_block: u64)
        ensures
            final(self)@ == (StateSnapshotView {
                changed_accounts_history: before::<BlockChangedAccounts>(
                    old(self)@.changed_accounts_history,
                    from_block,
                ),
                ..old(self)@
            }),
    {
        truncate(&mut self.changed_accounts_history, from_block);
    }
}

/// What a reply channel gave its waiter.
pub enum FetchOutcome<T> {
    /// The fetch manager answered.
    Answered(Result<T, SimError>),
    /// The request could not be handed to the fetch manager.
    NotSent,
    /// No answer came within the waiting time.
    TimedOut,
    /// The fetch manager dropped the request.
    Disconnected,
}

/// What the outcome means for the reader: the answer itself, a timeout, or
/// that the fetch manager is gone.
pub fn await_fetch<T>(outcome: FetchOutcome<T>, kind: FetchKind, timeout_ms: u64) -> (res: Result<
    T,
    SimError,
>)
    ensures
        outcome matches FetchOutcome::Answered(answer) ==> res == answer,
        outcome is TimedOut ==> res == Err::<T, SimError>(
            SimError::FetchTimeout { kind, elapsed_ms: timeout_ms },
        ),
        outcome is NotSent || outcome is Disconnected ==> res == Err::<T, SimError>(
            SimError::FetcherClosed,
        ),
{
    match outcome {
        FetchOutcome::Answered(answer) => answer,
        FetchOutcome::TimedOut => Err(SimError::FetchTimeout { kind, elapsed_ms: timeout_ms }),
        FetchOutcome::NotSent => Err(SimError::FetcherClosed),
        FetchOutcome::Disconnected => Err(SimError::FetcherClosed),
    }
}

/// What a read gives at once: the value, or the request that will fetch it.
#[derive(Debug)]
pub enum Read<T, Req> {
    Known(T),
    Unknown(Req),
}

/// What a reader notes of the state before it starts.
#[derive(Clone, Copy, Debug, PartialEq, Eq, Structural)]
pub struct StateGuard {
    pub generation: u64,
    pub block_hash: B256,
    pub stale: bool,
}

/// What became of the state since a guard was taken.
#[derive(Clone, Copy, Debug, PartialEq, Eq, Structural)]
pub enum StateValidity {
    /// It is the same state still, and usable.
    Valid,
    /// It was not usable to begin with.
    WasStale,
    /// It is not usable any more.
    BecameStale,
    /// It is another state now.
    Changed { old_gen: u64, new_gen: u64 },
}

/// The generation after the given one. The counter wraps around.
pub open spec fn next_generation(generation: u64) -> u64 {
    if generation == u64::MAX {
        0
    } else {
        (generation + 1) as u64
    }
}

/// The current snapshot, and how often it has been replaced.
pub struct StaticState {
    inner: Arc<StateSnapshot>,
    generation: u64,
    fetch: FetchConfig,
}

/// The model of a `StaticState`.
#[verifier::ext_equal]
pub struct StaticStateView {
    pub snapshot: StateSnapshotView,
    pub generation: u64,
    pub fetch: FetchConfig,
}

impl StaticStateView {
    /// What a reader notes of this state.
    pub open spec fn guard(self) -> StateGuard {
        StateGuard {
            generation: self.generation,
            block_hash: self.snapshot.block_hash,
            stale: self.snapshot.stale,
        }
    }

    /// What became of the state since the guard was taken.
    pub open spec fn validity(self, guard: StateGuard) -> StateValidity {
        if guard.stale {
            StateValidity::WasStale
        } else if self.snapshot.stale {
            StateValidity::BecameStale
        } else if guard.generation != self.generation {
            StateValidity::Changed { old_gen: guard.generation, new_gen: self.generation }
        } else {
            StateValidity::Valid
        }
    }

    /// The state once the snapshot has been replaced.
    pub open spec fn swapped(self, snapshot: StateSnapshotView) -> StaticStateView {
        StaticStateView {
            snapshot,
            generation: next_generation(self.generation),
            fetch: self.fetch,
        }
    }

    /// The state once the snapshot has been replaced by each of these in turn.
    pub open spec fn swapped_by_all(self, snapshots: Seq<StateSnapshotView>) -> StaticStateView
        decreases snapshots.len(),
    {
        if snapshots.len() == 0 {
            self
        } else {
            self.swapped_by_all(snapshots.drop_last()).swapped(snapshots.last())
        }
    }
}

impl View for StaticState {
    type V = StaticStateView;

    closed spec fn view(&self) -> StaticStateView {
        StaticStateView {
            snapshot: self.inner@,
            generation: self.generation,
            fetch: self.fetch,
        }
    }
}

/// `std::sync::Arc::clone`: another pointer to the same snapshot.
#[verifier::external_body]
fn share(snapshot: &Arc<StateSnapshot>) -> (res: Arc<StateSnapshot>)
    ensures
        res == *snapshot,
{
    Arc::clone(snapshot)
}

impl Clone for StaticState {
    /// A second handle to the same snapshot.
    fn clone(&self) -> (res: StaticState)
        ensures
            res@ == self@,
    {
        StaticState {
            inner: share(&self.inner),
            generation: self.generation,
            fetch: self.fetch,
        }
    }
}

impl StaticState {
    pub fn new(initial: StateSnapshot, fetch: FetchConfig) -> (state: StaticState)
        ensures
            state@ == (StaticStateView { snapshot: initial@, generation: 0, fetch }),
    {
        StaticState { inner: Arc::new(initial), generation: 0, fetch }
    }

    pub fn block(&self) -> (block: u64)
        ensures
            block == self@.snapshot.block,
    {
        self.inner.block
    }

    pub fn block_hash(&self) -> (hash: B256)
        ensures
            hash == self@.snapshot.block_hash,
    {
        self.inner.block_hash
    }

    pub fn header(&self) -> (header: Option<SealedHeader>)
        ensures
            header.deep_view() == self@.snapshot.header,
    {
        self.inner.header.duplicate()
    }

    pub fn withdrawals(&self) -> (withdrawals: Option<Withdrawals>)
        ensures
            withdrawals.deep_view() == self@.snapshot.withdrawals,
    {
        self.inner.withdrawals.duplicate()
    }

    pub fn is_stale(&self) -> (stale: bool)
        ensures
            stale == self@.snapshot.stale,
    {
        self.inner.stale
    }

    pub fn generation(&self) -> (generation: u64)
        ensures
            generation == self@.generation,
    {
        self.generation
    }

    /// How long a reader waits for a fetch manager, in milliseconds.
    pub fn wait_timeout_ms(&self) -> (ms: u64)
        ensures
            ms == self@.fetch.wait_timeout_ms,
    {
        self.fetch.wait_timeout_ms
    }

    /// Replaces the snapshot.
    pub fn swap(&mut self, new_state: StateSnapshot)
        ensures
            final(self)@ == old(self)@.swapped(new_state@),
    {
        self.inner = Arc::new(new_state);
        self.generation = self.generation.wrapping_add(1);
    }

    /// The snapshot as it stands, which later swaps leave alone.
    pub fn snapshot(&self) -> (snapshot: Arc<StateSnapshot>)
        ensures
            snapshot@ == self@.snapshot,
    {
        share(&self.inner)
    }

    pub fn receipts(&self, block: u64) -> (res: Option<Vec<Receipt>>)
        ensures
            res.deep_view() == (match self@.snapshot.receipts_at(block) {
                Some(entry) => Some(entry.receipts),
                None => None,
            }),
    {
        match find(&self.inner.receipts_history, block) {
            Some(i) => Some(self.inner.receipts_history[i].receipts.duplicate()),
            None => None,
        }
    }

    pub fn receipts_and_tx_hashes(&self, block: u64) -> (res: Option<(Vec<Receipt>, Vec<B256>)>)
        ensures
            res.deep_view() == (match self@.snapshot.receipts_at(block) {
                Some(entry) => Some((entry.receipts, entry.tx_hashes)),
                None => None,
            }),
    {
        match find(&self.inner.receipts_history, block) {
            Some(i) => {
                let entry = &self.inner.receipts_history[i];
                Some((entry.receipts.duplicate(), entry.tx_hashes.duplicate()))
            },
            None => None,
        }
    }

    pub fn changed_accounts(&self, block: u64) -> (res: Option<Vec<Address>>)
        ensures
            res.deep_view() == (match self@.snapshot.changed_accounts_at(block) {
                Some(entry) => Some(entry.accounts),
                None => None,
            }),
    {
        match find(&self.inner.changed_accounts_history, block) {
            Some(i) => Some(self.inner.changed_accounts_history[i].accounts.duplicate()),
            None => None,
        }
    }

    pub fn guard(&self) -> (guard: StateGuard)
        ensures
            guard == self@.guard(),
    {
        StateGuard {
            generation: self.generation(),
            block_hash: self.block_hash(),
            stale: self.is_stale(),
        }
    }

    pub fn check_guard(&self, guard: &StateGuard) -> (validity: StateValidity)
        ensures
            validity == self@.validity(*guard),
    {
        if guard.stale {
            return StateValidity::WasStale;
        }
        if self.is_stale() {
            return StateValidity::BecameStale;
        }
        let current_gen: u64 = self.generation();
        if guard.generation != current_gen {
            return StateValidity::Changed { old_gen: guard.generation, new_gen: current_gen };
        }
        StateValidity::Valid
    }

    /// Reads an account: a stale state gives an error, a held account is
    /// given as it is, and any other is to be fetched as of this block.
    pub fn basic_ref(&self, address: Address) -> (res: Result<
        Read<Option<AccountInfo>, AccountRequest>,
        SimError,
    >)
        ensures
            match res {
                Err(error) => self@.snapshot.stale && error is StaleState,
                Ok(Read::Known(info)) => {
                    &&& !self@.snapshot.stale
                    &&& self@.snapshot.accounts.contains_key(address)
                    &&& info.deep_view() == Some(self@.snapshot.accounts[address])
                },
                Ok(Read::Unknown(request)) => {
                    &&& !self@.snapshot.stale
                    &&& !self@.snapshot.accounts.contains_key(address)
                    &&& request == (AccountRequest {
                        address,
                        block: self@.snapshot.block,
                        block_hash: self@.snapshot.block_hash,
                    })
                },
            },
    {
        let state = &self.inner;
        if state.stale {
            return Err(SimError::StaleState);
        }
        if let Some(info) = state.accounts.get(&address) {
            return Ok(Read::Known(Some(info.duplicate())));
        }
        Ok(
            Read::Unknown(
                AccountRequest { address, block: state.block, block_hash: state.block_hash },
            ),
        )
    }

    /// Reads code by its hash: a stale state gives an error, held code is
    /// given as it is, and any other is to be fetched.
    pub fn code_by_hash_ref(&self, code_hash: B256) -> (res: Result<
        Read<Bytecode, CodeRequest>,
        SimError,
    >)
        ensures
            match res {
                Err(error) => self@.snapshot.stale && error is StaleState,
                Ok(Read::Known(code)) => {
                    &&& !self@.snapshot.stale
                    &&& self@.snapshot.code.contains_key(code_hash)
                    &&& code.deep_view() == self@.snapshot.code[code_hash]
                },
                Ok(Read::Unknown(request)) => {
                    &&& !self@.snapshot.stale
                    &&& !self@.snapshot.code.contains_key(code_hash)
                    &&& request == (CodeRequest {
                        code_hash,
                        block: self@.snapshot.block,
                        address_hint: None,
                    })
                },
            },
    {
        let state = &self.inner;
        if state.stale {
            return Err(SimError::StaleState);
        }
        if let Some(code) = state.code.get(&code_hash) {
            return Ok(Read::Known(code.duplicate()));
        }
        Ok(Read::Unknown(CodeRequest { code_hash, block: state.block, address_hint: None }))
    }

    /// Reads a storage slot: a stale state gives an error, a held slot is
    /// given as it is, and any other is to be fetched as of this block.
    pub fn storage_ref(&self, address: Address, index: U256) -> (res: Result<
        Read<U256, StorageRequest>,
        SimError,
    >)
        ensures
            match res {
                Err(error) => self@.snapshot.stale && error is StaleState,
                Ok(Read::Known(value)) => {
                    &&& !self@.snapshot.stale
                    &&& self@.snapshot.storage.contains_key((address, index))
                    &&& value == self@.snapshot.storage[(address, index)]
                },
                Ok(Read::Unknown(request)) => {
                    &&& !self@.snapshot.stale
                    &&& !self@.snapshot.storage.contains_key((address, index))
                    &&& request == (StorageRequest {
                        address,
                        index,
                        block: self@.snapshot.block,
                        block_hash: self@.snapshot.block_hash,
                    })
                },
            },
    {
        let state = &self.inner;
        if state.stale {
            return Err(SimError::StaleState);
        }
        if let Some(value) = state.storage.get(&(address, index)) {
            return Ok(Read::Known(*value));
        }
        Ok(
            Read::Unknown(
                StorageRequest {
                    address,
                    index,
                    block: state.block,
                    block_hash: state.block_hash,
                },
            ),
        )
    }

    /// Reads a block's hash: a stale state gives an error, a held hash is
    /// given as it is, and any other is to be fetched as of this block.
    pub fn block_hash_ref(&self, number: u64) -> (res: Result<
        Read<B256, BlockHashRequest>,
        SimError,
    >)
        ensures
            match res {
                Err(error) => self@.snapshot.stale && error is StaleState,
                Ok(Read::Known(hash)) => {
                    &&& !self@.snapshot.stale
                    &&& self@.snapshot.block_hashes.contains_key(number)
                    &&& hash == self@.snapshot.block_hashes[number]
                },
                Ok(Read::Unknown(request)) => {
                    &&& !self@.snapshot.stale
                    &&& !self@.snapshot.block_hashes.contains_key(number)
                    &&& request == (BlockHashRequest {
                        number,
                        at_block_hash: self@.snapshot.block_hash,
                    })
                },
            },
    {
        let state = &self.inner;
        if state.stale {
            return Err(SimError::StaleState);
        }
        if let Some(hash) = state.block_hashes.get(&number) {
            return Ok(Read::Known(*hash));
        }
        Ok(Read::Unknown(BlockHashRequest { number, at_block_hash: state.block_hash }))
    }
}

proof fn lemma_generation_counts_swaps(
    state: StaticStateView,
    snapshots: Seq<StateSnapshotView>,
)
    ensures
        state.swapped_by_all(snapshots).generation == (state.generation + snapshots.len())
            % 0x1_0000_0000_0000_0000,
        snapshots.len() > 0 ==> state.swapped_by_all(snapshots).snapshot == snapshots.last(),
    decreases snapshots.len(),
{
    if snapshots.len() > 0 {
        lemma_generation_counts_swaps(state, snapshots.drop_last());
    }
}

/// A guard of a usable state is found valid after some swaps exactly when the
/// state is usable again and there was no swap, or as many as it takes the
/// counter to come round.
pub proof fn guard_is_valid_iff_nothing_was_swapped(
    state: StaticStateView,
    snapshots: Seq<StateSnapshotView>,
)
    requires
        !state.snapshot.stale,
    ensures
        state.swapped_by_all(snapshots).validity(state.guard()) is Valid <==> {
            &&& !state.swapped_by_all(snapshots).snapshot.stale
            &&& snapshots.len() % 0x1_0000_0000_0000_0000 == 0
        },
{
    lemma_generation_counts_swaps(state, snapshots);
}

/// A guard of a stale state is never found valid.
pub proof fn guard_of_stale_state_is_never_valid(
    state: StaticStateView,
    snapshots: Seq<StateSnapshotView>,
)
    requires
        state.snapshot.stale,
    ensures
        state.swapped_by_all(snapshots).validity(state.guard()) is WasStale,
{
}

/// The model of a snapshot says all there is to it, each part as it is.
pub proof fn snapshot_model_is_complete(state: StateSnapshot)
    ensures
        state@.block == state.block,
        state@.block_hash == state.block_hash,
        state@.header == (match state.header {
            Some(header) => Some(header.deep_view()),
            None => None,
        }),
        state@.withdrawals == (match state.withdrawals {
            Some(withdrawals) => Some(withdrawals@),
            None => None,
        }),
        state@.accounts == state.accounts@,
        state@.code == state.code@,
        state@.storage == state.storage@,
        state@.block_hashes == state.block_hashes@,
        state@.receipts_history == state.receipts_history.deep_view(),
        state@.changed_accounts_history == state.changed_accounts_history.deep_view(),
        state@.stale == state.stale,
{
    if let Some(withdrawals) = state.withdrawals {
        assert(withdrawals.deep_view() =~= withdrawals@);
    }
}

/// The models of a history's entries say all there is to them, and go by the
/// block that the entry names.
pub proof fn history_entry_models_are_complete(
    receipts: BlockReceipts,
    changed: BlockChangedAccounts,
)
    ensures
        receipts.deep_view().block == receipts.block,
        receipts.deep_view().receipts == receipts.receipts.deep_view(),
        receipts.deep_view().tx_hashes == receipts.tx_hashes@,
        <BlockReceipts as PerBlock>::block_of(receipts.deep_view()) == receipts.block,
        changed.deep_view().block == changed.block,
        changed.deep_view().accounts == changed.accounts@,
        <BlockChangedAccounts as PerBlock>::block_of(changed.deep_view()) == changed.block,
{
    assert(receipts.deep_view().tx_hashes =~= receipts.tx_hashes@);
    assert(changed.deep_view().accounts =~= changed.accounts@);
}

/// A snapshot starts at block zero without a hash, knows nothing, and can be
/// used.
pub proof fn nothing_is_known_at_first()
    ensures
        ({
            let state = StateSnapshotView::empty();
            &&& state.block == 0
            &&& state.block_hash == (B256 { hi: 0, lo: 0 })
            &&& state.header is None
            &&& state.withdrawals is None
            &&& state.accounts == Map::<Address, AccountInfoView>::empty()
            &&& state.code == Map::<B256, Seq<u8>>::empty()
            &&& state.storage == Map::<(Address, U256), U256>::empty()
            &&& state.block_hashes == Map::<u64, B256>::empty()
            &&& state.receipts_history == Seq::<BlockReceiptsView>::empty()
            &&& state.changed_accounts_history == Seq::<BlockChangedAccountsView>::empty()
            &&& !state.stale
        }),
{
}

/// What is found of a block's receipts is the oldest entry that names the block,
/// and nothing is found exactly if no entry does.
pub proof fn receipts_are_found_by_their_block(state: StateSnapshotView, block: u64)
    ensures
        match state.receipts_at(block) {
            Some(entry) => exists|i: int|
                {
                    &&& 0 <= i < state.receipts_history.len()
                    &&& #[trigger] state.receipts_history[i] == entry
                    &&& entry.block == block
                    &&& forall|j: int|
                        0 <= j < i ==> (#[trigger] state.receipts_history[j]).block != block
                },
            None => forall|i: int|
                0 <= i < state.receipts_history.len() ==> (
                #[trigger] state.receipts_history[i]).block != block,
        },
{
    let history = state.receipts_history;
    lookup_finds_oldest::<BlockReceipts>(history, block);
    if state.receipts_at(block) is Some {
        let i = choose|i: int|
            {
                &&& 0 <= i < history.len()
                &&& lookup::<BlockReceipts>(history, block) == Some(#[trigger] history[i])
                &&& <BlockReceipts as PerBlock>::block_of(history[i]) == block
                &&& forall|j: int|
                    0 <= j < i ==> <BlockReceipts as PerBlock>::block_of(#[trigger] history[j])
                        != block
            };
        assert(state.receipts_history[i].block == block);
        assert forall|j: int| 0 <= j < i implies (#[trigger] state.receipts_history[j]).block
            != block by {
            assert(<BlockReceipts as PerBlock>::block_of(history[j]) != block);
        }
    } else {
        assert forall|i: int| 0 <= i < state.receipts_history.len() implies (
        #[trigger] state.receipts_history[i]).block != block by {
            assert(<BlockReceipts as PerBlock>::block_of(history[i]) != block);
        }
    }
}

/// What is found of a block's changed accounts is the oldest entry that names
/// the block, and nothing is found exactly if no entry does.
pub proof fn changed_accounts_are_found_by_their_block(state: StateSnapshotView, block: u64)
    ensures
        match state.changed_accounts_at(block) {
            Some(entry) => exists|i: int|
                {
                    &&& 0 <= i < state.changed_accounts_history.len()
                    &&& #[trigger] state.changed_accounts_history[i] == entry
                    &&& entry.block == block
                    &&& forall|j: int|
                        0 <= j < i ==> (#[trigger] state.changed_accounts_history[j]).block
                            != block
                },
            None => forall|i: int|
                0 <= i < state.changed_accounts_history.len() ==> (
                #[trigger] state.changed_accounts_history[i]).block != block,
        },
{
    let history = state.changed_accounts_history;
    lookup_finds_oldest::<BlockChangedAccounts>(history, block);
    if state.changed_accounts_at(block) is Some {
        let i = choose|i: int|
            {
                &&& 0 <= i < history.len()
                &&& lookup::<BlockChangedAccounts>(history, block) == Some(#[trigger] history[i])
                &&& <BlockChangedAccounts as PerBlock>::block_of(history[i]) == block
                &&& forall|j: int|
                    0 <= j < i ==> <BlockChangedAccounts as PerBlock>::block_of(
                        #[trigger] history[j],
                    ) != block
            };
        assert(state.changed_accounts_history[i].block == block);
        assert forall|j: int| 0 <= j < i implies (
        #[trigger] state.changed_accounts_history[j]).block != block by {
            assert(<BlockChangedAccounts as PerBlock>::block_of(history[j]) != block);
        }
    } else {
        assert forall|i: int| 0 <= i < state.changed_accounts_history.len() implies (
        #[trigger] state.changed_accounts_history[i]).block != block by {
            assert(<BlockChangedAccounts as PerBlock>::block_of(history[i]) != block);
        }
    }
}

/// Adding to a history leaves everything else of a snapshot alone.
pub proof fn adding_to_a_history_leaves_the_rest_alone(
    state: StateSnapshotView,
    receipts: BlockReceiptsView,
    changed: BlockChangedAccountsView,
)
    ensures
        ({
            let next = state.with_receipts(receipts);
            &&& next.receipts_history.last() == receipts
            &&& next == (StateSnapshotView { receipts_history: next.receipts_history, ..state })
        }),
        ({
            let next = state.with_changed_accounts(changed);
            &&& next.changed_accounts_history.last() == changed
            &&& next == (StateSnapshotView {
                changed_accounts_history: next.changed_accounts_history,
                ..state
            })
        }),
{
}

/// A guard notes the generation, the block's hash and whether the state is
/// stale. A later check finds that the state was stale, or else that it is now,
/// or else that it is another generation, which it names with the one that was
/// noted; or else it is the same state.
pub proof fn guard_is_judged_by_staleness_then_generation(
    state: StaticStateView,
    guard: StateGuard,
)
    ensures
        state.guard().generation == state.generation,
        state.guard().block_hash == state.snapshot.block_hash,
        state.guard().stale == state.snapshot.stale,
        state.validity(guard) is WasStale <==> guard.stale,
        state.validity(guard) is BecameStale <==> !guard.stale && state.snapshot.stale,
        state.validity(guard) is Valid <==> !guard.stale && !state.snapshot.stale
            && guard.generation == state.generation,
        state.validity(guard) matches StateValidity::Changed { old_gen, new_gen } ==> {
            &&& old_gen == guard.generation
            &&& new_gen == state.generation
            &&& old_gen != new_gen
        },
{
}

/// A swap puts the new snapshot in the place of the old one, moves the
/// generation on by one, round to zero after the greatest, and leaves the
/// configuration alone.
pub proof fn swap_replaces_only_the_snapshot(state: StaticStateView, snapshot: StateSnapshotView)
    ensures
        state.swapped(snapshot).snapshot == snapshot,
        state.swapped(snapshot).fetch == state.fetch,
        state.swapped(snapshot).generation == (state.generation + 1) % 0x1_0000_0000_0000_0000,
{
}

/// A read of an account gives the held account with every part of it, or asks
/// for the account at the block that the state is at; of a stale state it gives
/// nothing but that it is stale.
pub proof fn account_read_gives_what_is_held(
    state: StaticState,
    address: Address,
    res: Result<Read<Option<AccountInfo>, AccountRequest>, SimError>,
)
    requires
        call_ensures(StaticState::basic_ref, (&state, address), res),
    ensures
        state@.snapshot.stale ==> (res matches Err(error) && error is StaleState),
        !state@.snapshot.stale && state@.snapshot.accounts.contains_key(address) ==> {
            &&& res matches Ok(Read::Known(Some(info)))
            &&& info.balance == state@.snapshot.accounts[address].balance
            &&& info.nonce == state@.snapshot.accounts[address].nonce
            &&& info.code_hash == state@.snapshot.accounts[address].code_hash
            &&& info.account_id == state@.snapshot.accounts[address].account_id
            &&& info.deep_view() == state@.snapshot.accounts[address]
        },
        !state@.snapshot.stale && !state@.snapshot.accounts.contains_key(address) ==> {
            &&& res matches Ok(Read::Unknown(request))
            &&& request.address == address
            &&& request.block == state@.snapshot.block
            &&& request.block_hash == state@.snapshot.block_hash
        },
{
}

/// A read of code gives the held code byte for byte, or asks for the code with
/// the hash; of a stale state it gives nothing but that it is stale.
pub proof fn code_read_gives_what_is_held(
    state: StaticState,
    code_hash: B256,
    res: Result<Read<Bytecode, CodeRequest>, SimError>,
)
    requires
        call_ensures(StaticState::code_by_hash_ref, (&state, code_hash), res),
    ensures
        state@.snapshot.stale ==> (res matches Err(error) && error is StaleState),
        !state@.snapshot.stale && state@.snapshot.code.contains_key(code_hash) ==> {
            &&& res matches Ok(Read::Known(code))
            &&& code.deep_view() == state@.snapshot.code[code_hash]
        },
        !state@.snapshot.stale && !state@.snapshot.code.contains_key(code_hash) ==> {
            &&& res matches Ok(Read::Unknown(request))
            &&& request.code_hash == code_hash
            &&& request.block == state@.snapshot.block
            &&& request.address_hint is None
        },
{
}

/// A read of a slot gives the held value, or asks for the slot at the block that
/// the state is at; of a stale state it gives nothing but that it is stale.
pub proof fn storage_read_gives_what_is_held(
    state: StaticState,
    address: Address,
    index: U256,
    res: Result<Read<U256, StorageRequest>, SimError>,
)
    requires
        call_ensures(StaticState::storage_ref, (&state, address, index), res),
    ensures
        state@.snapshot.stale ==> (res matches Err(error) && error is StaleState),
        !state@.snapshot.stale && state@.snapshot.storage.contains_key((address, index)) ==> {
            &&& res matches Ok(Read::Known(value))
            &&& value.hi == state@.snapshot.storage[(address, index)].hi
            &&& value.lo == state@.snapshot.storage[(address, index)].lo
        },
        !state@.snapshot.stale && !state@.snapshot.storage.contains_key((address, index)) ==> {
            &&& res matches Ok(Read::Unknown(request))
            &&& request.address == address
            &&& request.index == index
            &&& request.block == state@.snapshot.block
            &&& request.block_hash == state@.snapshot.block_hash
        },
{
}

/// A read of a block's hash gives the held one, or asks for it on behalf of the
/// block that the state is at; of a stale state it gives nothing but that it is
/// stale.
pub proof fn block_hash_read_gives_what_is_held(
    state: StaticState,
    number: u64,
    res: Result<Read<B256, BlockHashRequest>, SimError>,
)
    requires
        call_ensures(StaticState::block_hash_ref, (&state, number), res),
    ensures
        state@.snapshot.stale ==> (res matches Err(error) && error is StaleState),
        !state@.snapshot.stale && state@.snapshot.block_hashes.contains_key(number) ==> {
            &&& res matches Ok(Read::Known(hash))
            &&& hash.hi == state@.snapshot.block_hashes[number].hi
            &&& hash.lo == state@.snapshot.block_hashes[number].lo
        },
        !state@.snapshot.stale && !state@.snapshot.block_hashes.contains_key(number) ==> {
            &&& res matches Ok(Read::Unknown(request))
            &&& request.number == number
            &&& request.at_block_hash == state@.snapshot.block_hash
        },
{
}

/// A reader is given the answer of the fetch manager as it is. Where none came
/// in time it is told so, with what it asked for and how long it waited, and
/// where none can come it is told that the fetch manager is gone.
pub proof fn waiting_ends_with_the_answer_or_the_reason<T>(
    outcome: FetchOutcome<T>,
    kind: FetchKind,
    timeout_ms: u64,
    res: Result<T, SimError>,
)
    requires
        call_ensures(await_fetch::<T>, (outcome, kind, timeout_ms), res),
    ensures
        match outcome {
            FetchOutcome::Answered(answer) => res == answer,
            FetchOutcome::TimedOut => res matches Err(SimError::FetchTimeout {
                kind: asked,
                elapsed_ms,
            }) && asked == kind && elapsed_ms == timeout_ms,
            FetchOutcome::NotSent => res matches Err(error) && error is FetcherClosed,
            FetchOutcome::Disconnected => res matches Err(error) && error is FetcherClosed,
        },
{
}

/// What is asked of a state is answered from its snapshot.
pub proof fn state_answers_from_its_snapshot(
    state: StaticState,
    block: u64,
    hash: B256,
    header: Option<SealedHeader>,
    withdrawals: Option<Withdrawals>,
    stale: bool,
    generation: u64,
    wait_ms: u64,
    snapshot: Arc<StateSnapshot>,
)
    requires
        call_ensures(StaticState::block, (&state,), block),
        call_ensures(StaticState::block_hash, (&state,), hash),
        call_ensures(StaticState::header, (&state,), header),
        call_ensures(StaticState::withdrawals, (&state,), withdrawals),
        call_ensures(StaticState::is_stale, (&state,), stale),
        call_ensures(StaticState::generation, (&state,), generation),
        call_ensures(StaticState::wait_timeout_ms, (&state,), wait_ms),
        call_ensures(StaticState::snapshot, (&state,), snapshot),
    ensures
        block == state@.snapshot.block,
        hash == state@.snapshot.block_hash,
        header.deep_view() == state@.snapshot.header,
        withdrawals.deep_view() == state@.snapshot.withdrawals,
        stale == state@.snapshot.stale,
        generation == state@.generation,
        wait_ms == state@.fetch.wait_timeout_ms,
        snapshot@ == state@.snapshot,
{
}

/// The receipts, transaction hashes and changed accounts that a state gives of a
/// block are those of the entry of its histories that is found for the block.
pub proof fn state_answers_from_its_histories(
    state: StaticState,
    block: u64,
    receipts: Option<Vec<Receipt>>,
    both: Option<(Vec<Receipt>, Vec<B256>)>,
    changed: Option<Vec<Address>>,
)
    requires
        call_ensures(StaticState::receipts, (&state, block), receipts),
        call_ensures(StaticState::receipts_and_tx_hashes, (&state, block), both),
        call_ensures(StaticState::changed_accounts, (&state, block), changed),
    ensures
        match state@.snapshot.receipts_at(block) {
            Some(entry) => {
                &&& receipts matches Some(given)
                &&& given.deep_view() == entry.receipts
                &&& both matches Some((first, second))
                &&& first.deep_view() == entry.receipts
                &&& second@ == entry.tx_hashes
            },
            None => receipts is None && both is None,
        },
        match state@.snapshot.changed_accounts_at(block) {
            Some(entry) => changed matches Some(given) && given@ == entry.accounts,
            None => changed is None,
        },
{
    if let Some((_, second)) = both {
        assert(second.deep_view() =~= second@);
    }
    if let Some(given) = changed {
        assert(given.deep_view() =~= given@);
    }
}

/// A state is made with the snapshot and the configuration it is given, at
/// generation zero, and a swap puts a new snapshot in and moves the generation
/// on by one.
pub proof fn state_holds_the_snapshot_it_was_given(
    initial: StateSnapshot,
    fetch: FetchConfig,
    made: StaticState,
    state: &mut StaticState,
    snapshot: StateSnapshot,
)
    requires
        call_ensures(StaticState::new, (initial, fetch), made),
        call_ensures(StaticState::swap, (state, snapshot), ()),
    ensures
        made@.snapshot == initial@,
        made@.generation == 0,
        made@.fetch == fetch,
        final(state)@.snapshot == snapshot@,
        final(state)@.generation == (old(state)@.generation + 1) % 0x1_0000_0000_0000_0000,
        final(state)@.fetch == old(state)@.fetch,
{
}

/// A guard that is taken and checked against a state tells what became of it.
pub proof fn guard_tells_what_became_of_the_state(
    earlier: StaticState,
    guard: StateGuard,
    now: StaticState,
    validity: StateValidity,
)
    requires
        call_ensures(StaticState::guard, (&earlier,), guard),
        call_ensures(StaticState::check_guard, (&now, &guard), validity),
    ensures
        guard.block_hash == earlier@.snapshot.block_hash,
        validity is WasStale <==> earlier@.snapshot.stale,
        validity is BecameStale <==> !earlier@.snapshot.stale && now@.snapshot.stale,
        validity is Valid <==> !earlier@.snapshot.stale && !now@.snapshot.stale
            && earlier@.generation == now@.generation,
        validity matches StateValidity::Changed { old_gen, new_gen } ==> old_gen
            == earlier@.generation && new_gen == now@.generation,
{
}

/// What is added to the histories of a snapshot is found again under its block,
/// unless an entry of that block was held, and a cut forgets the block and all
/// later ones and nothing else.
pub proof fn histories_give_back_what_was_added(
    state: &mut StateSnapshot,
    block: u64,
    receipts: Vec<Receipt>,
    tx_hashes: Vec<B256>,
)
    requires
        call_ensures(StateSnapshot::push_receipts, (state, block, receipts, tx_hashes), ()),
        old(state)@.receipts_at(block) is None,
    ensures
        final(state)@.receipts_at(block) matches Some(entry) && {
            &&& entry.block == block
            &&& entry.receipts == receipts.deep_view()
            &&& entry.tx_hashes == tx_hashes@
        },
{
    let history = old(state)@.receipts_history;
    let entry = BlockReceiptsView {
        block,
        receipts: receipts.deep_view(),
        tx_hashes: tx_hashes.deep_view(),
    };
    assert(tx_hashes.deep_view() =~= tx_hashes@);
    receipts_are_found_by_their_block(old(state)@, block);
    assert forall|i: int| 0 <= i < history.len() implies <BlockReceipts as PerBlock>::block_of(
        #[trigger] history[i],
    ) != <BlockReceipts as PerBlock>::block_of(entry) by {
        assert(history[i].block != block);
    }
    pushed_is_found::<BlockReceipts>(history, entry);
}

/// The changed accounts that are added are found again under their block, unless
/// an entry of that block was held.
pub proof fn changed_accounts_are_given_back(
    state: &mut StateSnapshot,
    block: u64,
    accounts: Vec<Address>,
)
    requires
        call_ensures(StateSnapshot::push_changed_accounts, (state, block, accounts), ()),
        old(state)@.changed_accounts_at(block) is None,
    ensures
        final(state)@.changed_accounts_at(block) matches Some(entry) && {
            &&& entry.block == block
            &&& entry.accounts == accounts@
        },
{
    let history = old(state)@.changed_accounts_history;
    let entry = BlockChangedAccountsView { block, accounts: accounts.deep_view() };
    assert(accounts.deep_view() =~= accounts@);
    changed_accounts_are_found_by_their_block(old(state)@, block);
    assert forall|i: int|
        0 <= i < history.len() implies <BlockChangedAccounts as PerBlock>::block_of(
        #[trigger] history[i],
    ) != <BlockChangedAccounts as PerBlock>::block_of(entry) by {
        assert(history[i].block != block);
    }
    pushed_is_found::<BlockChangedAccounts>(history, entry);
}

/// A cut leaves of each history exactly the entries before the given block, and
/// nothing else of the snapshot changes.
pub proof fn cuts_leave_what_is_before(
    state: &mut StateSnapshot,
    other: &mut StateSnapshot,
    from_block: u64,
)
    requires
        call_ensures(StateSnapshot::truncate_receipts, (state, from_block), ()),
        call_ensures(StateSnapshot::truncate_changed_accounts, (other, from_block), ()),
    ensures
        final(state)@.receipts_history == old(state)@.receipts_history.filter(
            |entry: BlockReceiptsView| entry.block < from_block,
        ),
        final(state)@ == (StateSnapshotView {
            receipts_history: final(state)@.receipts_history,
            ..old(state)@
        }),
        final(other)@.changed_accounts_history == old(other)@.changed_accounts_history.filter(
            |entry: BlockChangedAccountsView| entry.block < from_block,
        ),
        final(other)@ == (StateSnapshotView {
            changed_accounts_history: final(other)@.changed_accounts_history,
            ..old(other)@
        }),
{
    assert((|entry: BlockReceiptsView| <BlockReceipts as PerBlock>::block_of(entry) < from_block)
        =~= (|entry: BlockReceiptsView| entry.block < from_block));
    assert((|entry: BlockChangedAccountsView|
        <BlockChangedAccounts as PerBlock>::block_of(entry) < from_block) =~= (|
        entry: BlockChangedAccountsView,
    | entry.block < from_block));
}

/// What a snapshot gives of a block's receipts, transaction hashes and changed
/// accounts is what the entry of the block holds, all of it and in order.
pub proof fn snapshot_answers_from_its_histories(
    state: StateSnapshot,
    block: u64,
    receipts: Option<&[Receipt]>,
    both: Option<(&[Receipt], &[B256])>,
    changed: Option<&[Address]>,
)
    requires
        call_ensures(StateSnapshot::receipts, (&state, block), receipts),
        call_ensures(StateSnapshot::receipts_and_tx_hashes, (&state, block), both),
        call_ensures(StateSnapshot::changed_accounts, (&state, block), changed),
    ensures
        match state@.receipts_at(block) {
            Some(entry) => {
                &&& receipts matches Some(given)
                &&& given.deep_view() == entry.receipts
                &&& both matches Some((first, second))
                &&& first.deep_view() == entry.receipts
                &&& second@ == entry.tx_hashes
            },
            None => receipts is None && both is None,
        },
        match state@.changed_accounts_at(block) {
            Some(entry) => changed matches Some(given) && given@ == entry.accounts,
            None => changed is None,
        },
{
    if let Some((_, second)) = both {
        assert(second.deep_view() =~= second@);
    }
    if let Some(given) = changed {
        assert(given.deep_view() =~= given@);
    }
}

} // verus!
