//! Stretches of the chain as notifications bring them, and what a snapshot
//! takes from them.

use vstd::prelude::*;

use crate::account::{AccountInfo, AccountInfoView};
use crate::block::{
    Log, LogView, Receipt, ReceiptView, SealedHeader, SealedHeaderView, Withdrawal, Withdrawals,
};
use crate::code::Bytecode;
use crate::primitives::{Address, Duplicate, B256, U256};
use crate::table::Table;
use crate::transitions::{
    AccountChange, AccountChangeView, BlockData, BlockDataView, ChainTip, ExecutionChanges,
    ExecutionChangesView,
};
use crate::validation::BlockInfo;

verus! {

/// A block of a chain, with as much of its body as is taken over.
#[derive(Debug)]
pub struct ChainBlock {
    pub header: SealedHeader,
    pub withdrawals: Option<Withdrawals>,
    /// The hashes of its transactions, in their order.
    pub tx_hashes: Vec<B256>,
}

/// The model of a `ChainBlock`.
#[verifier::ext_equal]
pub struct ChainBlockView {
    pub header: SealedHeaderView,
    pub withdrawals: Option<Seq<Withdrawal>>,
    pub tx_hashes: Seq<B256>,
}

impl ChainBlockView {
    pub open spec fn number(self) -> u64 {
        self.header.header.number
    }

    pub open spec fn hash(self) -> B256 {
        self.header.hash
    }

    /// The block's place in its chain.
    pub open spec fn info(self) -> BlockInfo {
        BlockInfo {
            number: self.number(),
            hash: self.hash(),
            parent_hash: self.header.header.parent_hash,
        }
    }
}

impl DeepView for ChainBlock {
    type V = ChainBlockView;

    open spec fn deep_view(&self) -> ChainBlockView {
        ChainBlockView {
            header: self.header.deep_view(),
            withdrawals: self.withdrawals.deep_view(),
            tx_hashes: self.tx_hashes.deep_view(),
        }
    }
}

impl ChainBlock {
    pub fn number(&self) -> (number: u64)
        ensures
            number == self.deep_view().number(),
    {
        self.header.header.number
    }

    pub fn hash(&self) -> (hash: B256)
        ensures
            hash == self.deep_view().hash(),
    {
        self.header.hash
    }

    pub fn info(&self) -> (info: BlockInfo)
        ensures
            info == self.deep_view().info(),
    {
        BlockInfo {
            number: self.number(),
            hash: self.hash(),
            parent_hash: self.header.header.parent_hash,
        }
    }
}

/// A slot before and after a stretch of the chain.
#[derive(Clone, Copy, Debug, PartialEq, Eq, Structural)]
pub struct StorageSlot {
    pub previous_or_original_value: U256,
    pub present_value: U256,
}

impl DeepView for StorageSlot {
    type V = StorageSlot;

    open spec fn deep_view(&self) -> StorageSlot {
        *self
    }
}

/// What a stretch of the chain did to an account.
pub struct BundleAccount {
    pub info: Option<AccountInfo>,
    pub storage: Table<U256, StorageSlot>,
}

/// The model of a `BundleAccount`.
#[verifier::ext_equal]
pub struct BundleAccountView {
    pub info: Option<AccountInfoView>,
    pub storage: Map<U256, StorageSlot>,
}

impl DeepView for BundleAccount {
    type V = BundleAccountView;

    open spec fn deep_view(&self) -> BundleAccountView {
        BundleAccountView { info: self.info.deep_view(), storage: self.storage@ }
    }
}

/// What a stretch of the chain did to the state.
pub struct BundleState {
    pub state: Table<Address, BundleAccount>,
    pub contracts: Table<B256, Bytecode>,
}

/// The model of a `BundleState`.
#[verifier::ext_equal]
pub struct BundleStateView {
    pub state: Map<Address, BundleAccountView>,
    pub contracts: Map<B256, Seq<u8>>,
}

impl View for BundleState {
    type V = BundleStateView;

    open spec fn view(&self) -> BundleStateView {
        BundleStateView { state: self.state@, contracts: self.contracts@ }
    }
}

/// At least one block in the order of the chain, each block's receipts, and
/// what their execution did.
pub struct Chain {
    blocks: Vec<ChainBlock>,
    receipts: Vec<Vec<Receipt>>,
    bundle: BundleState,
}

/// The model of a `Chain`.
#[verifier::ext_equal]
pub struct ChainView {
    pub blocks: Seq<ChainBlockView>,
    pub receipts: Seq<Seq<ReceiptView>>,
    pub bundle: BundleStateView,
}

impl View for Chain {
    type V = ChainView;

    closed spec fn view(&self) -> ChainView {
        ChainView {
            blocks: self.blocks.deep_view(),
            receipts: self.receipts.deep_view(),
            bundle: self.bundle@,
        }
    }
}

impl ChainView {
    pub open spec fn first(self) -> ChainBlockView {
        self.blocks.first()
    }

    pub open spec fn last(self) -> ChainBlockView {
        self.blocks.last()
    }

    pub open spec fn tip(self) -> ChainTip {
        ChainTip { number: self.last().number(), hash: self.last().hash() }
    }

    /// How many blocks come with their receipts.
    pub open spec fn paired(self) -> nat {
        if self.blocks.len() <= self.receipts.len() {
            self.blocks.len()
        } else {
            self.receipts.len()
        }
    }

    /// The numbers and hashes of the blocks that come with their receipts.
    pub open spec fn numbered_hashes(self) -> Seq<(u64, B256)> {
        Seq::new(self.paired(), |i: int| (self.blocks[i].number(), self.blocks[i].hash()))
    }

    /// What a snapshot takes over from the blocks that come with their
    /// receipts.
    pub open spec fn block_data(self) -> Seq<BlockDataView> {
        Seq::new(
            self.paired(),
            |i: int|
                BlockDataView {
                    number: self.blocks[i].number(),
                    hash: self.blocks[i].hash(),
                    header: self.blocks[i].header,
                    withdrawals: self.blocks[i].withdrawals,
                    receipts: self.receipts[i],
                    tx_hashes: self.blocks[i].tx_hashes,
                },
        )
    }

    /// What execution did, as it concerns a snapshot: each account's info as
    /// it is now, and of each slot its present value.
    pub open spec fn execution_changes(self) -> ExecutionChangesView {
        ExecutionChangesView {
            accounts: self.bundle.state.map_values(
                |account: BundleAccountView| account_change(account),
            ),
            contracts: self.bundle.contracts,
        }
    }

    /// The logs of the blocks that come with their receipts, in the order in
    /// which they were emitted.
    pub open spec fn logs(self) -> Seq<LogView> {
        self.receipts.take(self.paired() as int).map_values(
            |receipts: Seq<ReceiptView>| logs_of(receipts),
        ).flatten()
    }

    /// The block before the first one; there is none before the genesis block.
    pub open spec fn ancestor(self) -> u64 {
        if self.first().number() == 0 {
            0
        } else {
            (self.first().number() - 1) as u64
        }
    }
}

/// What execution did to an account, as it concerns a snapshot.
pub open spec fn account_change(account: BundleAccountView) -> AccountChangeView {
    AccountChangeView {
        info: account.info,
        storage: account.storage.map_values(|slot: StorageSlot| slot.present_value),
    }
}

/// The logs of a block's receipts.
pub open spec fn logs_of(receipts: Seq<ReceiptView>) -> Seq<LogView> {
    receipts.map_values(|receipt: ReceiptView| receipt.logs).flatten()
}

/// What the node reports of its canonical chain.
pub enum Notification {
    /// Blocks were added.
    ChainCommitted { new: Chain },
    /// Blocks were replaced by others.
    ChainReorged { old: Chain, new: Chain },
    /// Blocks were taken back.
    ChainReverted { old: Chain },
}

/// The model of a `Notification`.
pub enum NotificationView {
    ChainCommitted { new: ChainView },
    ChainReorged { old: ChainView, new: ChainView },
    ChainReverted { old: ChainView },
}

impl View for Notification {
    type V = NotificationView;

    open spec fn view(&self) -> NotificationView {
        match self {
            Notification::ChainCommitted { new } => NotificationView::ChainCommitted { new: new@ },
            Notification::ChainReorged { old, new } => NotificationView::ChainReorged {
                old: old@,
                new: new@,
            },
            Notification::ChainReverted { old } => NotificationView::ChainReverted { old: old@ },
        }
    }
}

impl Chain {
    #[verifier::type_invariant]
    spec fn well_formed(self) -> bool {
        self.blocks@.len() > 0
    }

    /// The chain with these blocks, unless there are none.
    pub fn new(
        blocks: Vec<ChainBlock>,
        receipts: Vec<Vec<Receipt>>,
        bundle: BundleState,
    ) -> (chain: Option<Chain>)
        ensures
            chain is Some <==> blocks@.len() > 0,
            chain matches Some(made) ==> made@ == (ChainView {
                blocks: blocks.deep_view(),
                receipts: receipts.deep_view(),
                bundle: bundle@,
            }),
    {
        if blocks.len() == 0 {
            None
        } else {
            Some(Chain { blocks, receipts, bundle })
        }
    }

    pub fn first(&self) -> (block: &ChainBlock)
        ensures
            block.deep_view() == self@.first(),
            self@.blocks.len() > 0,
    {
        proof {
            use_type_invariant(self);
        }
        &self.blocks[0]
    }

    pub fn last(&self) -> (block: &ChainBlock)
        ensures
            block.deep_view() == self@.last(),
            self@.blocks.len() > 0,
    {
        proof {
            use_type_invariant(self);
        }
        &self.blocks[self.blocks.len() - 1]
    }

    pub fn tip(&self) -> (tip: ChainTip)
        ensures
            tip == self@.tip(),
    {
        let block = self.last();
        ChainTip { number: block.number(), hash: block.hash() }
    }

    /// How many blocks the chain has.
    pub fn len(&self) -> (len: usize)
        ensures
            len == self@.blocks.len(),
            len > 0,
    {
        proof {
            use_type_invariant(self);
        }
        self.blocks.len()
    }

    /// The block before the first one; there is none before the genesis block.
    pub fn ancestor(&self) -> (number: u64)
        ensures
            number == self@.ancestor(),
    {
        self.first().number().saturating_sub(1)
    }

    fn paired(&self) -> (len: usize)
        ensures
            len == self@.paired(),
            len <= self.blocks@.len(),
            len <= self.receipts@.len(),
    {
        if self.blocks.len() <= self.receipts.len() {
            self.blocks.len()
        } else {
            self.receipts.len()
        }
    }

    /// The numbers and hashes of the blocks that come with their receipts.
    pub fn numbered_hashes(&self) -> (res: Vec<(u64, B256)>)
        ensures
            res@ == self@.numbered_hashes(),
    {
        let len: usize = self.paired();
        let mut res: Vec<(u64, B256)> = Vec::with_capacity(len);
        let mut i: usize = 0;
        while i < len
            invariant
                i <= len,
                len == self@.paired(),
                len <= self.blocks@.len(),
                res@ == self@.numbered_hashes().take(i as int),
            decreases len - i,
        {
            let block = &self.blocks[i];
            res.push((block.number(), block.hash()));
            assert(res@ =~= self@.numbered_hashes().take(i + 1));
            i += 1;
        }
        assert(res@ =~= self@.numbered_hashes());
        res
    }
}

/// Of each slot its present value.
fn present_values(storage: &Table<U256, StorageSlot>) -> (res: Table<U256, U256>)
    ensures
        res@ == storage@.map_values(|slot: StorageSlot| slot.present_value),
{
    let ghost target = storage@.map_values(|slot: StorageSlot| slot.present_value);
    let ghost keys = storage.keys();
    let len: usize = storage.len();
    let mut res: Table<U256, U256> = Table::new();
    let mut i: usize = 0;
    assert(res@ =~= target.restrict(keys.take(0).to_set()));
    while i < len
        invariant
            i <= len,
            len == keys.len(),
            len == storage@.len(),
            keys == storage.keys(),
            target == storage@.map_values(|slot: StorageSlot| slot.present_value),
            res@ == target.restrict(keys.take(i as int).to_set()),
        decreases len - i,
    {
        let entry = storage.entry_at(i);
        res.insert(entry.0, entry.1.present_value);
        proof {
            assert(keys.take(i + 1) =~= keys.take(i as int).push(entry.0));
            keys.take(i as int).lemma_push_to_set_commute(entry.0);
            assert(res@ =~= target.restrict(keys.take(i + 1).to_set()));
        }
        i += 1;
    }
    assert(keys.take(len as int) =~= keys);
    assert(res@ =~= target);
    res
}

/// What execution did, as it concerns a snapshot.
pub fn extract_execution_changes(chain: &Chain) -> (changes: ExecutionChanges)
    ensures
        changes@ == chain@.execution_changes(),
{
    let ghost target = chain@.execution_changes();
    let state = &chain.bundle.state;
    let ghost keys = state.keys();
    let len: usize = state.len();
    let mut accounts: Table<Address, AccountChange> = Table::new();
    let mut i: usize = 0;
    assert(accounts@ =~= target.accounts.restrict(keys.take(0).to_set()));
    while i < len
        invariant
            i <= len,
            len == keys.len(),
            len == state@.len(),
            keys == state.keys(),
            target.accounts == state@.map_values(
                |account: BundleAccountView| account_change(account),
            ),
            accounts@ == target.accounts.restrict(keys.take(i as int).to_set()),
        decreases len - i,
    {
        let entry = state.entry_at(i);
        let change = AccountChange {
            info: entry.1.info.duplicate(),
            storage: present_values(&entry.1.storage),
        };
        accounts.insert(entry.0, change);
        proof {
            assert(keys.take(i + 1) =~= keys.take(i as int).push(entry.0));
            keys.take(i as int).lemma_push_to_set_commute(entry.0);
            assert(change.deep_view() == account_change(entry.1.deep_view()));
            assert(accounts@ =~= target.accounts.restrict(keys.take(i + 1).to_set()));
        }
        i += 1;
    }
    assert(keys.take(len as int) =~= keys);
    assert(accounts@ =~= target.accounts);
    let held = &chain.bundle.contracts;
    let ghost hashes = held.keys();
    let count: usize = held.len();
    let mut contracts: Table<B256, Bytecode> = Table::new();
    let mut j: usize = 0;
    assert(contracts@ =~= held@.restrict(hashes.take(0).to_set()));
    while j < count
        invariant
            j <= count,
            count == hashes.len(),
            count == held@.len(),
            hashes == held.keys(),
            contracts@ == held@.restrict(hashes.take(j as int).to_set()),
        decreases count - j,
    {
        let entry = held.entry_at(j);
        contracts.insert(entry.0, Bytecode::new_raw(entry.1.original_bytes()));
        proof {
            assert(hashes.take(j + 1) =~= hashes.take(j as int).push(entry.0));
            hashes.take(j as int).lemma_push_to_set_commute(entry.0);
            assert(contracts@ =~= held@.restrict(hashes.take(j + 1).to_set()));
        }
        j += 1;
    }
    assert(hashes.take(count as int) =~= hashes);
    assert(contracts@ =~= target.contracts);
    ExecutionChanges { accounts, contracts }
}

/// What a snapshot takes over from the blocks.
pub fn extract_block_data(chain: &Chain) -> (blocks: Vec<BlockData>)
    ensures
        blocks.deep_view() == chain@.block_data(),
{
    let len: usize = chain.paired();
    let mut blocks: Vec<BlockData> = Vec::with_capacity(len);
    let mut i: usize = 0;
    while i < len
        invariant
            i <= len,
            len == chain@.paired(),
            len <= chain.blocks@.len(),
            len <= chain.receipts@.len(),
            blocks@.len() == i,
            forall|j: int|
                0 <= j < i ==> (#[trigger] blocks@[j]).deep_view() == chain@.block_data()[j],
        decreases len - i,
    {
        let block = &chain.blocks[i];
        let data = BlockData {
            number: block.number(),
            hash: block.hash(),
            header: block.header.duplicate(),
            withdrawals: block.withdrawals.duplicate(),
            receipts: chain.receipts[i].duplicate(),
            tx_hashes: block.tx_hashes.duplicate(),
        };
        assert(data.deep_view() == chain@.block_data()[i as int]);
        blocks.push(data);
        i += 1;
    }
    assert(blocks.deep_view() =~= chain@.block_data());
    blocks
}

/// Adds the logs of a block's receipts.
fn append_logs(logs: &mut Vec<Log>, receipts: &Vec<Receipt>)
    ensures
        final(logs).deep_view() == old(logs).deep_view() + logs_of(receipts.deep_view()),
{
    let ghost start = logs.deep_view();
    let ghost model = receipts.deep_view();
    let ghost per_receipt = model.map_values(|receipt: ReceiptView| receipt.logs);
    let mut i: usize = 0;
    assert(per_receipt.take(0).flatten() =~= Seq::<LogView>::empty());
    assert(logs.deep_view() =~= start + per_receipt.take(0).flatten());
    while i < receipts.len()
        invariant
            i <= receipts@.len(),
            model == receipts.deep_view(),
            per_receipt == model.map_values(|receipt: ReceiptView| receipt.logs),
            logs.deep_view() == start + per_receipt.take(i as int).flatten(),
        decreases receipts.len() - i,
    {
        let emitted = &receipts[i].logs;
        let ghost so_far = logs.deep_view();
        let mut j: usize = 0;
        assert(so_far + emitted.deep_view().take(0) =~= so_far);
        while j < emitted.len()
            invariant
                j <= emitted@.len(),
                logs.deep_view() == so_far + emitted.deep_view().take(j as int),
            decreases emitted.len() - j,
        {
            let ghost shorter = logs.deep_view();
            let log = emitted[j].duplicate();
            logs.push(log);
            assert(logs.deep_view() =~= shorter.push(log.deep_view()));
            assert(logs.deep_view() =~= so_far + emitted.deep_view().take(j + 1));
            j += 1;
        }
        proof {
            assert(emitted.deep_view().take(j as int) =~= emitted.deep_view());
            assert(per_receipt[i as int] == emitted.deep_view());
            assert(per_receipt.take(i + 1) =~= per_receipt.take(i as int).push(
                emitted.deep_view(),
            ));
            per_receipt.take(i as int).lemma_flatten_push(emitted.deep_view());
            assert(logs.deep_view() =~= start + per_receipt.take(i + 1).flatten());
        }
        i += 1;
    }
    assert(per_receipt.take(i as int) =~= per_receipt);
}

/// The logs of the blocks, in the order in which they were emitted.
pub fn extract_logs(chain: &Chain) -> (logs: Vec<Log>)
    ensures
        logs.deep_view() == chain@.logs(),
{
    let mut logs: Vec<Log> = Vec::new();
    let ghost per_block = chain@.receipts.take(chain@.paired() as int).map_values(
        |receipts: Seq<ReceiptView>| logs_of(receipts),
    );
    let len: usize = chain.paired();
    let mut i: usize = 0;
    assert(per_block.take(0).flatten() =~= Seq::<LogView>::empty());
    assert(logs.deep_view() =~= per_block.take(0).flatten());
    while i < len
        invariant
            i <= len,
            len == chain@.paired(),
            len <= chain.receipts@.len(),
            per_block == chain@.receipts.take(chain@.paired() as int).map_values(
                |receipts: Seq<ReceiptView>| logs_of(receipts),
            ),
            logs.deep_view() == per_block.take(i as int).flatten(),
        decreases len - i,
    {
        append_logs(&mut logs, &chain.receipts[i]);
        proof {
            let emitted = logs_of(chain.receipts@[i as int].deep_view());
            assert(per_block[i as int] == emitted);
            assert(per_block.take(i + 1) =~= per_block.take(i as int).push(emitted));
            per_block.take(i as int).lemma_flatten_push(emitted);
        }
        i += 1;
    }
    assert(per_block.take(len as int) =~= per_block);
    logs
}

/// The model of a block of a chain says all there is to it.
pub proof fn chain_block_model_is_complete(block: ChainBlock)
    ensures
        block.deep_view().header == block.header.deep_view(),
        block.deep_view().withdrawals == (match block.withdrawals {
            Some(withdrawals) => Some(withdrawals@),
            None => None,
        }),
        block.deep_view().tx_hashes == block.tx_hashes@,
{
    assert(block.deep_view().tx_hashes =~= block.tx_hashes@);
    if let Some(withdrawals) = block.withdrawals {
        assert(withdrawals.deep_view() =~= withdrawals@);
    }
}

/// The models of what a stretch of the chain did say all there is to it.
pub proof fn bundle_models_are_complete(
    bundle: BundleState,
    account: BundleAccount,
    slot: StorageSlot,
)
    ensures
        bundle@.state == bundle.state@,
        bundle@.contracts == bundle.contracts@,
        account.deep_view().info == (match account.info {
            Some(info) => Some(info.deep_view()),
            None => None,
        }),
        account.deep_view().storage == account.storage@,
        slot.deep_view() == slot,
{
}

/// A notification is modelled as what it is, with its chains in their places.
pub proof fn notification_model_is_complete(notification: Notification)
    ensures
        match notification {
            Notification::ChainCommitted { new } => notification@ == (
            NotificationView::ChainCommitted { new: new@ }),
            Notification::ChainReorged { old: replaced, new } => notification@ == (
            NotificationView::ChainReorged { old: replaced@, new: new@ }),
            Notification::ChainReverted { old: taken_back } => notification@ == (
            NotificationView::ChainReverted { old: taken_back@ }),
        },
{
}

/// A block's number, hash and parent are those of its header.
pub proof fn block_is_placed_by_its_header(block: ChainBlockView)
    ensures
        block.number() == block.header.header.number,
        block.hash() == block.header.hash,
        block.info().number == block.header.header.number,
        block.info().hash == block.header.hash,
        block.info().parent_hash == block.header.header.parent_hash,
{
}

/// A chain starts with its first block, and its tip is its last one. The common
/// ancestor is the block right before the first, and the genesis block itself
/// where there is none.
pub proof fn chain_ends_are_its_outer_blocks(chain: ChainView)
    requires
        chain.blocks.len() > 0,
    ensures
        chain.first() == chain.blocks[0],
        chain.last() == chain.blocks[chain.blocks.len() - 1],
        chain.tip().number == chain.blocks[chain.blocks.len() - 1].header.header.number,
        chain.tip().hash == chain.blocks[chain.blocks.len() - 1].header.hash,
        chain.blocks[0].header.header.number == 0 ==> chain.ancestor() == 0,
        chain.blocks[0].header.header.number > 0 ==> chain.ancestor() + 1
            == chain.blocks[0].header.header.number,
{
}

/// The blocks that come with their receipts are as many as there are both
/// blocks and lists of receipts, from the first on; each is listed by its own
/// number and hash.
pub proof fn paired_blocks_are_listed_in_order(chain: ChainView)
    ensures
        chain.paired() <= chain.blocks.len(),
        chain.paired() <= chain.receipts.len(),
        chain.paired() == chain.blocks.len() || chain.paired() == chain.receipts.len(),
        chain.numbered_hashes().len() == chain.paired(),
        forall|i: int|
            0 <= i < chain.blocks.len() && i < chain.receipts.len() ==> {
                &&& (#[trigger] chain.numbered_hashes()[i]).0
                    == chain.blocks[i].header.header.number
                &&& chain.numbered_hashes()[i].1 == chain.blocks[i].header.hash
            },
{
}

/// What a snapshot takes over from the blocks of a chain is what each block and
/// its receipts hold: every block that comes with receipts, in order, and every
/// part of it as it is.
pub proof fn block_data_is_that_of_the_blocks(chain: ChainView)
    ensures
        chain.block_data().len() <= chain.blocks.len(),
        chain.block_data().len() <= chain.receipts.len(),
        chain.block_data().len() == chain.blocks.len() || chain.block_data().len()
            == chain.receipts.len(),
        forall|i: int|
            0 <= i < chain.blocks.len() && i < chain.receipts.len() ==> {
                let data = #[trigger] chain.block_data()[i];
                &&& data.number == chain.blocks[i].header.header.number
                &&& data.hash == chain.blocks[i].header.hash
                &&& data.header == chain.blocks[i].header
                &&& data.withdrawals == chain.blocks[i].withdrawals
                &&& data.receipts == chain.receipts[i]
                &&& data.tx_hashes == chain.blocks[i].tx_hashes
            },
{
}

/// What execution did to the state is what the bundle says: the same accounts,
/// each with its info as it is and with every slot's present value, and the
/// same code.
pub proof fn execution_changes_are_those_of_the_bundle(chain: ChainView)
    ensures
        chain.execution_changes().contracts == chain.bundle.contracts,
        chain.execution_changes().accounts.dom() == chain.bundle.state.dom(),
        forall|address: Address| #[trigger]
            chain.bundle.state.contains_key(address) ==> {
                let change = chain.execution_changes().accounts[address];
                &&& change.info == chain.bundle.state[address].info
                &&& change.storage.dom() == chain.bundle.state[address].storage.dom()
            },
        forall|address: Address, slot: U256|
            chain.bundle.state.contains_key(address)
                && #[trigger] chain.bundle.state[address].storage.contains_key(slot)
                ==> chain.execution_changes().accounts[address].storage[slot]
                == chain.bundle.state[address].storage[slot].present_value,
{
    assert(chain.execution_changes().accounts.dom() =~= chain.bundle.state.dom());
    assert forall|address: Address| #[trigger] chain.bundle.state.contains_key(address) implies {
        let change = chain.execution_changes().accounts[address];
        &&& change.info == chain.bundle.state[address].info
        &&& change.storage.dom() == chain.bundle.state[address].storage.dom()
    } by {
        assert(chain.execution_changes().accounts[address].storage.dom()
            =~= chain.bundle.state[address].storage.dom());
    }
}

proof fn lemma_logs_receipt_by_receipt(receipts: Seq<Seq<ReceiptView>>)
    ensures
        receipts.map_values(|of_block: Seq<ReceiptView>| logs_of(of_block)).flatten()
            == receipts.flatten().map_values(|receipt: ReceiptView| receipt.logs).flatten(),
    decreases receipts.len(),
{
    let emitted = |receipt: ReceiptView| receipt.logs;
    let per_block = receipts.map_values(|of_block: Seq<ReceiptView>| logs_of(of_block));
    if receipts.len() == 0 {
        assert(per_block =~= Seq::<Seq<LogView>>::empty());
        assert(receipts.flatten().map_values(emitted) =~= Seq::<Seq<LogView>>::empty());
    } else {
        let rest = receipts.drop_first();
        lemma_logs_receipt_by_receipt(rest);
        assert(per_block.drop_first() =~= rest.map_values(
            |of_block: Seq<ReceiptView>| logs_of(of_block),
        ));
        assert(receipts.flatten().map_values(emitted) =~= receipts.first().map_values(emitted)
            + rest.flatten().map_values(emitted));
        vstd::seq_lib::lemma_flatten_concat(
            receipts.first().map_values(emitted),
            rest.flatten().map_values(emitted),
        );
    }
}

/// The logs of a chain are the logs of every receipt of every block that comes
/// with its receipts, one after another: block by block, within a block receipt
/// by receipt, within a receipt as they were emitted.
pub proof fn logs_are_those_of_all_receipts(chain: ChainView)
    ensures
        ({
            let count = if chain.blocks.len() <= chain.receipts.len() {
                chain.blocks.len() as int
            } else {
                chain.receipts.len() as int
            };
            chain.logs() == chain.receipts.take(count).flatten().map_values(
                |receipt: ReceiptView| receipt.logs,
            ).flatten()
        }),
{
    lemma_logs_receipt_by_receipt(chain.receipts.take(chain.paired() as int));
}

proof fn lemma_flatten_keeps<A>(parts: Seq<Seq<A>>, i: int, j: int)
    requires
        0 <= i < parts.len(),
        0 <= j < parts[i].len(),
    ensures
        parts.flatten().contains(parts[i][j]),
    decreases parts.len(),
{
    if i == 0 {
        assert(parts.flatten()[j] == parts[i][j]);
    } else {
        let rest = parts.drop_first();
        lemma_flatten_keeps(rest, i - 1, j);
        let k = choose|k: int| 0 <= k < rest.flatten().len() && rest.flatten()[k] == parts[i][j];
        assert(parts.flatten()[parts.first().len() + k] == parts[i][j]);
    }
}

/// No log of a block that comes with its receipts is missed.
pub proof fn no_log_is_missed(chain: ChainView, block: int, receipt: int, log: int)
    requires
        0 <= block < chain.blocks.len(),
        block < chain.receipts.len(),
        0 <= receipt < chain.receipts[block].len(),
        0 <= log < chain.receipts[block][receipt].logs.len(),
    ensures
        chain.logs().contains(chain.receipts[block][receipt].logs[log]),
{
    let per_block = chain.receipts.take(chain.paired() as int).map_values(
        |receipts: Seq<ReceiptView>| logs_of(receipts),
    );
    let per_receipt = chain.receipts[block].map_values(|receipt: ReceiptView| receipt.logs);
    lemma_flatten_keeps(per_receipt, receipt, log);
    assert(per_block[block] == per_receipt.flatten());
    let k = choose|k: int|
        0 <= k < per_block[block].len() && per_block[block][k]
            == chain.receipts[block][receipt].logs[log];
    lemma_flatten_keeps(per_block, block, k);
}

/// What is asked of a chain is answered from its blocks.
pub proof fn chain_answers_from_its_blocks(
    chain: Chain,
    first: &ChainBlock,
    last: &ChainBlock,
    tip: ChainTip,
    len: usize,
    ancestor: u64,
    listed: Vec<(u64, B256)>,
)
    requires
        call_ensures(Chain::first, (&chain,), first),
        call_ensures(Chain::last, (&chain,), last),
        call_ensures(Chain::tip, (&chain,), tip),
        call_ensures(Chain::len, (&chain,), len),
        call_ensures(Chain::ancestor, (&chain,), ancestor),
        call_ensures(Chain::numbered_hashes, (&chain,), listed),
    ensures
        len == chain@.blocks.len(),
        len > 0,
        first.deep_view() == chain@.blocks[0],
        last.deep_view() == chain@.blocks[len - 1],
        tip.number == chain@.blocks[len - 1].header.header.number,
        tip.hash == chain@.blocks[len - 1].header.hash,
        chain@.blocks[0].header.header.number > 0 ==> ancestor + 1
            == chain@.blocks[0].header.header.number,
        chain@.blocks[0].header.header.number == 0 ==> ancestor == 0,
        listed@.len() <= len,
        listed@.len() <= chain@.receipts.len(),
        listed@.len() == len || listed@.len() == chain@.receipts.len(),
        forall|i: int|
            0 <= i < listed@.len() ==> (#[trigger] listed@[i]).0
                == chain@.blocks[i].header.header.number && listed@[i].1
                == chain@.blocks[i].header.hash,
{
    paired_blocks_are_listed_in_order(chain@);
}

/// What a snapshot takes from a chain is what the chain holds: of each block
/// that comes with its receipts every part, of the bundle every account with its
/// info and the present values of its slots, all code, and all logs.
pub proof fn extraction_loses_nothing(
    chain: Chain,
    blocks: Vec<BlockData>,
    changes: ExecutionChanges,
    logs: Vec<Log>,
    i: int,
    address: Address,
    slot: U256,
)
    requires
        call_ensures(extract_block_data, (&chain,), blocks),
        call_ensures(extract_execution_changes, (&chain,), changes),
        call_ensures(extract_logs, (&chain,), logs),
    ensures
        blocks@.len() == chain@.blocks.len() || blocks@.len() == chain@.receipts.len(),
        blocks@.len() <= chain@.blocks.len() && blocks@.len() <= chain@.receipts.len(),
        0 <= i < blocks@.len() ==> {
            let data = blocks@[i].deep_view();
            &&& data.number == chain@.blocks[i].header.header.number
            &&& data.hash == chain@.blocks[i].header.hash
            &&& data.header == chain@.blocks[i].header
            &&& data.withdrawals == chain@.blocks[i].withdrawals
            &&& data.receipts == chain@.receipts[i]
            &&& data.tx_hashes == chain@.blocks[i].tx_hashes
        },
        changes@.accounts.contains_key(address) == chain@.bundle.state.contains_key(address),
        chain@.bundle.state.contains_key(address) ==> {
            let change = changes@.accounts[address];
            let account = chain@.bundle.state[address];
            &&& change.info == account.info
            &&& change.storage.contains_key(slot) == account.storage.contains_key(slot)
            &&& account.storage.contains_key(slot) ==> change.storage[slot]
                == account.storage[slot].present_value
        },
        changes@.contracts == chain@.bundle.contracts,
        logs.deep_view() == chain@.receipts.take(blocks@.len() as int).flatten().map_values(
            |receipt: ReceiptView| receipt.logs,
        ).flatten(),
{
    assert(blocks.deep_view().len() == blocks@.len());
    block_data_is_that_of_the_blocks(chain@);
    execution_changes_are_those_of_the_bundle(chain@);
    logs_are_those_of_all_receipts(chain@);
    if 0 <= i < blocks@.len() {
        assert(blocks.deep_view()[i] == blocks@[i].deep_view());
        let _ = chain@.block_data()[i];
    }
    if chain@.bundle.state.contains_key(address) {
        let account = chain@.bundle.state[address];
        let change = changes@.accounts[address];
        assert(change.storage.dom().contains(slot) == account.storage.dom().contains(slot));
    }
}

/// A chain is made of the blocks, receipts and bundle that it is given, unless
/// there is no block.
pub proof fn chain_is_what_it_was_made_of(
    blocks: Vec<ChainBlock>,
    receipts: Vec<Vec<Receipt>>,
    bundle: BundleState,
    made: Option<Chain>,
)
    requires
        call_ensures(Chain::new, (blocks, receipts, bundle), made),
    ensures
        made is None <==> blocks@.len() == 0,
        made matches Some(chain) ==> {
            &&& chain@.blocks == blocks.deep_view()
            &&& chain@.receipts == receipts.deep_view()
            &&& chain@.bundle == bundle@
        },
{
}

} // verus!
