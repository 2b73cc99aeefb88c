//! The four kinds of fetches.

use vstd::prelude::*;

use crate::account::{AccountInfo, AccountInfoView};
use crate::code::Bytecode;
use crate::fetch::{
    AccountCache, AccountRequest, BlockHashCache, BlockHashRequest, CodeCache, CodeRegistration,
    CodeRequest, FetchConfig, StorageCache, StorageRequest, TaggedCacheView,
};
use crate::manager_core::{FetchManager, FetchSpec, RpcCall};
use crate::primitives::{Address, Duplicate, B256, U256};
use crate::table::Table;

verus! {

pub type AccountFetchManager = FetchManager<AccountSpec>;

pub type CodeFetchManager = FetchManager<CodeSpec>;

pub type StorageFetchManager = FetchManager<StorageSpec>;

pub type BlockHashFetchManager = FetchManager<BlockHashSpec>;

/// What a manager that needs to know nothing else works with.
pub struct NoContext;

impl View for NoContext {
    type V = ();

    open spec fn view(&self) {
        ()
    }
}

/// Fetches of accounts. That there is no account is not remembered.
pub struct AccountSpec;

impl FetchSpec for AccountSpec {
    type Req = AccountRequest;

    type Key = Address;

    type Val = AccountInfo;

    type Resp = Option<AccountInfo>;

    type Cache = AccountCache;

    type Ctx = NoContext;

    type Side = ();

    open spec fn guarded() -> bool {
        true
    }

    fn epoch_guarded() -> (res: bool) {
        true
    }

    open spec fn permits_of(fetch: FetchConfig) -> usize {
        fetch.account
    }

    fn permits(fetch: &FetchConfig) -> (permits: usize) {
        fetch.account
    }

    open spec fn tag_of(req: AccountRequest) -> Option<B256> {
        Some(req.block_hash)
    }

    fn tag(req: &AccountRequest) -> (tag: Option<B256>) {
        Some(req.block_hash)
    }

    open spec fn key_of(req: AccountRequest) -> Address {
        req.address
    }

    fn key(req: &AccountRequest) -> (key: Address) {
        req.address
    }

    open spec fn hit_of(value: AccountInfoView) -> Option<AccountInfoView> {
        Some(value)
    }

    fn hit(value: &AccountInfo) -> (resp: Option<AccountInfo>) {
        Some(value.duplicate())
    }

    open spec fn stored_of(resp: Option<AccountInfoView>) -> Option<AccountInfoView> {
        resp
    }

    fn store(resp: &Option<AccountInfo>) -> (value: Option<AccountInfo>) {
        resp.duplicate()
    }

    proof fn remembered_answer_is_the_answer(resp: Option<AccountInfoView>) {
    }

    open spec fn registration_of(key: Address, resp: Option<AccountInfoView>) -> Option<
        CodeRegistration,
    > {
        match resp {
            Some(info) => Some(CodeRegistration { code_hash: info.code_hash, address: key }),
            None => None,
        }
    }

    fn on_success(key: &Address, resp: &Option<AccountInfo>) -> (registration: Option<
        CodeRegistration,
    >) {
        match resp {
            Some(info) => Some(CodeRegistration { code_hash: info.code_hash, address: *key }),
            None => None,
        }
    }

    open spec fn ctx_after(ctx: (), msg: ()) {
        ctx
    }

    fn on_side(ctx: &mut NoContext, msg: ()) {
    }

    open spec fn is_cache(
        cache: AccountCache,
        tag: B256,
        data: Map<Address, AccountInfoView>,
    ) -> bool {
        cache@ == (TaggedCacheView { block_hash: tag, data })
    }

    fn into_cache(tag: B256, data: Table<Address, AccountInfo>) -> (cache: AccountCache) {
        AccountCache { block_hash: tag, data }
    }

    open spec fn call_of(ctx: (), req: AccountRequest) -> RpcCall {
        RpcCall::Account { address: req.address, block: req.block }
    }

    fn fetch(ctx: &NoContext, req: &AccountRequest) -> (call: RpcCall) {
        RpcCall::Account { address: req.address, block: req.block }
    }
}

/// Addresses at which code with a hash has been seen.
pub struct CodeHints {
    hash_to_address: Table<B256, Address>,
}

impl View for CodeHints {
    type V = Map<B256, Address>;

    closed spec fn view(&self) -> Map<B256, Address> {
        self.hash_to_address@
    }
}

impl Default for CodeHints {
    fn default() -> (hints: CodeHints)
        ensures
            hints@ == Map::<B256, Address>::empty(),
    {
        CodeHints { hash_to_address: Table::new() }
    }
}

/// Fetches of code. Code is known by its hash, so what is remembered holds at
/// every block.
pub struct CodeSpec;

impl FetchSpec for CodeSpec {
    type Req = CodeRequest;

    type Key = B256;

    type Val = Bytecode;

    type Resp = Bytecode;

    type Cache = CodeCache;

    type Ctx = CodeHints;

    type Side = CodeRegistration;

    open spec fn guarded() -> bool {
        false
    }

    fn epoch_guarded() -> (res: bool) {
        false
    }

    open spec fn permits_of(fetch: FetchConfig) -> usize {
        fetch.code
    }

    fn permits(fetch: &FetchConfig) -> (permits: usize) {
        fetch.code
    }

    open spec fn tag_of(req: CodeRequest) -> Option<B256> {
        None
    }

    fn tag(req: &CodeRequest) -> (tag: Option<B256>) {
        None
    }

    open spec fn key_of(req: CodeRequest) -> B256 {
        req.code_hash
    }

    fn key(req: &CodeRequest) -> (key: B256) {
        req.code_hash
    }

    open spec fn hit_of(value: Seq<u8>) -> Seq<u8> {
        value
    }

    fn hit(value: &Bytecode) -> (resp: Bytecode) {
        value.duplicate()
    }

    open spec fn stored_of(resp: Seq<u8>) -> Option<Seq<u8>> {
        Some(resp)
    }

    fn store(resp: &Bytecode) -> (value: Option<Bytecode>) {
        Some(resp.duplicate())
    }

    proof fn remembered_answer_is_the_answer(resp: Seq<u8>) {
    }

    open spec fn registration_of(key: B256, resp: Seq<u8>) -> Option<CodeRegistration> {
        None
    }

    fn on_success(key: &B256, resp: &Bytecode) -> (registration: Option<CodeRegistration>) {
        None
    }

    open spec fn ctx_after(ctx: Map<B256, Address>, msg: CodeRegistration) -> Map<B256, Address> {
        ctx.insert(msg.code_hash, msg.address)
    }

    fn on_side(ctx: &mut CodeHints, msg: CodeRegistration) {
        ctx.hash_to_address.insert(msg.code_hash, msg.address);
    }

    open spec fn is_cache(cache: CodeCache, tag: B256, data: Map<B256, Seq<u8>>) -> bool {
        cache.data@ == data
    }

    fn into_cache(tag: B256, data: Table<B256, Bytecode>) -> (cache: CodeCache) {
        CodeCache { data }
    }

    /// The caller's own hint comes before what has been reported.
    open spec fn call_of(ctx: Map<B256, Address>, req: CodeRequest) -> RpcCall {
        RpcCall::Code {
            code_hash: req.code_hash,
            address_hint: match req.address_hint {
                Some(address) => Some(address),
                None => if ctx.contains_key(req.code_hash) {
                    Some(ctx[req.code_hash])
                } else {
                    None
                },
            },
            block: req.block,
        }
    }

    fn fetch(ctx: &CodeHints, req: &CodeRequest) -> (call: RpcCall) {
        let address_hint = match req.address_hint {
            Some(address) => Some(address),
            None => match ctx.hash_to_address.get(&req.code_hash) {
                Some(address) => Some(*address),
                None => None,
            },
        };
        RpcCall::Code { code_hash: req.code_hash, address_hint, block: req.block }
    }
}

/// Fetches of storage slots.
pub struct StorageSpec;

impl FetchSpec for StorageSpec {
    type Req = StorageRequest;

    type Key = (Address, U256);

    type Val = U256;

    type Resp = U256;

    type Cache = StorageCache;

    type Ctx = NoContext;

    type Side = ();

    open spec fn guarded() -> bool {
        true
    }

    fn epoch_guarded() -> (res: bool) {
        true
    }

    open spec fn permits_of(fetch: FetchConfig) -> usize {
        fetch.storage
    }

    fn permits(fetch: &FetchConfig) -> (permits: usize) {
        fetch.storage
    }

    open spec fn tag_of(req: StorageRequest) -> Option<B256> {
        Some(req.block_hash)
    }

    fn tag(req: &StorageRequest) -> (tag: Option<B256>) {
        Some(req.block_hash)
    }

    open spec fn key_of(req: StorageRequest) -> (Address, U256) {
        (req.address, req.index)
    }

    fn key(req: &StorageRequest) -> (key: (Address, U256)) {
        (req.address, req.index)
    }

    open spec fn hit_of(value: U256) -> U256 {
        value
    }

    fn hit(value: &U256) -> (resp: U256) {
        *value
    }

    open spec fn stored_of(resp: U256) -> Option<U256> {
        Some(resp)
    }

    fn store(resp: &U256) -> (value: Option<U256>) {
        Some(*resp)
    }

    proof fn remembered_answer_is_the_answer(resp: U256) {
    }

    open spec fn registration_of(key: (Address, U256), resp: U256) -> Option<CodeRegistration> {
        None
    }

    fn on_success(key: &(Address, U256), resp: &U256) -> (registration: Option<
        CodeRegistration,
    >) {
        None
    }

    open spec fn ctx_after(ctx: (), msg: ()) {
        ctx
    }

    fn on_side(ctx: &mut NoContext, msg: ()) {
    }

    open spec fn is_cache(
        cache: StorageCache,
        tag: B256,
        data: Map<(Address, U256), U256>,
    ) -> bool {
        cache@ == (TaggedCacheView { block_hash: tag, data })
    }

    fn into_cache(tag: B256, data: Table<(Address, U256), U256>) -> (cache: StorageCache) {
        StorageCache { block_hash: tag, data }
    }

    open spec fn call_of(ctx: (), req: StorageRequest) -> RpcCall {
        RpcCall::Storage { address: req.address, index: req.index, block: req.block }
    }

    fn fetch(ctx: &NoContext, req: &StorageRequest) -> (call: RpcCall) {
        RpcCall::Storage { address: req.address, index: req.index, block: req.block }
    }
}

/// Fetches of block hashes.
pub struct BlockHashSpec;

impl FetchSpec for BlockHashSpec {
    type Req = BlockHashRequest;

    type Key = u64;

    type Val = B256;

    type Resp = B256;

    type Cache = BlockHashCache;

    type Ctx = NoContext;

    type Side = ();

    open spec fn guarded() -> bool {
        true
    }

    fn epoch_guarded() -> (res: bool) {
        true
    }

    open spec fn permits_of(fetch: FetchConfig) -> usize {
        fetch.block_hash
    }

    fn permits(fetch: &FetchConfig) -> (permits: usize) {
        fetch.block_hash
    }

    open spec fn tag_of(req: BlockHashRequest) -> Option<B256> {
        Some(req.at_block_hash)
    }

    fn tag(req: &BlockHashRequest) -> (tag: Option<B256>) {
        Some(req.at_block_hash)
    }

    open spec fn key_of(req: BlockHashRequest) -> u64 {
        req.number
    }

    fn key(req: &BlockHashRequest) -> (key: u64) {
        req.number
    }

    open spec fn hit_of(value: B256) -> B256 {
        value
    }

    fn hit(value: &B256) -> (resp: B256) {
        *value
    }

    open spec fn stored_of(resp: B256) -> Option<B256> {
        Some(resp)
    }

    fn store(resp: &B256) -> (value: Option<B256>) {
        Some(*resp)
    }

    proof fn remembered_answer_is_the_answer(resp: B256) {
    }

    open spec fn registration_of(key: u64, resp: B256) -> Option<CodeRegistration> {
        None
    }

    fn on_success(key: &u64, resp: &B256) -> (registration: Option<CodeRegistration>) {
        None
    }

    open spec fn ctx_after(ctx: (), msg: ()) {
        ctx
    }

    fn on_side(ctx: &mut NoContext, msg: ()) {
    }

    open spec fn is_cache(cache: BlockHashCache, tag: B256, data: Map<u64, B256>) -> bool {
        cache@ == (TaggedCacheView { block_hash: tag, data })
    }

    fn into_cache(tag: B256, data: Table<u64, B256>) -> (cache: BlockHashCache) {
        BlockHashCache { block_hash: tag, data }
    }

    open spec fn call_of(ctx: (), req: BlockHashRequest) -> RpcCall {
        RpcCall::BlockHash { number: req.number }
    }

    fn fetch(ctx: &NoContext, req: &BlockHashRequest) -> (call: RpcCall) {
        RpcCall::BlockHash { number: req.number }
    }
}

/// What an account is asked for, remembered and handed over as. The node is
/// asked for the account at the block of the request, every account that it
/// gives is remembered as it is under its address, for the block with the hash
/// of the request, and reported as a place where its code is found.
pub proof fn account_fetches_are_faithful(
    req: AccountRequest,
    resp: Option<AccountInfoView>,
    info: AccountInfoView,
    key: Address,
    fetch: FetchConfig,
)
    ensures
        AccountSpec::guarded(),
        AccountSpec::permits_of(fetch) == fetch.account,
        AccountSpec::tag_of(req) == Some(req.block_hash),
        AccountSpec::key_of(req) == req.address,
        AccountSpec::call_of((), req) == (RpcCall::Account {
            address: req.address,
            block: req.block,
        }),
        AccountSpec::hit_of(info) == Some(info),
        AccountSpec::stored_of(Some(info)) == Some(info),
        AccountSpec::stored_of(None) is None,
        resp is None ==> AccountSpec::registration_of(key, resp) is None,
        AccountSpec::registration_of(key, Some(info)) == Some(
            CodeRegistration { code_hash: info.code_hash, address: key },
        ),
{
}

/// What code is asked for, remembered and handed over as. Code is asked for by
/// its hash, at the address of the request or else one that was reported for
/// the hash, and remembered byte for byte under the hash, whatever the block.
pub proof fn code_fetches_are_faithful(
    hints: Map<B256, Address>,
    req: CodeRequest,
    code: Seq<u8>,
    key: B256,
    reported: CodeRegistration,
    fetch: FetchConfig,
)
    ensures
        !CodeSpec::guarded(),
        CodeSpec::permits_of(fetch) == fetch.code,
        CodeSpec::tag_of(req) is None,
        CodeSpec::key_of(req) == req.code_hash,
        CodeSpec::call_of(hints, req) matches RpcCall::Code { code_hash, address_hint, block } && {
            &&& code_hash == req.code_hash
            &&& block == req.block
            &&& req.address_hint is Some ==> address_hint == req.address_hint
            &&& req.address_hint is None && hints.contains_key(req.code_hash) ==> address_hint
                == Some(hints[req.code_hash])
            &&& req.address_hint is None && !hints.contains_key(req.code_hash)
                ==> address_hint is None
        },
        CodeSpec::hit_of(code) == code,
        CodeSpec::stored_of(code) == Some(code),
        CodeSpec::registration_of(key, code) is None,
        CodeSpec::ctx_after(hints, reported) == hints.insert(reported.code_hash, reported.address),
{
}

/// What a slot is asked for, remembered and handed over as. The node is asked
/// for the slot at the block of the request, and whatever value it gives is
/// remembered whole under the address and the index, for the block with the
/// hash of the request.
pub proof fn storage_fetches_are_faithful(
    req: StorageRequest,
    value: U256,
    key: (Address, U256),
    fetch: FetchConfig,
)
    ensures
        StorageSpec::guarded(),
        StorageSpec::permits_of(fetch) == fetch.storage,
        StorageSpec::tag_of(req) == Some(req.block_hash),
        StorageSpec::key_of(req) == (req.address, req.index),
        StorageSpec::call_of((), req) == (RpcCall::Storage {
            address: req.address,
            index: req.index,
            block: req.block,
        }),
        StorageSpec::hit_of(value) == value,
        StorageSpec::stored_of(value) == Some(value),
        StorageSpec::registration_of(key, value) is None,
{
}

/// What a block hash is asked for, remembered and handed over as. The node is
/// asked for the hash of the block with the number, and whatever hash it gives
/// is remembered whole under the number, for the block with the hash of the
/// request.
pub proof fn block_hash_fetches_are_faithful(
    req: BlockHashRequest,
    hash: B256,
    key: u64,
    fetch: FetchConfig,
)
    ensures
        BlockHashSpec::guarded(),
        BlockHashSpec::permits_of(fetch) == fetch.block_hash,
        BlockHashSpec::tag_of(req) == Some(req.at_block_hash),
        BlockHashSpec::key_of(req) == req.number,
        BlockHashSpec::call_of((), req) == (RpcCall::BlockHash { number: req.number }),
        BlockHashSpec::hit_of(hash) == hash,
        BlockHashSpec::stored_of(hash) == Some(hash),
        BlockHashSpec::registration_of(key, hash) is None,
{
}

/// What is handed over in a flush is what was remembered, entry for entry, with
/// the hash of the block at which it was read.
pub proof fn handed_over_caches_are_complete(
    tag: B256,
    accounts: AccountCache,
    account_data: Map<Address, AccountInfoView>,
    storage: StorageCache,
    storage_data: Map<(Address, U256), U256>,
    block_hashes: BlockHashCache,
    block_hash_data: Map<u64, B256>,
    code: CodeCache,
    code_data: Map<B256, Seq<u8>>,
)
    ensures
        AccountSpec::is_cache(accounts, tag, account_data) ==> accounts.block_hash == tag
            && accounts.data@ == account_data,
        StorageSpec::is_cache(storage, tag, storage_data) ==> storage.block_hash == tag
            && storage.data@ == storage_data,
        BlockHashSpec::is_cache(block_hashes, tag, block_hash_data) ==> block_hashes.block_hash
            == tag && block_hashes.data@ == block_hash_data,
        CodeSpec::is_cache(code, tag, code_data) ==> code.data@ == code_data,
{
}

} // verus!
