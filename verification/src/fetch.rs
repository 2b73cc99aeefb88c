//! What a fetch manager is asked, and what it hands over.

use vstd::prelude::*;

use crate::account::AccountInfo;
use crate::code::Bytecode;
use crate::primitives::{Address, B256, U256};
use crate::table::{Table, TableKey};

verus! {

pub fn default_rpc_timeout_ms() -> (ms: u64)
    ensures
        ms == 10_000,
{
    10_000
}

pub fn default_wait_timeout_ms() -> (ms: u64)
    ensures
        ms == 30_000,
{
    30_000
}

pub fn default_flush_timeout_ms() -> (ms: u64)
    ensures
        ms == 15_000,
{
    15_000
}

/// How much may be in flight at once, and for how long.
#[derive(Clone, Copy, Debug, PartialEq, Eq, Structural)]
pub struct FetchConfig {
    /// In-flight account RPCs allowed at once.
    pub account: usize,
    /// In-flight code RPCs allowed at once.
    pub code: usize,
    /// In-flight storage RPCs allowed at once.
    pub storage: usize,
    /// In-flight block-hash RPCs allowed at once.
    pub block_hash: usize,
    /// Wall-clock bound on a single HTTP RPC round trip.
    pub rpc_timeout_ms: u64,
    /// Wall-clock bound on a reader waiting for a fetch manager's reply.
    pub wait_timeout_ms: u64,
    /// Wall-clock bound on a fetch manager draining in-flight RPCs during a
    /// changeset flush.
    pub flush_timeout_ms: u64,
}

impl FetchConfig {
    /// The configuration with `n` RPCs of each kind and the usual timeouts.
    pub open spec fn uniform_config(n: usize) -> FetchConfig {
        FetchConfig {
            account: n,
            code: n,
            storage: n,
            block_hash: n,
            rpc_timeout_ms: 10_000,
            wait_timeout_ms: 30_000,
            flush_timeout_ms: 15_000,
        }
    }

    pub fn uniform(n: usize) -> (config: FetchConfig)
        ensures
            config == FetchConfig::uniform_config(n),
    {
        FetchConfig {
            account: n,
            code: n,
            storage: n,
            block_hash: n,
            rpc_timeout_ms: default_rpc_timeout_ms(),
            wait_timeout_ms: default_wait_timeout_ms(),
            flush_timeout_ms: default_flush_timeout_ms(),
        }
    }
}

impl Default for FetchConfig {
    fn default() -> (config: FetchConfig)
        ensures
            config == FetchConfig::uniform_config(100),
    {
        FetchConfig::uniform(100)
    }
}

/// A request and the handle by which its answer goes back.
pub struct FetchMessage<Req, R> {
    pub request: Req,
    pub respond_to: R,
}

/// Asks for an account as of a block.
#[derive(Clone, Copy, Debug, PartialEq, Eq, Structural)]
pub struct AccountRequest {
    pub address: Address,
    pub block: u64,
    pub block_hash: B256,
}

/// Asks for the code with a hash.
#[derive(Clone, Copy, Debug, PartialEq, Eq, Structural)]
pub struct CodeRequest {
    pub code_hash: B256,
    pub block: u64,
    /// An address that has the code, where the caller knows one.
    pub address_hint: Option<Address>,
}

/// An account with this address carries code with this hash.
#[derive(Clone, Copy, Debug, PartialEq, Eq, Structural)]
pub struct CodeRegistration {
    pub code_hash: B256,
    pub address: Address,
}

/// Asks for a storage slot as of a block.
#[derive(Clone, Copy, Debug, PartialEq, Eq, Structural, Hash)]
pub struct StorageRequest {
    pub address: Address,
    pub index: U256,
    pub block: u64,
    pub block_hash: B256,
}

/// Asks for the hash of a block.
#[derive(Clone, Copy, Debug, PartialEq, Eq, Structural)]
pub struct BlockHashRequest {
    pub number: u64,
    pub at_block_hash: B256,
}

/// Values that were all read at the block with one hash.
pub struct TaggedCache<K: TableKey, V: DeepView> {
    pub block_hash: B256,
    pub data: Table<K, V>,
}

/// The model of a `TaggedCache`.
#[verifier::ext_equal]
#[verifier::reject_recursive_types(K)]
pub struct TaggedCacheView<K, M> {
    pub block_hash: B256,
    pub data: Map<K, M>,
}

impl<K, M> TaggedCacheView<K, M> {
    /// Whether the values still hold at the block with the given hash: they
    /// were read there, or there are none.
    pub open spec fn valid_for(self, block_hash: B256) -> bool {
        self.data == Map::<K, M>::empty() || self.block_hash == block_hash
    }
}

impl<K: TableKey, V: DeepView> View for TaggedCache<K, V> {
    type V = TaggedCacheView<K, V::V>;

    open spec fn view(&self) -> TaggedCacheView<K, V::V> {
        TaggedCacheView { block_hash: self.block_hash, data: self.data@ }
    }
}

impl<K: TableKey, V: DeepView> TaggedCache<K, V> {
    pub fn is_valid_for(&self, block_hash: B256) -> (res: bool)
        ensures
            res == self@.valid_for(block_hash),
    {
        self.data.is_empty() || self.block_hash == block_hash
    }
}

impl<K: TableKey, V: DeepView> Default for TaggedCache<K, V> {
    fn default() -> (cache: TaggedCache<K, V>)
        ensures
            cache.block_hash == B256::zero_hash(),
            cache.data@ == Map::<K, V::V>::empty(),
    {
        TaggedCache { block_hash: B256::zero(), data: Table::new() }
    }
}

pub type AccountCache = TaggedCache<Address, AccountInfo>;

pub type StorageCache = TaggedCache<(Address, U256), U256>;

pub type BlockHashCache = TaggedCache<u64, B256>;

/// Code by its hash, which holds at every block.
pub struct CodeCache {
    pub data: Table<B256, Bytecode>,
}

impl Default for CodeCache {
    fn default() -> (cache: CodeCache)
        ensures
            cache.data@ == Map::<B256, Seq<u8>>::empty(),
    {
        CodeCache { data: Table::new() }
    }
}

/// The usual configuration allows the same number of RPCs of each kind, and
/// waits 10 seconds for the node, 30 for a fetch manager and 15 for a flush.
pub proof fn usual_configuration_is_uniform(n: usize)
    ensures
        ({
            let config = FetchConfig::uniform_config(n);
            &&& config.account == n
            &&& config.code == n
            &&& config.storage == n
            &&& config.block_hash == n
            &&& config.rpc_timeout_ms == 10_000
            &&& config.wait_timeout_ms == 30_000
            &&& config.flush_timeout_ms == 15_000
        }),
{
}

/// The model of a cache is its tag and its values. A cache with a value in it
/// holds only at the block of its tag, and one without holds anywhere.
pub proof fn cache_holds_at_its_block_only<K: TableKey, V: DeepView>(
    cache: TaggedCache<K, V>,
    key: K,
    block_hash: B256,
)
    ensures
        cache@.block_hash == cache.block_hash,
        cache@.data == cache.data@,
        cache.data@.contains_key(key) ==> (cache@.valid_for(block_hash) <==> cache.block_hash
            == block_hash),
        cache.data@ == Map::<K, V::V>::empty() ==> cache@.valid_for(block_hash),
{
}

/// The usual configuration is made as it is, and a cache says of itself where it
/// holds.
pub proof fn configuration_and_caches_say_what_they_are<K: TableKey, V: DeepView>(
    n: usize,
    config: FetchConfig,
    cache: TaggedCache<K, V>,
    key: K,
    block_hash: B256,
    holds: bool,
)
    requires
        call_ensures(FetchConfig::uniform, (n,), config),
        call_ensures(TaggedCache::<K, V>::is_valid_for, (&cache, block_hash), holds),
    ensures
        config.account == n && config.code == n && config.storage == n && config.block_hash == n,
        config.rpc_timeout_ms == 10_000 && config.wait_timeout_ms == 30_000
            && config.flush_timeout_ms == 15_000,
        cache.data@.contains_key(key) ==> (holds <==> cache.block_hash == block_hash),
        cache.data@ == Map::<K, V::V>::empty() ==> holds,
{
}

} // verus!
