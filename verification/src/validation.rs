//! Whether what arrives continues what is held.

use vstd::prelude::*;

use crate::fetch::TaggedCacheView;
use crate::primitives::B256;

verus! {

/// A block's place in its chain.
#[derive(Clone, Copy, Debug, PartialEq, Eq, Structural)]
pub struct BlockInfo {
    pub number: u64,
    pub hash: B256,
    pub parent_hash: B256,
}

/// The block that the held state is at, and whether that state is stale.
#[derive(Clone, Copy, Debug, PartialEq, Eq, Structural)]
pub struct CurrentState {
    pub block: u64,
    pub block_hash: B256,
    pub stale: bool,
}

impl CurrentState {
    /// Whether nothing is held yet.
    pub open spec fn holds_nothing(self) -> bool {
        self.block == 0 || self.block_hash == B256::zero_hash()
    }

    pub fn initial() -> (current: CurrentState)
        ensures
            current == (CurrentState { block: 0, block_hash: B256::zero_hash(), stale: false }),
    {
        CurrentState { block: 0, block_hash: B256::zero(), stale: false }
    }

    pub fn is_initial(&self) -> (res: bool)
        ensures
            res == self.holds_nothing(),
    {
        self.block == 0 || self.block_hash.is_zero()
    }
}

/// The verdict on a committed chain.
#[derive(Clone, Copy, Debug, PartialEq, Eq, Structural)]
pub enum CommitValidation {
    /// The chain connects to what is held.
    Valid,
    /// Nothing usable is held, so any chain will do.
    AcceptAny,
    /// The chain does not start right after the block that is held.
    Gap { expected: u64, got: u64 },
    /// The chain reaches back to the block that is held or further, and does
    /// not contain it.
    OverlapMismatch,
}

impl CommitValidation {
    pub open spec fn acceptable(self) -> bool {
        self is Valid || self is AcceptAny
    }

    pub fn is_acceptable(&self) -> (res: bool)
        ensures
            res == self.acceptable(),
    {
        matches!(self, CommitValidation::Valid | CommitValidation::AcceptAny)
    }
}

/// Whether the block that the state is at is among the chain's blocks.
pub open spec fn includes_current(chain: Seq<(u64, B256)>, current: CurrentState) -> bool {
    chain.contains((current.block, current.block_hash))
}

/// The verdict on a committed chain that starts with `first` and has these
/// blocks, by number and hash.
pub open spec fn commit_verdict(
    current: CurrentState,
    first: BlockInfo,
    chain: Seq<(u64, B256)>,
) -> CommitValidation {
    if current.holds_nothing() || current.stale {
        CommitValidation::AcceptAny
    } else if first.number == current.block + 1 && first.parent_hash == current.block_hash {
        CommitValidation::Valid
    } else if first.number > current.block {
        CommitValidation::Gap { expected: (current.block + 1) as u64, got: first.number }
    } else if includes_current(chain, current) {
        CommitValidation::Valid
    } else {
        CommitValidation::OverlapMismatch
    }
}

/// Looks for the block that the state is at among the given ones.
fn find_current(chain: &Vec<(u64, B256)>, current: CurrentState) -> (found: bool)
    ensures
        found == includes_current(chain@, current),
{
    let mut i: usize = 0;
    while i < chain.len()
        invariant
            i <= chain@.len(),
            forall|j: int| 0 <= j < i ==> chain@[j] != (current.block, current.block_hash),
        decreases chain.len() - i,
    {
        let (number, hash) = chain[i];
        if number == current.block && hash == current.block_hash {
            assert(chain@[i as int] == (current.block, current.block_hash));
            return true;
        }
        i += 1;
    }
    false
}

/// Whether a committed chain continues the held state. No block can follow
/// the one with the greatest number, so a usable state is not at it.
pub fn validate_chain_committed(
    current: CurrentState,
    first_block: BlockInfo,
    chain_blocks: Vec<(u64, B256)>,
) -> (verdict: CommitValidation)
    requires
        current.holds_nothing() || current.stale || current.block < u64::MAX,
    ensures
        verdict == commit_verdict(current, first_block, chain_blocks@),
{
    if current.is_initial() || current.stale {
        return CommitValidation::AcceptAny;
    }
    if first_block.number == current.block + 1 && first_block.parent_hash == current.block_hash {
        return CommitValidation::Valid;
    }
    if first_block.number <= current.block {
        if find_current(&chain_blocks, current) {
            return CommitValidation::Valid;
        }
        return CommitValidation::OverlapMismatch;
    }
    CommitValidation::Gap { expected: current.block + 1, got: first_block.number }
}

/// The verdict on a chain that replaces another.
#[derive(Clone, Copy, Debug, PartialEq, Eq, Structural)]
pub enum ReorgValidation {
    /// The replaced chain contains the block that is held.
    Valid,
    /// Nothing is held, so any chain will do.
    AcceptAny,
    /// The replaced chain is not the one that is held.
    Mismatch,
}

impl ReorgValidation {
    pub open spec fn acceptable(self) -> bool {
        self is Valid || self is AcceptAny
    }

    pub fn is_acceptable(&self) -> (res: bool)
        ensures
            res == self.acceptable(),
    {
        matches!(self, ReorgValidation::Valid | ReorgValidation::AcceptAny)
    }
}

/// The verdict where the replaced chain ends in `old_tip` and has these
/// blocks, by number and hash.
pub open spec fn reorg_verdict(
    current: CurrentState,
    old_tip: BlockInfo,
    old_chain: Seq<(u64, B256)>,
) -> ReorgValidation {
    if current.holds_nothing() {
        ReorgValidation::AcceptAny
    } else if old_tip.hash == current.block_hash || includes_current(old_chain, current) {
        ReorgValidation::Valid
    } else {
        ReorgValidation::Mismatch
    }
}

/// Whether the replaced chain is the one that the held state is on.
pub fn validate_chain_reorged(
    current: CurrentState,
    old_tip: BlockInfo,
    old_chain_blocks: Vec<(u64, B256)>,
) -> (verdict: ReorgValidation)
    ensures
        verdict == reorg_verdict(current, old_tip, old_chain_blocks@),
{
    if current.is_initial() {
        return ReorgValidation::AcceptAny;
    }
    if old_tip.hash == current.block_hash {
        return ReorgValidation::Valid;
    }
    if find_current(&old_chain_blocks, current) {
        return ReorgValidation::Valid;
    }
    ReorgValidation::Mismatch
}

/// The verdict on a cache.
#[derive(Clone, Copy, Debug, PartialEq, Eq, Structural)]
pub enum CacheValidation {
    Valid,
    Empty,
    Stale,
}

/// The verdict on a cache whose values were read at one block and are to be
/// used at another.
pub open spec fn cache_verdict(
    cache_block_hash: B256,
    cache_is_empty: bool,
    current_block_hash: B256,
) -> CacheValidation {
    if cache_is_empty {
        CacheValidation::Empty
    } else if cache_block_hash == current_block_hash {
        CacheValidation::Valid
    } else {
        CacheValidation::Stale
    }
}

/// Whether a cache whose values were read at one block can be used at another.
pub fn validate_cache(
    cache_block_hash: B256,
    cache_is_empty: bool,
    current_block_hash: B256,
) -> (verdict: CacheValidation)
    ensures
        verdict == cache_verdict(cache_block_hash, cache_is_empty, current_block_hash),
{
    if cache_is_empty {
        return CacheValidation::Empty;
    }
    if cache_block_hash == current_block_hash {
        return CacheValidation::Valid;
    }
    CacheValidation::Stale
}

/// A commit is judged valid exactly when something usable is held and the
/// chain's first block is the child of the block that is held, or the chain
/// reaches back to it and contains it.
pub proof fn valid_commit_connects(
    current: CurrentState,
    first: BlockInfo,
    chain: Seq<(u64, B256)>,
)
    ensures
        commit_verdict(current, first, chain) is Valid <==> {
            &&& !current.holds_nothing()
            &&& !current.stale
            &&& {
                ||| first.number == current.block + 1 && first.parent_hash == current.block_hash
                ||| first.number <= current.block && includes_current(chain, current)
            }
        },
{
}

/// A reorg is judged valid exactly when something is held and the replaced
/// chain ends in the block that is held or contains it.
pub proof fn valid_reorg_replaces_what_is_held(
    current: CurrentState,
    old_tip: BlockInfo,
    old_chain: Seq<(u64, B256)>,
)
    ensures
        reorg_verdict(current, old_tip, old_chain) is Valid <==> {
            &&& !current.holds_nothing()
            &&& old_tip.hash == current.block_hash || includes_current(old_chain, current)
        },
{
}

/// A cache is merged exactly when it is not judged stale.
pub proof fn stale_caches_are_the_unmerged_ones<K, M>(
    cache: TaggedCacheView<K, M>,
    current_block_hash: B256,
)
    ensures
        cache.valid_for(current_block_hash) <==> !(cache_verdict(
            cache.block_hash,
            cache.data == Map::<K, M>::empty(),
            current_block_hash,
        ) is Stale),
{
}

/// A stale state takes any commit, and so does a state that holds nothing;
/// no other state does.
pub proof fn only_unusable_state_accepts_any(
    current: CurrentState,
    first: BlockInfo,
    chain: Seq<(u64, B256)>,
)
    ensures
        commit_verdict(current, first, chain) is AcceptAny <==> current.stale
            || current.holds_nothing(),
{
}

/// A chain that skips blocks is never accepted by a usable state.
pub proof fn skipped_blocks_are_a_gap(
    current: CurrentState,
    first: BlockInfo,
    chain: Seq<(u64, B256)>,
)
    requires
        !current.stale,
        !current.holds_nothing(),
        first.number > current.block + 1,
    ensures
        commit_verdict(current, first, chain) == (CommitValidation::Gap {
            expected: (current.block + 1) as u64,
            got: first.number,
        }),
        !commit_verdict(current, first, chain).acceptable(),
{
}

/// Nothing is held at block zero, and nothing without a hash.
pub proof fn nothing_is_held_at_zero(current: CurrentState)
    ensures
        current.holds_nothing() <==> current.block == 0 || (current.block_hash.hi == 0
            && current.block_hash.lo == 0),
{
}

/// What a commit's verdict is, by the block that is held, the chain's first
/// block and its listed blocks alone.
pub proof fn commit_is_judged_by_its_place(
    current: CurrentState,
    first: BlockInfo,
    chain: Seq<(u64, B256)>,
)
    ensures
        ({
            let verdict = commit_verdict(current, first, chain);
            let unusable = current.stale || current.block == 0 || (current.block_hash.hi == 0
                && current.block_hash.lo == 0);
            let child = first.number == current.block + 1 && first.parent_hash
                == current.block_hash;
            let listed = exists|i: int|
                0 <= i < chain.len() && (#[trigger] chain[i]).0 == current.block && chain[i].1
                    == current.block_hash;
            &&& unusable ==> verdict is AcceptAny
            &&& !unusable && child ==> verdict is Valid
            &&& !unusable && !child && first.number <= current.block && listed
                ==> verdict is Valid
            &&& !unusable && !child && first.number <= current.block && !listed
                ==> verdict is OverlapMismatch
            &&& !unusable && !child && first.number > current.block ==> verdict == (
            CommitValidation::Gap { expected: (current.block + 1) as u64, got: first.number })
            &&& verdict.acceptable() <==> verdict is Valid || verdict is AcceptAny
        }),
{
    lemma_listed(current, chain);
}

proof fn lemma_listed(current: CurrentState, chain: Seq<(u64, B256)>)
    ensures
        includes_current(chain, current) <==> exists|i: int|
            0 <= i < chain.len() && (#[trigger] chain[i]).0 == current.block && chain[i].1
                == current.block_hash,
{
    if includes_current(chain, current) {
        let i = choose|i: int|
            0 <= i < chain.len() && chain[i] == (current.block, current.block_hash);
        assert(chain[i].0 == current.block);
    }
    if exists|i: int|
        0 <= i < chain.len() && (#[trigger] chain[i]).0 == current.block && chain[i].1
            == current.block_hash {
        let i = choose|i: int|
            0 <= i < chain.len() && (#[trigger] chain[i]).0 == current.block && chain[i].1
                == current.block_hash;
        assert(chain[i] == (current.block, current.block_hash));
    }
}

/// What a reorg's verdict is, by the block that is held, the replaced chain's
/// last block and its listed blocks alone. Staleness plays no part.
pub proof fn reorg_is_judged_by_what_it_replaces(
    current: CurrentState,
    old_tip: BlockInfo,
    old_chain: Seq<(u64, B256)>,
)
    ensures
        ({
            let verdict = reorg_verdict(current, old_tip, old_chain);
            let nothing = current.block == 0 || (current.block_hash.hi == 0
                && current.block_hash.lo == 0);
            let listed = exists|i: int|
                0 <= i < old_chain.len() && (#[trigger] old_chain[i]).0 == current.block
                    && old_chain[i].1 == current.block_hash;
            &&& nothing ==> verdict is AcceptAny
            &&& !nothing && (old_tip.hash == current.block_hash || listed) ==> verdict is Valid
            &&& !nothing && old_tip.hash != current.block_hash && !listed
                ==> verdict is Mismatch
            &&& verdict.acceptable() <==> verdict is Valid || verdict is AcceptAny
        }),
{
    lemma_listed(current, old_chain);
}

/// A cache without values is empty whatever its tag; one with values is valid
/// at the block of its tag and stale at every other.
pub proof fn cache_is_judged_by_its_tag(tag: B256, is_empty: bool, current: B256)
    ensures
        cache_verdict(tag, is_empty, current) is Empty <==> is_empty,
        cache_verdict(tag, is_empty, current) is Valid <==> !is_empty && tag == current,
        cache_verdict(tag, is_empty, current) is Stale <==> !is_empty && tag != current,
{
}

/// Chains and caches are judged by nothing but the place of the held block among
/// them, and the verdicts that accept are the two that say so.
pub proof fn validation_gives_the_verdict(
    current: CurrentState,
    block: BlockInfo,
    chain: Vec<(u64, B256)>,
    commit: CommitValidation,
    reorg: ReorgValidation,
    takes_commit: bool,
    takes_reorg: bool,
    initial: bool,
)
    requires
        call_ensures(validate_chain_committed, (current, block, chain), commit),
        call_ensures(validate_chain_reorged, (current, block, chain), reorg),
        call_ensures(CommitValidation::is_acceptable, (&commit,), takes_commit),
        call_ensures(ReorgValidation::is_acceptable, (&reorg,), takes_reorg),
        call_ensures(CurrentState::is_initial, (&current,), initial),
    ensures
        ({
            let nothing = current.block == 0 || (current.block_hash.hi == 0
                && current.block_hash.lo == 0);
            let child = block.number == current.block + 1 && block.parent_hash
                == current.block_hash;
            let listed = exists|i: int|
                0 <= i < chain@.len() && (#[trigger] chain@[i]).0 == current.block && chain@[i].1
                    == current.block_hash;
            &&& initial == nothing
            &&& takes_commit <==> current.stale || nothing || child || (block.number
                <= current.block && listed)
            &&& takes_reorg <==> nothing || block.hash == current.block_hash || listed
            &&& commit is AcceptAny <==> current.stale || nothing
            &&& reorg is AcceptAny <==> nothing
            &&& commit matches CommitValidation::Gap { expected, got } ==> got == block.number
                && got > current.block && expected == (current.block + 1) as u64
            &&& commit is OverlapMismatch ==> block.number <= current.block && !listed
        }),
{
    commit_is_judged_by_its_place(current, block, chain@);
    reorg_is_judged_by_what_it_replaces(current, block, chain@);
}

/// A cache is judged empty, valid or stale by its tag alone, and a state starts
/// at block zero without a hash.
pub proof fn validation_of_caches_gives_the_verdict(
    tag: B256,
    is_empty: bool,
    hash: B256,
    verdict: CacheValidation,
    initial: CurrentState,
)
    requires
        call_ensures(validate_cache, (tag, is_empty, hash), verdict),
        call_ensures(CurrentState::initial, (), initial),
    ensures
        verdict is Empty <==> is_empty,
        verdict is Valid <==> !is_empty && tag == hash,
        verdict is Stale <==> !is_empty && tag != hash,
        initial.block == 0 && initial.block_hash.hi == 0 && initial.block_hash.lo == 0
            && !initial.stale,
{
}

} // verus!
