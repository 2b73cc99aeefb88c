//! What holds of the state across notifications.

use vstd::prelude::*;

use crate::account::{AccountInfo, AccountInfoView};
use crate::block::{ReceiptView, SealedHeader, Withdrawals};
use crate::changeset::{
    applied_chain, counts_after, logs_after, next_snapshot, takes_commit, takes_reorg,
    update_after, ChangesetManager, ChangesetManagerView, Reaction,
};
use crate::chain::{
    block_data_is_that_of_the_blocks, chain_ends_are_its_outer_blocks,
    execution_changes_are_those_of_the_bundle, logs_are_those_of_all_receipts, Chain,
    ChainView, Notification, NotificationView,
};
use crate::code::code_hash_of;
use crate::error::SimError;
use crate::fetch::{AccountRequest, StorageRequest, TaggedCacheView};
use crate::history::{cutoff_keeps_the_rest, lookup_finds_oldest, pushed_is_found, PerBlock};
use crate::manager_core::FetchManagerView;
use crate::primitives::{Address, B256, U256};
use crate::sort::{sorted_members, sorted_members_is_the_ascending_listing, Ordered};
use crate::state::{
    account_read_gives_what_is_held, next_generation, storage_read_gives_what_is_held,
    BlockChangedAccounts, BlockChangedAccountsView, BlockReceipts, BlockReceiptsView, Read,
    StateSnapshot, StateSnapshotView, StaticState, RECEIPTS_HISTORY_DEPTH,
};
use crate::transitions::{
    apply_block_data, apply_execution_changes, at_tip, build_commit_state, build_recovery_state,
    build_reorg_state, build_revert_state, committed, executed, from_scratch, kept_up_to,
    mark_stale, merge_caches, merge_totals, merged, new_info, new_value, only_code, reorged,
    reverted, with_block_data, with_blocks, BlockData, BlockDataView, CacheMergeStats, Caches,
    CachesView, ChainTip, ExecutionChanges, ExecutionChangesView,
};

verus! {

/// Every notification moves the generation on by one, whether it is taken or
/// not.
pub proof fn every_notification_moves_the_generation(
    manager: ChangesetManagerView,
    caches: CachesView,
    notification: NotificationView,
)
    ensures
        manager.after(caches, notification).state.generation == next_generation(
            manager.state.generation,
        ),
{
}

/// A guard that was taken before some notifications is found valid afterwards
/// only if there were none, or as many as it takes the counter to come round.
pub proof fn guard_notices_notifications(
    manager: ChangesetManagerView,
    events: Seq<(CachesView, NotificationView)>,
)
    requires
        manager.after_all(events).state.validity(manager.state.guard()) is Valid,
    ensures
        events.len() % 0x1_0000_0000_0000_0000 == 0,
{
    lemma_generation_counts_notifications(manager, events);
}

proof fn lemma_generation_counts_notifications(
    manager: ChangesetManagerView,
    events: Seq<(CachesView, NotificationView)>,
)
    ensures
        manager.after_all(events).state.generation == (manager.state.generation + events.len())
            % 0x1_0000_0000_0000_0000,
    decreases events.len(),
{
    if events.len() > 0 {
        lemma_generation_counts_notifications(manager, events.drop_last());
    }
}

/// A stale state stays stale until a commit arrives.
pub proof fn stale_until_a_commit(
    manager: ChangesetManagerView,
    events: Seq<(CachesView, NotificationView)>,
)
    requires
        manager.state.snapshot.stale,
        forall|i: int| 0 <= i < events.len() ==> !((#[trigger] events[i]).1 is ChainCommitted),
    ensures
        manager.after_all(events).state.snapshot.stale,
    decreases events.len(),
{
    if events.len() > 0 {
        let earlier = events.drop_last();
        assert forall|i: int| 0 <= i < earlier.len() implies !((#[trigger] earlier[i]).1 is
            ChainCommitted) by {
            assert(earlier[i] == events[i]);
        }
        stale_until_a_commit(manager, earlier);
        assert(!(events[events.len() - 1].1 is ChainCommitted));
    }
}

/// A stale state takes whatever commit arrives, and is usable at its tip, from
/// scratch: it holds no account, no slot, and no block hash, receipts or
/// changed accounts but those of the commit. Only code stays.
pub proof fn any_commit_recovers(
    current: StateSnapshotView,
    caches: CachesView,
    new: ChainView,
)
    requires
        current.stale,
    ensures
        ({
            let next = next_snapshot(current, caches, NotificationView::ChainCommitted { new });
            let blocks = new.block_data();
            &&& !next.stale
            &&& next.block == new.tip().number
            &&& next.block_hash == new.tip().hash
            &&& next.accounts == Map::<Address, AccountInfoView>::empty()
            &&& next.storage == Map::<(Address, U256), U256>::empty()
            &&& next.code == current.code.union_prefer_right(caches.code).union_prefer_right(
                new.execution_changes().contracts,
            )
            &&& forall|number: u64| #[trigger]
                next.block_hashes.contains_key(number) ==> exists|i: int|
                    0 <= i < blocks.len() && (#[trigger] blocks[i]).number == number
                        && blocks[i].hash == next.block_hashes[number]
            &&& forall|j: int|
                0 <= j < next.receipts_history.len() ==> exists|i: int|
                    0 <= i < blocks.len() && #[trigger] next.receipts_history[j] == receipts_entry(
                        #[trigger] blocks[i],
                    )
            &&& next.changed_accounts_history == seq![
                BlockChangedAccountsView {
                    block: new.tip().number,
                    accounts: sorted_members(new.execution_changes().accounts.dom()),
                },
            ]
        }),
{
    let changes = new.execution_changes();
    let blocks = new.block_data();
    let next = next_snapshot(current, caches, NotificationView::ChainCommitted { new });
    let base = StateSnapshotView { stale: false, ..from_scratch(current) };
    let hydrated = merged(base, only_code(caches), base.block_hash);
    let run = executed(hydrated, changes);
    assert(run.accounts =~= Map::<Address, AccountInfoView>::empty());
    assert(run.storage =~= Map::<(Address, U256), U256>::empty());
    assert(run.block_hashes =~= Map::<u64, B256>::empty());
    lemma_blocks_leave_accounts(run, blocks);
    lemma_hashes_come_from_blocks(run, blocks);
    lemma_receipts_pushed(run, blocks);
    let entries = blocks.map_values(|block: BlockDataView| receipts_entry(block));
    let all = run.receipts_history + entries;
    assert forall|j: int| 0 <= j < next.receipts_history.len() implies exists|i: int|
        0 <= i < blocks.len() && #[trigger] next.receipts_history[j] == receipts_entry(
            #[trigger] blocks[i],
        ) by {
        let i = j + all.len() - next.receipts_history.len();
        assert(next.receipts_history[j] == all[i]);
        assert(all[i] == entries[i]);
        assert(entries[i] == receipts_entry(blocks[i]));
    }
}

/// After blocks were added to a state without block hashes, every hash is that
/// of one of them.
proof fn lemma_hashes_come_from_blocks(state: StateSnapshotView, blocks: Seq<BlockDataView>)
    requires
        state.block_hashes == Map::<u64, B256>::empty(),
    ensures
        forall|number: u64| #[trigger]
            with_blocks(state, blocks).block_hashes.contains_key(number) ==> exists|i: int|
                0 <= i < blocks.len() && (#[trigger] blocks[i]).number == number
                    && blocks[i].hash == with_blocks(state, blocks).block_hashes[number],
    decreases blocks.len(),
{
    if blocks.len() > 0 {
        let earlier = blocks.drop_last();
        lemma_hashes_come_from_blocks(state, earlier);
        let before = with_blocks(state, earlier).block_hashes;
        let hashes = with_blocks(state, blocks).block_hashes;
        assert forall|number: u64| #[trigger] hashes.contains_key(number) implies exists|i: int|
            0 <= i < blocks.len() && (#[trigger] blocks[i]).number == number && blocks[i].hash
                == hashes[number] by {
            let last = blocks.len() - 1;
            if blocks[last].number != number {
                assert(before.contains_key(number));
                let i = choose|i: int|
                    0 <= i < earlier.len() && (#[trigger] earlier[i]).number == number
                        && earlier[i].hash == before[number];
                assert(blocks[i] == earlier[i]);
            }
        }
    }
}

/// A chain that does not connect makes the state stale and changes nothing
/// else of it.
pub proof fn refusal_only_marks_stale(
    current: StateSnapshotView,
    caches: CachesView,
    notification: NotificationView,
)
    requires
        applied_chain(current, notification) is None,
        !(notification is ChainReverted),
    ensures
        next_snapshot(current, caches, notification) == (StateSnapshotView {
            stale: true,
            ..current
        }),
{
}

/// A state that is usable after a notification stands at the tip of the chain
/// that the notification brought and the state took.
pub proof fn usable_state_stands_at_the_tip(
    current: StateSnapshotView,
    caches: CachesView,
    notification: NotificationView,
)
    requires
        !next_snapshot(current, caches, notification).stale,
    ensures
        applied_chain(current, notification) matches Some(new) && {
            let next = next_snapshot(current, caches, notification);
            &&& next.block == new.tip().number
            &&& next.block_hash == new.tip().hash
        },
{
}

/// The state is told to be ready by the first chain that is taken, with the
/// tip of that chain, and by nothing before it.
pub proof fn ready_with_the_first_chain(
    manager: ChangesetManagerView,
    events: Seq<(CachesView, NotificationView)>,
    i: int,
)
    requires
        manager.awaiting_ready,
        0 <= i < events.len(),
        forall|j: int|
            0 <= j < i ==> applied_chain(
                (#[trigger] manager.after_all(events.take(j))).state.snapshot,
                events[j].1,
            ) is None,
        applied_chain(manager.after_all(events.take(i)).state.snapshot, events[i].1) is Some,
    ensures
        applied_chain(
            manager.after_all(events.take(i)).state.snapshot,
            events[i].1,
        ) matches Some(new) && manager.after_all(events.take(i)).ready_after(events[i].1) == Some(
            new.tip().number,
        ),
        forall|j: int|
            0 <= j < i ==> (#[trigger] manager.after_all(events.take(j))).ready_after(
                events[j].1,
            ) is None,
{
    lemma_ready_awaited(manager, events, i);
}

/// As long as no chain is taken, the state has yet to become ready.
proof fn lemma_ready_awaited(
    manager: ChangesetManagerView,
    events: Seq<(CachesView, NotificationView)>,
    i: int,
)
    requires
        manager.awaiting_ready,
        0 <= i <= events.len(),
        forall|j: int|
            0 <= j < i ==> applied_chain(
                (#[trigger] manager.after_all(events.take(j))).state.snapshot,
                events[j].1,
            ) is None,
    ensures
        manager.after_all(events.take(i)).awaiting_ready,
    decreases i,
{
    if i > 0 {
        let earlier = events.take(i);
        assert(earlier.drop_last() =~= events.take(i - 1));
        assert(earlier.last() == events[i - 1]);
        lemma_ready_awaited(manager, events, i - 1);
        let _ = manager.after_all(events.take(i - 1));
    }
}

/// The state is told to be ready at most once: nothing that follows a chain
/// that was taken does so.
pub proof fn ready_at_most_once(
    manager: ChangesetManagerView,
    events: Seq<(CachesView, NotificationView)>,
    i: int,
    j: int,
)
    requires
        0 <= i < j < events.len(),
        applied_chain(
            manager.after_all(events.take(i)).state.snapshot,
            events[i].1,
        ) is Some,
    ensures
        manager.after_all(events.take(j)).ready_after(events[j].1) is None,
    decreases j,
{
    let earlier = events.take(j);
    assert(earlier.drop_last() =~= events.take(j - 1));
    assert(earlier.last() == events[j - 1]);
    if i < j - 1 {
        ready_stays_told(manager, events, i, j - 1);
    }
}

proof fn ready_stays_told(
    manager: ChangesetManagerView,
    events: Seq<(CachesView, NotificationView)>,
    i: int,
    j: int,
)
    requires
        0 <= i < j < events.len(),
        applied_chain(
            manager.after_all(events.take(i)).state.snapshot,
            events[i].1,
        ) is Some,
    ensures
        !manager.after_all(events.take(j)).awaiting_ready,
    decreases j,
{
    let earlier = events.take(j);
    assert(earlier.drop_last() =~= events.take(j - 1));
    assert(earlier.last() == events[j - 1]);
    if i < j - 1 {
        ready_stays_told(manager, events, i, j - 1);
    }
}

/// What a commit that is taken builds on: the state and the caches, or nothing
/// but code where the state is stale.
spec fn commit_basis(
    current: StateSnapshotView,
    caches: CachesView,
) -> (StateSnapshotView, CachesView) {
    if current.stale {
        (from_scratch(current), only_code(caches))
    } else {
        (current, caches)
    }
}

/// Whether no history is longer than its depth.
pub open spec fn histories_bounded(state: StateSnapshotView) -> bool {
    &&& state.receipts_history.len() <= RECEIPTS_HISTORY_DEPTH
    &&& state.changed_accounts_history.len() <= RECEIPTS_HISTORY_DEPTH
}

proof fn lemma_blocks_bounded(state: StateSnapshotView, blocks: Seq<BlockDataView>)
    requires
        histories_bounded(state),
    ensures
        histories_bounded(with_blocks(state, blocks)),
    decreases blocks.len(),
{
    if blocks.len() > 0 {
        lemma_blocks_bounded(state, blocks.drop_last());
    }
}

/// No notification takes a history beyond its depth.
pub proof fn histories_stay_bounded(
    current: StateSnapshotView,
    caches: CachesView,
    notification: NotificationView,
)
    requires
        histories_bounded(current),
    ensures
        histories_bounded(next_snapshot(current, caches, notification)),
{
    broadcast use Seq::lemma_filter_len;

    match notification {
        NotificationView::ChainCommitted { new } => {
            let (base, taken) = commit_basis(current, caches);
            let usable = StateSnapshotView { stale: false, ..base };
            let run = executed(merged(usable, taken, base.block_hash), new.execution_changes());
            lemma_blocks_bounded(run, new.block_data());
        },
        NotificationView::ChainReorged { old: replaced, new } => {
            let run = executed(kept_up_to(current, replaced.ancestor()), new.execution_changes());
            lemma_blocks_bounded(run, new.block_data());
        },
        NotificationView::ChainReverted { old: _ } => {},
    }
}

/// The state of the whole chain at a block, of which a snapshot knows a part.
pub struct World {
    pub accounts: spec_fn(Address) -> AccountInfoView,
    pub storage: spec_fn((Address, U256)) -> U256,
    pub hashes: spec_fn(u64) -> B256,
}

/// Whether the two say the same of an account. Code may or may not be at hand.
pub open spec fn same_account(a: AccountInfoView, b: AccountInfoView) -> bool {
    a.balance == b.balance && a.nonce == b.nonce && a.code_hash == b.code_hash
}

/// Whether all that is held is as it is on the chain.
pub open spec fn agrees(
    accounts: Map<Address, AccountInfoView>,
    storage: Map<(Address, U256), U256>,
    hashes: Map<u64, B256>,
    world: World,
) -> bool {
    &&& forall|address: Address| #[trigger]
        accounts.contains_key(address) ==> same_account(
            accounts[address],
            (world.accounts)(address),
        )
    &&& forall|slot: (Address, U256)| #[trigger]
        storage.contains_key(slot) ==> storage[slot] == (world.storage)(slot)
    &&& forall|number: u64| #[trigger]
        hashes.contains_key(number) ==> hashes[number] == (world.hashes)(number)
}

/// Whether all that the snapshot holds is as it is on the chain.
pub open spec fn snapshot_agrees(state: StateSnapshotView, world: World) -> bool {
    agrees(state.accounts, state.storage, state.block_hashes, world)
}

/// Whether the values that a merge takes over are as they are on the chain.
pub open spec fn caches_agree(caches: CachesView, current_hash: B256, world: World) -> bool {
    agrees(
        if caches.accounts.valid_for(current_hash) {
            caches.accounts.data
        } else {
            Map::empty()
        },
        if caches.storage.valid_for(current_hash) {
            caches.storage.data
        } else {
            Map::empty()
        },
        if caches.block_hashes.valid_for(current_hash) {
            caches.block_hashes.data
        } else {
            Map::empty()
        },
        world,
    )
}

/// Whether the changes are all there is between the two states of accounts
/// and slots.
pub open spec fn leads(before: World, changes: ExecutionChangesView, after: World) -> bool {
    &&& forall|address: Address|
        match #[trigger] new_info(changes.accounts, address) {
            Some(info) => same_account(info, (after.accounts)(address)),
            None => same_account((before.accounts)(address), (after.accounts)(address)),
        }
    &&& forall|slot: (Address, U256)|
        match #[trigger] new_value(changes.accounts, slot) {
            Some(value) => value == (after.storage)(slot),
            None => (before.storage)(slot) == (after.storage)(slot),
        }
}

/// Whether the blocks are those of the chain.
pub open spec fn on_chain(blocks: Seq<BlockDataView>, world: World) -> bool {
    forall|i: int|
        0 <= i < blocks.len() ==> (#[trigger] blocks[i]).hash == (world.hashes)(blocks[i].number)
}

proof fn lemma_with_blocks(state: StateSnapshotView, blocks: Seq<BlockDataView>, world: World)
    requires
        on_chain(blocks, world),
        forall|number: u64| #[trigger]
            state.block_hashes.contains_key(number) ==> {
                ||| state.block_hashes[number] == (world.hashes)(number)
                ||| exists|i: int| 0 <= i < blocks.len() && (#[trigger] blocks[i]).number == number
            },
    ensures
        with_blocks(state, blocks).accounts == state.accounts,
        with_blocks(state, blocks).storage == state.storage,
        forall|number: u64| #[trigger]
            with_blocks(state, blocks).block_hashes.contains_key(number) ==> with_blocks(
                state,
                blocks,
            ).block_hashes[number] == (world.hashes)(number),
{
    lemma_block_hashes(state, blocks, world);
    let next = with_blocks(state, blocks);
    assert forall|number: u64| #[trigger] next.block_hashes.contains_key(number) implies
        next.block_hashes[number] == (world.hashes)(number) by {
        if exists|i: int| 0 <= i < blocks.len() && (#[trigger] blocks[i]).number == number {
        } else {
            assert(state.block_hashes.contains_key(number));
        }
    }
}

proof fn lemma_block_hashes(state: StateSnapshotView, blocks: Seq<BlockDataView>, world: World)
    requires
        on_chain(blocks, world),
    ensures
        with_blocks(state, blocks).accounts == state.accounts,
        with_blocks(state, blocks).storage == state.storage,
        with_blocks(state, blocks).code == state.code,
        forall|number: u64| #[trigger]
            with_blocks(state, blocks).block_hashes.contains_key(number) ==> {
                if exists|i: int|
                    0 <= i < blocks.len() && (#[trigger] blocks[i]).number == number {
                    with_blocks(state, blocks).block_hashes[number] == (world.hashes)(number)
                } else {
                    &&& state.block_hashes.contains_key(number)
                    &&& with_blocks(state, blocks).block_hashes[number]
                        == state.block_hashes[number]
                }
            },
    decreases blocks.len(),
{
    if blocks.len() > 0 {
        let earlier = blocks.drop_last();
        let last = blocks.last();
        assert(blocks[blocks.len() - 1] == last);
        assert forall|i: int| 0 <= i < earlier.len() implies (#[trigger] earlier[i]).hash == (
        world.hashes)(earlier[i].number) by {
            assert(earlier[i] == blocks[i]);
        }
        lemma_block_hashes(state, earlier, world);
        let next = with_blocks(state, blocks);
        assert forall|number: u64| #[trigger] next.block_hashes.contains_key(number) implies {
            if exists|i: int| 0 <= i < blocks.len() && (#[trigger] blocks[i]).number == number {
                next.block_hashes[number] == (world.hashes)(number)
            } else {
                &&& state.block_hashes.contains_key(number)
                &&& next.block_hashes[number] == state.block_hashes[number]
            }
        } by {
            if number == last.number {
            } else {
                assert(with_blocks(state, earlier).block_hashes.contains_key(number));
                if exists|i: int|
                    0 <= i < earlier.len() && (#[trigger] earlier[i]).number == number {
                    let i = choose|i: int|
                        0 <= i < earlier.len() && (#[trigger] earlier[i]).number == number;
                    assert(blocks[i].number == number);
                } else {
                    if exists|i: int|
                        0 <= i < blocks.len() && (#[trigger] blocks[i]).number == number {
                        let i = choose|i: int|
                            0 <= i < blocks.len() && (#[trigger] blocks[i]).number == number;
                        assert(earlier[i].number == number);
                    }
                }
            }
        }
    }
}

/// A commit keeps the snapshot in step with the chain. Where all that is held
/// was as on the chain before, and what the fetch managers hand over was read
/// there, all that is held afterwards is as on the chain after the commit.
pub proof fn commit_stays_in_step(
    current: StateSnapshotView,
    caches: CachesView,
    changes: ExecutionChangesView,
    blocks: Seq<BlockDataView>,
    tip: ChainTip,
    before: World,
    after: World,
)
    requires
        snapshot_agrees(current, before),
        caches_agree(caches, current.block_hash, before),
        leads(before, changes, after),
        on_chain(blocks, after),
        forall|number: u64|
            (#[trigger] (before.hashes)(number)) == (after.hashes)(number) || exists|i: int|
                0 <= i < blocks.len() && (#[trigger] blocks[i]).number == number,
    ensures
        snapshot_agrees(committed(current, caches, changes, blocks, tip), after),
{
    let usable = StateSnapshotView { stale: false, ..current };
    let hydrated = merged(usable, caches, current.block_hash);
    let run = executed(hydrated, changes);
    assert(snapshot_agrees(hydrated, before)) by {
        assert forall|address: Address| #[trigger]
            hydrated.accounts.contains_key(address) implies same_account(
            hydrated.accounts[address],
            (before.accounts)(address),
        ) by {
            if caches.accounts.valid_for(current.block_hash)
                && caches.accounts.data.contains_key(address) {
            } else {
                assert(current.accounts.contains_key(address));
            }
        }
        assert forall|slot: (Address, U256)| #[trigger]
            hydrated.storage.contains_key(slot) implies hydrated.storage[slot] == (before.storage)(
            slot,
        ) by {
            if caches.storage.valid_for(current.block_hash)
                && caches.storage.data.contains_key(slot) {
            } else {
                assert(current.storage.contains_key(slot));
            }
        }
        assert forall|number: u64| #[trigger]
            hydrated.block_hashes.contains_key(number) implies hydrated.block_hashes[number] == (
        before.hashes)(number) by {
            if caches.block_hashes.valid_for(current.block_hash)
                && caches.block_hashes.data.contains_key(number) {
            } else {
                assert(current.block_hashes.contains_key(number));
            }
        }
    }
    assert forall|address: Address| #[trigger]
        run.accounts.contains_key(address) implies same_account(
        run.accounts[address],
        (after.accounts)(address),
    ) by {
        assert(hydrated.accounts.contains_key(address));
        let _ = new_info(changes.accounts, address);
    }
    assert forall|slot: (Address, U256)| #[trigger]
        run.storage.contains_key(slot) implies run.storage[slot] == (after.storage)(slot) by {
        assert(hydrated.storage.contains_key(slot));
        let _ = new_value(changes.accounts, slot);
    }
    assert forall|number: u64| #[trigger] run.block_hashes.contains_key(number) implies {
        ||| run.block_hashes[number] == (after.hashes)(number)
        ||| exists|i: int| 0 <= i < blocks.len() && (#[trigger] blocks[i]).number == number
    } by {
        assert(hydrated.block_hashes.contains_key(number));
        let _ = (before.hashes)(number);
    }
    lemma_with_blocks(run, blocks, after);
}

/// A reorg leaves nothing of the replaced blocks: no account and no slot is
/// held, and the block hashes are those of the common ancestor's chain and of
/// the new blocks.
pub proof fn reorg_stays_in_step(
    current: StateSnapshotView,
    common_ancestor: u64,
    changes: ExecutionChangesView,
    blocks: Seq<BlockDataView>,
    tip: ChainTip,
    after: World,
)
    requires
        on_chain(blocks, after),
        hashes_agree_up_to(current, common_ancestor, after),
    ensures
        snapshot_agrees(reorged(current, common_ancestor, changes, blocks, tip), after),
        reorged(current, common_ancestor, changes, blocks, tip).accounts == Map::<
            Address,
            AccountInfoView,
        >::empty(),
        reorged(current, common_ancestor, changes, blocks, tip).storage == Map::<
            (Address, U256),
            U256,
        >::empty(),
{
    let run = executed(kept_up_to(current, common_ancestor), changes);
    assert(run.accounts =~= Map::<Address, AccountInfoView>::empty());
    assert(run.storage =~= Map::<(Address, U256), U256>::empty());
    assert forall|number: u64| #[trigger] run.block_hashes.contains_key(number) implies
        run.block_hashes[number] == (after.hashes)(number) by {
        assert(current.block_hashes.contains_key(number));
    }
    lemma_with_blocks(run, blocks, after);
}

/// What is held takes the new values of execution, and keeps its own where
/// there is none; what is not held stays unknown.
pub proof fn held_entries_take_the_writes(
    state: StateSnapshotView,
    changes: ExecutionChangesView,
    address: Address,
    slot: (Address, U256),
)
    ensures
        executed(state, changes).accounts.contains_key(address) == state.accounts.contains_key(
            address,
        ),
        state.accounts.contains_key(address) ==> executed(state, changes).accounts[address] == (
        match new_info(changes.accounts, address) {
            Some(info) => info,
            None => state.accounts[address],
        }),
        executed(state, changes).storage.contains_key(slot) == state.storage.contains_key(slot),
        state.storage.contains_key(slot) ==> executed(state, changes).storage[slot] == (
        match new_value(changes.accounts, slot) {
            Some(value) => value,
            None => state.storage[slot],
        }),
{
}

/// A snapshot stays lazy: a commit makes no account and no slot known but
/// those that readers had fetched at the block before.
pub proof fn commit_learns_only_what_was_read(
    current: StateSnapshotView,
    caches: CachesView,
    changes: ExecutionChangesView,
    blocks: Seq<BlockDataView>,
    tip: ChainTip,
)
    ensures
        committed(current, caches, changes, blocks, tip).accounts.dom() == (
        if caches.accounts.valid_for(current.block_hash) {
            current.accounts.dom().union(caches.accounts.data.dom())
        } else {
            current.accounts.dom()
        }),
        committed(current, caches, changes, blocks, tip).storage.dom() == (
        if caches.storage.valid_for(current.block_hash) {
            current.storage.dom().union(caches.storage.data.dom())
        } else {
            current.storage.dom()
        }),
{
    let usable = StateSnapshotView { stale: false, ..current };
    let run = executed(merged(usable, caches, current.block_hash), changes);
    lemma_blocks_leave_accounts(run, blocks);
    assert(run.accounts.dom() =~= if caches.accounts.valid_for(current.block_hash) {
        current.accounts.dom().union(caches.accounts.data.dom())
    } else {
        current.accounts.dom()
    });
    assert(run.storage.dom() =~= if caches.storage.valid_for(current.block_hash) {
        current.storage.dom().union(caches.storage.data.dom())
    } else {
        current.storage.dom()
    });
}

proof fn lemma_blocks_leave_accounts(state: StateSnapshotView, blocks: Seq<BlockDataView>)
    ensures
        with_blocks(state, blocks).accounts == state.accounts,
        with_blocks(state, blocks).storage == state.storage,
        with_blocks(state, blocks).code == state.code,
        with_blocks(state, blocks).changed_accounts_history == state.changed_accounts_history,
        with_blocks(state, blocks).stale == state.stale,
    decreases blocks.len(),
{
    if blocks.len() > 0 {
        lemma_blocks_leave_accounts(state, blocks.drop_last());
    }
}

/// Values that were read at another block than the one before the commit
/// leave no trace.
pub proof fn foreign_caches_leave_no_trace(
    current: StateSnapshotView,
    caches: CachesView,
    changes: ExecutionChangesView,
    blocks: Seq<BlockDataView>,
    tip: ChainTip,
)
    requires
        !caches.accounts.valid_for(current.block_hash),
        !caches.storage.valid_for(current.block_hash),
        !caches.block_hashes.valid_for(current.block_hash),
    ensures
        committed(current, caches, changes, blocks, tip) == committed(
            current,
            CachesView {
                accounts: TaggedCacheView { data: Map::empty(), ..caches.accounts },
                storage: TaggedCacheView { data: Map::empty(), ..caches.storage },
                block_hashes: TaggedCacheView { data: Map::empty(), ..caches.block_hashes },
                ..caches
            },
            changes,
            blocks,
            tip,
        ),
{
    assert(current.accounts.union_prefer_right(Map::empty()) =~= current.accounts);
    assert(current.storage.union_prefer_right(Map::empty()) =~= current.storage);
    assert(current.block_hashes.union_prefer_right(Map::empty()) =~= current.block_hashes);
}

/// Whether all code lies under its own hash.
pub open spec fn code_is_faithful(code: Map<B256, Seq<u8>>) -> bool {
    forall|hash: B256| #[trigger] code.contains_key(hash) ==> code_hash_of(code[hash]) == hash
}

/// The code that the notification brings.
pub open spec fn code_brought(notification: NotificationView) -> Map<B256, Seq<u8>> {
    match notification {
        NotificationView::ChainCommitted { new } => new.bundle.contracts,
        NotificationView::ChainReorged { old: _, new } => new.bundle.contracts,
        NotificationView::ChainReverted { old: _ } => Map::empty(),
    }
}

/// No notification puts code under a hash that is not its own, and none makes
/// known code unknown.
pub proof fn code_stays_faithful(
    current: StateSnapshotView,
    caches: CachesView,
    notification: NotificationView,
)
    requires
        code_is_faithful(current.code),
        code_is_faithful(caches.code),
        code_is_faithful(code_brought(notification)),
    ensures
        code_is_faithful(next_snapshot(current, caches, notification).code),
        current.code.dom().subset_of(next_snapshot(current, caches, notification).code.dom()),
{
    let next = next_snapshot(current, caches, notification);
    match notification {
        NotificationView::ChainCommitted { new } => {
            let (base, taken) = commit_basis(current, caches);
            let usable = StateSnapshotView { stale: false, ..base };
            let run = executed(merged(usable, taken, base.block_hash), new.execution_changes());
            lemma_blocks_leave_accounts(run, new.block_data());
        },
        NotificationView::ChainReorged { old: replaced, new } => {
            let run = executed(kept_up_to(current, replaced.ancestor()), new.execution_changes());
            lemma_blocks_leave_accounts(run, new.block_data());
        },
        NotificationView::ChainReverted { old: _ } => {},
    }
    assert forall|hash: B256| #[trigger] next.code.contains_key(hash) implies code_hash_of(
        next.code[hash],
    ) == hash by {
        if code_brought(notification).contains_key(hash) {
        } else if caches.code.contains_key(hash) {
        } else {
            assert(current.code.contains_key(hash));
        }
    }
}

/// Whether the history has no entry of any of these blocks.
pub open spec fn unrecorded(history: Seq<BlockReceiptsView>, blocks: Seq<BlockDataView>) -> bool {
    forall|i: int, j: int|
        0 <= i < history.len() && 0 <= j < blocks.len() ==> (#[trigger] history[i]).block != (
        #[trigger] blocks[j]).number
}

/// What the history says of a block.
pub open spec fn receipts_entry(block: BlockDataView) -> BlockReceiptsView {
    BlockReceiptsView {
        block: block.number,
        receipts: block.receipts,
        tx_hashes: block.tx_hashes,
    }
}

proof fn lemma_receipts_pushed(state: StateSnapshotView, blocks: Seq<BlockDataView>)
    ensures
        with_blocks(state, blocks).receipts_history.len() == (if state.receipts_history.len()
            + blocks.len() <= RECEIPTS_HISTORY_DEPTH || blocks.len() == 0 {
            state.receipts_history.len() + blocks.len()
        } else {
            RECEIPTS_HISTORY_DEPTH as nat
        }),
        ({
            let next = with_blocks(state, blocks).receipts_history;
            let all = state.receipts_history + blocks.map_values(
                |block: BlockDataView| receipts_entry(block),
            );
            next == all.skip(all.len() - next.len())
        }),
    decreases blocks.len(),
{
    let entries = blocks.map_values(|block: BlockDataView| receipts_entry(block));
    let all = state.receipts_history + entries;
    let next = with_blocks(state, blocks).receipts_history;
    if blocks.len() > 0 {
        lemma_receipts_pushed(state, blocks.drop_last());
        let earlier = with_blocks(state, blocks.drop_last()).receipts_history;
        assert(entries.drop_last() =~= blocks.drop_last().map_values(
            |block: BlockDataView| receipts_entry(block),
        ));
        assert(next =~= all.skip(all.len() - next.len()));
    } else {
        assert(next =~= all.skip(all.len() - next.len()));
    }
}

/// What a commit or a reorg brings of a block's receipts is found under the
/// block's number, as long as it is among the latest that the history can
/// hold and the number is not recorded twice.
pub proof fn new_receipts_are_found(
    state: StateSnapshotView,
    blocks: Seq<BlockDataView>,
    i: int,
)
    requires
        0 <= i < blocks.len(),
        blocks.len() - i <= RECEIPTS_HISTORY_DEPTH,
        unrecorded(state.receipts_history, blocks),
        forall|j: int, k: int|
            0 <= j < k < blocks.len() ==> (#[trigger] blocks[j]).number != (
            #[trigger] blocks[k]).number,
    ensures
        with_block_data(state, blocks).receipts_at(blocks[i].number) == Some(
            receipts_entry(blocks[i]),
        ),
{
    let entries = blocks.map_values(|block: BlockDataView| receipts_entry(block));
    let all = state.receipts_history + entries;
    let next = with_blocks(state, blocks).receipts_history;
    lemma_receipts_pushed(state, blocks);
    lookup_finds_oldest::<BlockReceipts>(next, blocks[i].number);
    let dropped = all.len() - next.len();
    let at = state.receipts_history.len() + i - dropped;
    assert(next[at] == all[at + dropped]);
    assert(all[at + dropped] == entries[i]);
    assert forall|j: int| 0 <= j < next.len() && j != at implies (#[trigger] next[j]).block
        != blocks[i].number by {
        assert(next[j] == all[j + dropped]);
        if j + dropped < state.receipts_history.len() {
            assert(state.receipts_history[j + dropped].block != blocks[i].number);
        } else {
            let k = j + dropped - state.receipts_history.len();
            assert(all[j + dropped] == entries[k]);
            assert(blocks[k].number != blocks[i].number);
        }
    }
}

/// The accounts that a commit changed are found under the number of its tip,
/// unless that number is recorded already.
pub proof fn changed_accounts_are_found(
    current: StateSnapshotView,
    caches: CachesView,
    changes: ExecutionChangesView,
    blocks: Seq<BlockDataView>,
    tip: ChainTip,
)
    requires
        current.changed_accounts_at(tip.number) is None,
    ensures
        committed(current, caches, changes, blocks, tip).changed_accounts_at(tip.number) == Some(
            BlockChangedAccountsView {
                block: tip.number,
                accounts: sorted_members(changes.accounts.dom()),
            },
        ),
{
    let usable = StateSnapshotView { stale: false, ..current };
    let run = executed(merged(usable, caches, current.block_hash), changes);
    lemma_blocks_leave_accounts(run, blocks);
    lookup_finds_oldest::<BlockChangedAccounts>(current.changed_accounts_history, tip.number);
    pushed_is_found::<BlockChangedAccounts>(
        current.changed_accounts_history,
        BlockChangedAccountsView {
            block: tip.number,
            accounts: sorted_members(changes.accounts.dom()),
        },
    );
}

/// A reorg forgets the receipts of the replaced blocks: what is recorded
/// afterwards is of a block up to the common ancestor or of a new one.
pub proof fn reorg_forgets_replaced_receipts(
    current: StateSnapshotView,
    common_ancestor: u64,
    changes: ExecutionChangesView,
    blocks: Seq<BlockDataView>,
    tip: ChainTip,
    block: u64,
)
    requires
        block > common_ancestor,
        forall|i: int| 0 <= i < blocks.len() ==> (#[trigger] blocks[i]).number != block,
    ensures
        reorged(current, common_ancestor, changes, blocks, tip).receipts_at(block) is None,
{
    let kept = executed(kept_up_to(current, common_ancestor), changes);
    let next = with_blocks(kept, blocks).receipts_history;
    let entries = blocks.map_values(|data: BlockDataView| receipts_entry(data));
    let all = kept.receipts_history + entries;
    lemma_receipts_pushed(kept, blocks);
    lookup_finds_oldest::<BlockReceipts>(next, block);
    cutoff_keeps_the_rest::<BlockReceipts>(current.receipts_history, common_ancestor, block);
    lookup_finds_oldest::<BlockReceipts>(kept.receipts_history, block);
    let dropped = all.len() - next.len();
    assert forall|j: int| 0 <= j < next.len() implies (#[trigger] next[j]).block != block by {
        assert(next[j] == all[j + dropped]);
        if j + dropped < kept.receipts_history.len() {
            assert(kept.receipts_history[j + dropped].block != block);
        } else {
            let k = j + dropped - kept.receipts_history.len();
            assert(all[j + dropped] == entries[k]);
            assert(blocks[k].number != block);
        }
    }
}

/// A revert leaves the histories up to the common ancestor as they were and
/// forgets the rest, holds no account and no slot, and is stale.
pub proof fn revert_goes_back(current: StateSnapshotView, common_ancestor: u64, block: u64)
    ensures
        reverted(current, common_ancestor).stale,
        reverted(current, common_ancestor).accounts == Map::<Address, AccountInfoView>::empty(),
        reverted(current, common_ancestor).storage == Map::<(Address, U256), U256>::empty(),
        reverted(current, common_ancestor).code == current.code,
        reverted(current, common_ancestor).receipts_at(block) == (if block <= common_ancestor {
            current.receipts_at(block)
        } else {
            None
        }),
        reverted(current, common_ancestor).changed_accounts_at(block) == (if block
            <= common_ancestor {
            current.changed_accounts_at(block)
        } else {
            None
        }),
{
    cutoff_keeps_the_rest::<BlockReceipts>(current.receipts_history, common_ancestor, block);
    cutoff_keeps_the_rest::<BlockChangedAccounts>(
        current.changed_accounts_history,
        common_ancestor,
        block,
    );
}

/// Whether the hashes that are held up to a block are those of the chain.
pub open spec fn hashes_agree_up_to(
    snapshot: StateSnapshotView,
    cutoff: u64,
    world: World,
) -> bool {
    forall|number: u64|
        number <= cutoff && #[trigger] snapshot.block_hashes.contains_key(number)
            ==> snapshot.block_hashes[number] == (world.hashes)(number)
}

/// Whether the notification tells what the chain did: its new blocks are the
/// chain's, and the blocks up to the common ancestor of a reorg stay on it. Of
/// a commit to a usable snapshot also that what the fetch managers hand over
/// was read at the block that the snapshot is at, and that the commit is all
/// there is between the state of the chain before and the one after. Nothing
/// is asked of what was read or missed while the snapshot was stale.
pub open spec fn tells_the_truth(
    snapshot: StateSnapshotView,
    caches: CachesView,
    notification: NotificationView,
    before: World,
    after: World,
) -> bool {
    match notification {
        NotificationView::ChainCommitted { new } => {
            &&& on_chain(new.block_data(), after)
            &&& !snapshot.stale ==> {
                &&& caches_agree(caches, snapshot.block_hash, before)
                &&& leads(before, new.execution_changes(), after)
                &&& forall|number: u64|
                    (#[trigger] (before.hashes)(number)) == (after.hashes)(number) || exists|i: int|
                        0 <= i < new.block_data().len() && (#[trigger] new.block_data()[i]).number
                            == number
            }
        },
        NotificationView::ChainReorged { old: replaced, new } => {
            &&& on_chain(new.block_data(), after)
            &&& forall|number: u64|
                number <= replaced.ancestor() ==> (#[trigger] (before.hashes)(number)) == (
                after.hashes)(number)
        },
        NotificationView::ChainReverted { old: _ } => true,
    }
}

/// All that a usable state holds is as on the chain, whatever notifications
/// came: gaps, refused chains, reorgs and reverts among them. What is taken has
/// to tell the truth; nothing is asked of what is refused.
pub proof fn usable_state_is_that_of_the_chain(
    manager: ChangesetManagerView,
    events: Seq<(CachesView, NotificationView)>,
    worlds: Seq<World>,
)
    requires
        worlds.len() == events.len() + 1,
        !manager.state.snapshot.stale ==> snapshot_agrees(manager.state.snapshot, worlds[0]),
        forall|i: int|
            0 <= i < events.len() && applied_chain(
                (#[trigger] manager.after_all(events.take(i))).state.snapshot,
                events[i].1,
            ) is Some ==> tells_the_truth(
                manager.after_all(events.take(i)).state.snapshot,
                events[i].0,
                events[i].1,
                worlds[i],
                worlds[i + 1],
            ),
        !manager.after_all(events).state.snapshot.stale,
    ensures
        snapshot_agrees(manager.after_all(events).state.snapshot, worlds.last()),
    decreases events.len(),
{
    if events.len() > 0 {
        let earlier = events.drop_last();
        let last = events.len() - 1;
        assert(events.take(last) =~= earlier);
        let current = manager.after_all(events.take(last)).state.snapshot;
        let (caches, notification) = events[last];
        let (before, after) = (worlds[last], worlds[last + 1]);
        if !current.stale {
            assert forall|i: int|
                0 <= i < earlier.len() && applied_chain(
                    (#[trigger] manager.after_all(earlier.take(i))).state.snapshot,
                    earlier[i].1,
                ) is Some implies tells_the_truth(
                manager.after_all(earlier.take(i)).state.snapshot,
                earlier[i].0,
                earlier[i].1,
                worlds.drop_last()[i],
                worlds.drop_last()[i + 1],
            ) by {
                assert(earlier.take(i) =~= events.take(i));
                let _ = manager.after_all(events.take(i));
            }
            usable_state_is_that_of_the_chain(manager, earlier, worlds.drop_last());
            assert(snapshot_agrees(current, before));
        }
        assert(tells_the_truth(current, caches, notification, before, after));
        match notification {
            NotificationView::ChainCommitted { new } => {
                if current.stale {
                    recovery_is_in_step(current, caches, new, after);
                } else {
                    commit_stays_in_step(
                        current,
                        caches,
                        new.execution_changes(),
                        new.block_data(),
                        new.tip(),
                        before,
                        after,
                    );
                }
            },
            NotificationView::ChainReorged { old: replaced, new } => {
                assert forall|number: u64|
                    number <= replaced.ancestor() && #[trigger] current.block_hashes.contains_key(
                        number,
                    ) implies current.block_hashes[number] == (after.hashes)(number) by {
                    let _ = (before.hashes)(number);
                }
                reorg_stays_in_step(
                    current,
                    replaced.ancestor(),
                    new.execution_changes(),
                    new.block_data(),
                    new.tip(),
                    after,
                );
            },
            NotificationView::ChainReverted { old: _ } => {},
        }
    }
}

/// What a stale state holds once a commit made it usable is as on the chain,
/// whatever it held before and whatever was missed.
pub proof fn recovery_is_in_step(
    current: StateSnapshotView,
    caches: CachesView,
    new: ChainView,
    after: World,
)
    requires
        current.stale,
        on_chain(new.block_data(), after),
    ensures
        snapshot_agrees(
            next_snapshot(current, caches, NotificationView::ChainCommitted { new }),
            after,
        ),
{
    any_commit_recovers(current, caches, new);
}

/// As long as every notification brings a chain that is taken, the state is
/// usable.
pub proof fn usable_while_nothing_is_refused(
    manager: ChangesetManagerView,
    events: Seq<(CachesView, NotificationView)>,
)
    requires
        !manager.state.snapshot.stale,
        forall|i: int|
            0 <= i < events.len() ==> applied_chain(
                (#[trigger] manager.after_all(events.take(i))).state.snapshot,
                events[i].1,
            ) is Some,
    ensures
        !manager.after_all(events).state.snapshot.stale,
    decreases events.len(),
{
    if events.len() > 0 {
        let earlier = events.drop_last();
        let last = events.len() - 1;
        assert forall|i: int| 0 <= i < earlier.len() implies applied_chain(
            (#[trigger] manager.after_all(earlier.take(i))).state.snapshot,
            earlier[i].1,
        ) is Some by {
            assert(earlier.take(i) =~= events.take(i));
            let _ = manager.after_all(events.take(i));
        }
        usable_while_nothing_is_refused(manager, earlier);
        assert(events.take(last) =~= earlier);
        let current = manager.after_all(events.take(last)).state.snapshot;
        if let NotificationView::ChainCommitted { new } = events[last].1 {
            any_taken_commit_is_usable(current, events[last].0, new);
        }
    }
}

/// A commit that is taken leaves the state usable.
pub proof fn any_taken_commit_is_usable(
    current: StateSnapshotView,
    caches: CachesView,
    new: ChainView,
)
    requires
        takes_commit(current, new),
    ensures
        !next_snapshot(current, caches, NotificationView::ChainCommitted { new }).stale,
{
    let (base, taken) = commit_basis(current, caches);
    let usable = StateSnapshotView { stale: false, ..base };
    let run = executed(merged(usable, taken, base.block_hash), new.execution_changes());
    lemma_blocks_leave_accounts(run, new.block_data());
}

/// What a fetch manager hands over agrees with the chain where a merge takes
/// it over: its values are those that the node gave at the block of the tag,
/// and only a tag that is the snapshot's block is merged.
pub proof fn flushed_values_agree<K, M, C>(
    manager: FetchManagerView<K, M, C>,
    read: spec_fn(B256, K) -> M,
    current_hash: B256,
)
    requires
        manager.remembers(read),
        (TaggedCacheView { block_hash: manager.tag, data: manager.cache }).valid_for(current_hash),
    ensures
        forall|key: K| #[trigger]
            manager.cache.contains_key(key) ==> manager.cache[key] == read(current_hash, key),
{
}

/// What a merge takes over of a cache that was read at the current block, and
/// of no other: its values replace those that are held, and everything else
/// stays. Code is always taken over.
pub proof fn merge_takes_over_what_was_read_here(
    state: StateSnapshotView,
    caches: CachesView,
    current_hash: B256,
    address: Address,
    slot: (Address, U256),
    number: u64,
    hash: B256,
)
    ensures
        ({
            let next = merged(state, caches, current_hash);
            let read = caches.accounts.block_hash == current_hash
                && caches.accounts.data.contains_key(address);
            &&& next.accounts.contains_key(address) <==> read || state.accounts.contains_key(
                address,
            )
            &&& read ==> next.accounts[address] == caches.accounts.data[address]
            &&& !read && state.accounts.contains_key(address) ==> next.accounts[address]
                == state.accounts[address]
        }),
        ({
            let next = merged(state, caches, current_hash);
            let read = caches.storage.block_hash == current_hash
                && caches.storage.data.contains_key(slot);
            &&& next.storage.contains_key(slot) <==> read || state.storage.contains_key(slot)
            &&& read ==> next.storage[slot] == caches.storage.data[slot]
            &&& !read && state.storage.contains_key(slot) ==> next.storage[slot]
                == state.storage[slot]
        }),
        ({
            let next = merged(state, caches, current_hash);
            let read = caches.block_hashes.block_hash == current_hash
                && caches.block_hashes.data.contains_key(number);
            &&& next.block_hashes.contains_key(number) <==> read
                || state.block_hashes.contains_key(number)
            &&& read ==> next.block_hashes[number] == caches.block_hashes.data[number]
            &&& !read && state.block_hashes.contains_key(number) ==> next.block_hashes[number]
                == state.block_hashes[number]
        }),
        ({
            let next = merged(state, caches, current_hash);
            &&& next.code.contains_key(hash) <==> caches.code.contains_key(hash)
                || state.code.contains_key(hash)
            &&& caches.code.contains_key(hash) ==> next.code[hash] == caches.code[hash]
            &&& !caches.code.contains_key(hash) && state.code.contains_key(hash)
                ==> next.code[hash] == state.code[hash]
        }),
        ({
            let next = merged(state, caches, current_hash);
            &&& next.block == state.block
            &&& next.block_hash == state.block_hash
            &&& next.header == state.header
            &&& next.withdrawals == state.withdrawals
            &&& next.receipts_history == state.receipts_history
            &&& next.changed_accounts_history == state.changed_accounts_history
            &&& next.stale == state.stale
        }),
{
}

/// Every entry of a cache is either taken over or dropped, and counted as that:
/// all of it is taken over where it was read at the current block, none of it
/// otherwise. All code is taken over.
pub proof fn every_cache_entry_is_counted(caches: CachesView, current_hash: B256)
    ensures
        ({
            let counts = merge_totals(caches, current_hash);
            &&& counts.accounts.0 + counts.accounts.1 == caches.accounts.data.len()
            &&& caches.accounts.block_hash == current_hash ==> counts.accounts.1 == 0
            &&& caches.accounts.block_hash != current_hash ==> counts.accounts.0 == 0
            &&& counts.storage.0 + counts.storage.1 == caches.storage.data.len()
            &&& caches.storage.block_hash == current_hash ==> counts.storage.1 == 0
            &&& caches.storage.block_hash != current_hash ==> counts.storage.0 == 0
            &&& counts.block_hashes.0 + counts.block_hashes.1 == caches.block_hashes.data.len()
            &&& caches.block_hashes.block_hash == current_hash ==> counts.block_hashes.1 == 0
            &&& caches.block_hashes.block_hash != current_hash ==> counts.block_hashes.0 == 0
            &&& counts.code == caches.code.len()
        }),
{
}

/// After execution a held account is exactly what execution left it as, where
/// it says so, and otherwise what it was; the same holds of slots. Nothing
/// becomes held but new code, and nothing else changes.
pub proof fn execution_leaves_exactly_what_it_wrote(
    state: StateSnapshotView,
    changes: ExecutionChangesView,
    address: Address,
    slot: U256,
    hash: B256,
)
    ensures
        ({
            let next = executed(state, changes);
            &&& next.accounts.contains_key(address) <==> state.accounts.contains_key(address)
            &&& state.accounts.contains_key(address) ==> {
                if changes.accounts.contains_key(address)
                    && changes.accounts[address].info is Some {
                    next.accounts[address] == changes.accounts[address].info->0
                } else {
                    next.accounts[address] == state.accounts[address]
                }
            }
        }),
        ({
            let next = executed(state, changes);
            &&& next.storage.contains_key((address, slot)) <==> state.storage.contains_key(
                (address, slot),
            )
            &&& state.storage.contains_key((address, slot)) ==> {
                if changes.accounts.contains_key(address)
                    && changes.accounts[address].storage.contains_key(slot) {
                    next.storage[(address, slot)] == changes.accounts[address].storage[slot]
                } else {
                    next.storage[(address, slot)] == state.storage[(address, slot)]
                }
            }
        }),
        ({
            let next = executed(state, changes);
            &&& next.code.contains_key(hash) <==> changes.contracts.contains_key(hash)
                || state.code.contains_key(hash)
            &&& changes.contracts.contains_key(hash) ==> next.code[hash]
                == changes.contracts[hash]
            &&& !changes.contracts.contains_key(hash) && state.code.contains_key(hash)
                ==> next.code[hash] == state.code[hash]
        }),
        ({
            let next = executed(state, changes);
            &&& next.block == state.block
            &&& next.block_hash == state.block_hash
            &&& next.header == state.header
            &&& next.withdrawals == state.withdrawals
            &&& next.block_hashes == state.block_hashes
            &&& next.receipts_history == state.receipts_history
            &&& next.changed_accounts_history == state.changed_accounts_history
            &&& next.stale == state.stale
        }),
{
}

/// Where the given block is the last of its number, its hash is held under it.
proof fn lemma_hash_of_block(state: StateSnapshotView, blocks: Seq<BlockDataView>, i: int)
    requires
        0 <= i < blocks.len(),
        forall|j: int| i < j < blocks.len() ==> (#[trigger] blocks[j]).number != blocks[i].number,
    ensures
        with_blocks(state, blocks).block_hashes.contains_key(blocks[i].number),
        with_blocks(state, blocks).block_hashes[blocks[i].number] == blocks[i].hash,
    decreases blocks.len(),
{
    let earlier = blocks.drop_last();
    let last = blocks.len() - 1;
    if i < last {
        assert(blocks[last].number != blocks[i].number);
        assert(earlier[i] == blocks[i]);
        assert forall|j: int| i < j < earlier.len() implies (#[trigger] earlier[j]).number
            != earlier[i].number by {
            assert(blocks[j] == earlier[j]);
        }
        lemma_hash_of_block(state, earlier, i);
    }
}

/// Where no block has the number, what is held under it stays.
proof fn lemma_hash_of_no_block(
    state: StateSnapshotView,
    blocks: Seq<BlockDataView>,
    number: u64,
)
    requires
        forall|j: int| 0 <= j < blocks.len() ==> (#[trigger] blocks[j]).number != number,
    ensures
        with_blocks(state, blocks).block_hashes.contains_key(number)
            == state.block_hashes.contains_key(number),
        with_blocks(state, blocks).block_hashes[number] == state.block_hashes[number],
    decreases blocks.len(),
{
    if blocks.len() > 0 {
        let earlier = blocks.drop_last();
        assert(blocks[blocks.len() - 1].number != number);
        assert forall|j: int| 0 <= j < earlier.len() implies (#[trigger] earlier[j]).number
            != number by {
            assert(blocks[j] == earlier[j]);
        }
        lemma_hash_of_no_block(state, earlier, number);
    }
}

proof fn lemma_blocks_leave_header(state: StateSnapshotView, blocks: Seq<BlockDataView>)
    ensures
        with_blocks(state, blocks).block == state.block,
        with_blocks(state, blocks).block_hash == state.block_hash,
        with_blocks(state, blocks).header == state.header,
        with_blocks(state, blocks).withdrawals == state.withdrawals,
    decreases blocks.len(),
{
    if blocks.len() > 0 {
        lemma_blocks_leave_header(state, blocks.drop_last());
    }
}

/// What blocks bring besides their execution: header and withdrawals are those
/// of the last of them, and their receipts follow those that are held, of which
/// the latest 64 stay. Without blocks everything stays as it was.
pub proof fn blocks_leave_their_data(state: StateSnapshotView, blocks: Seq<BlockDataView>)
    ensures
        ({
            let next = with_block_data(state, blocks);
            let entries = blocks.map_values(
                |block: BlockDataView|
                    BlockReceiptsView {
                        block: block.number,
                        receipts: block.receipts,
                        tx_hashes: block.tx_hashes,
                    },
            );
            let all = state.receipts_history + entries;
            &&& blocks.len() == 0 ==> next == state
            &&& blocks.len() > 0 ==> {
                &&& next.header == Some(blocks[blocks.len() - 1].header)
                &&& next.withdrawals == blocks[blocks.len() - 1].withdrawals
                &&& all.len() <= 64 ==> next.receipts_history == all
                &&& all.len() > 64 ==> next.receipts_history == all.skip(all.len() - 64)
            }
            &&& next.block == state.block
            &&& next.block_hash == state.block_hash
            &&& next.accounts == state.accounts
            &&& next.storage == state.storage
            &&& next.code == state.code
            &&& next.changed_accounts_history == state.changed_accounts_history
            &&& next.stale == state.stale
        }),
{
    let entries = blocks.map_values(
        |block: BlockDataView|
            BlockReceiptsView {
                block: block.number,
                receipts: block.receipts,
                tx_hashes: block.tx_hashes,
            },
    );
    assert(entries =~= blocks.map_values(|block: BlockDataView| receipts_entry(block)));
    lemma_blocks_leave_header(state, blocks);
    lemma_blocks_leave_accounts(state, blocks);
    lemma_receipts_pushed(state, blocks);
    let all = state.receipts_history + entries;
    assert(all.skip(0) =~= all);
}

/// The hash of a block is held under its number, unless a later block has the
/// same number.
pub proof fn blocks_leave_their_hashes(
    state: StateSnapshotView,
    blocks: Seq<BlockDataView>,
    i: int,
)
    requires
        0 <= i < blocks.len(),
        forall|j: int| i < j < blocks.len() ==> (#[trigger] blocks[j]).number != blocks[i].number,
    ensures
        with_block_data(state, blocks).block_hashes.contains_key(blocks[i].number),
        with_block_data(state, blocks).block_hashes[blocks[i].number] == blocks[i].hash,
{
    lemma_hash_of_block(state, blocks, i);
}

/// The hash that is held under a number that no block has stays.
pub proof fn blocks_leave_other_hashes_alone(
    state: StateSnapshotView,
    blocks: Seq<BlockDataView>,
    number: u64,
)
    requires
        forall|j: int| 0 <= j < blocks.len() ==> (#[trigger] blocks[j]).number != number,
    ensures
        with_block_data(state, blocks).block_hashes.contains_key(number)
            == state.block_hashes.contains_key(number),
        with_block_data(state, blocks).block_hashes[number] == state.block_hashes[number],
{
    lemma_hash_of_no_block(state, blocks, number);
}

/// At a new tip the state stands at its number and hash, and the latest entry
/// of the changed accounts names the accounts that execution touched, each
/// once and in ascending order, under the number of the tip. Of the entries
/// before it the latest 63 stay, and so does everything else.
pub proof fn tip_is_noted_with_what_changed(
    state: StateSnapshotView,
    changed: Set<Address>,
    tip: ChainTip,
)
    requires
        changed.finite(),
    ensures
        ({
            let next = at_tip(state, changed, tip);
            let noted = next.changed_accounts_history;
            let held = state.changed_accounts_history;
            let accounts = noted[noted.len() - 1].accounts;
            &&& next.block == tip.number
            &&& next.block_hash == tip.hash
            &&& held.len() < 64 ==> noted.drop_last() == held
            &&& held.len() >= 64 ==> noted.drop_last() == held.skip(held.len() - 63)
            &&& noted.len() > 0
            &&& noted[noted.len() - 1].block == tip.number
            &&& accounts.no_duplicates()
            &&& accounts.to_set() == changed
            &&& forall|i: int, j: int|
                0 <= i < j < accounts.len() ==> {
                    ||| (#[trigger] accounts[i]).hi < (#[trigger] accounts[j]).hi
                    ||| accounts[i].hi == accounts[j].hi && accounts[i].lo < accounts[j].lo
                }
            &&& next.header == state.header
            &&& next.withdrawals == state.withdrawals
            &&& next.accounts == state.accounts
            &&& next.storage == state.storage
            &&& next.code == state.code
            &&& next.block_hashes == state.block_hashes
            &&& next.receipts_history == state.receipts_history
            &&& next.stale == state.stale
        }),
{
    let next = at_tip(state, changed, tip);
    let noted = next.changed_accounts_history;
    let held = state.changed_accounts_history;
    let accounts = sorted_members(changed);
    sorted_members_is_the_ascending_listing(changed, accounts);
    if held.len() < 64 {
        assert(noted.drop_last() =~= held);
    } else {
        assert(noted.drop_last() =~= held.skip(held.len() - 63));
    }
    assert forall|i: int, j: int| 0 <= i < j < accounts.len() implies {
        ||| (#[trigger] accounts[i]).hi < (#[trigger] accounts[j]).hi
        ||| accounts[i].hi == accounts[j].hi && accounts[i].lo < accounts[j].lo
    } by {
        assert(accounts[i].le(accounts[j]));
        assert(accounts[i] != accounts[j]);
    }
}

/// What stays when the chain goes back to a block: the receipts, changed
/// accounts and block hashes up to that block and all code, and nothing else.
pub proof fn going_back_keeps_the_past(current: StateSnapshotView, cutoff: u64, number: u64)
    ensures
        ({
            let kept = kept_up_to(current, cutoff);
            &&& kept.receipts_history == current.receipts_history.filter(
                |entry: BlockReceiptsView| entry.block <= cutoff,
            )
            &&& kept.changed_accounts_history == current.changed_accounts_history.filter(
                |entry: BlockChangedAccountsView| entry.block <= cutoff,
            )
            &&& kept.block_hashes.contains_key(number) <==> number <= cutoff
                && current.block_hashes.contains_key(number)
            &&& kept.block_hashes.contains_key(number) ==> kept.block_hashes[number]
                == current.block_hashes[number]
            &&& kept.code == current.code
            &&& kept.accounts == Map::<Address, AccountInfoView>::empty()
            &&& kept.storage == Map::<(Address, U256), U256>::empty()
            &&& kept.header is None
            &&& kept.withdrawals is None
            &&& kept.block == 0
            &&& kept.block_hash == (B256 { hi: 0, lo: 0 })
            &&& !kept.stale
        }),
{
    assert((|entry: BlockReceiptsView| <BlockReceipts as PerBlock>::block_of(entry) <= cutoff)
        =~= (|entry: BlockReceiptsView| entry.block <= cutoff));
    assert((|entry: BlockChangedAccountsView|
        <BlockChangedAccounts as PerBlock>::block_of(entry) <= cutoff) =~= (|
        entry: BlockChangedAccountsView,
    | entry.block <= cutoff));
}

/// What a commit that a usable state takes leaves of an account: it is held
/// exactly if it was held or was read at the block before; if the bundle gives
/// its info it is exactly that, balance, nonce, code hash and all, and
/// otherwise it is what was read or held.
pub proof fn commit_leaves_held_accounts_as_the_bundle_says(
    current: StateSnapshotView,
    caches: CachesView,
    new: ChainView,
    address: Address,
)
    requires
        !current.stale,
        takes_commit(current, new),
    ensures
        ({
            let next = next_snapshot(current, caches, NotificationView::ChainCommitted { new });
            let read = caches.accounts.block_hash == current.block_hash
                && caches.accounts.data.contains_key(address);
            let held = read || current.accounts.contains_key(address);
            &&& next.accounts.contains_key(address) <==> held
            &&& held ==> {
                if new.bundle.state.contains_key(address)
                    && new.bundle.state[address].info is Some {
                    next.accounts[address] == new.bundle.state[address].info->0
                } else if read {
                    next.accounts[address] == caches.accounts.data[address]
                } else {
                    next.accounts[address] == current.accounts[address]
                }
            }
        }),
{
    let changes = new.execution_changes();
    let usable = StateSnapshotView { stale: false, ..current };
    let run = executed(merged(usable, caches, current.block_hash), changes);
    execution_changes_are_those_of_the_bundle(new);
    lemma_blocks_leave_accounts(run, new.block_data());
}

/// What a commit that a usable state takes leaves of a slot: it is held exactly
/// if it was held or was read at the block before; if the bundle writes to it
/// it has its present value, and otherwise what was read or held.
pub proof fn commit_leaves_held_slots_as_the_bundle_says(
    current: StateSnapshotView,
    caches: CachesView,
    new: ChainView,
    address: Address,
    index: U256,
)
    requires
        !current.stale,
        takes_commit(current, new),
    ensures
        ({
            let next = next_snapshot(current, caches, NotificationView::ChainCommitted { new });
            let slot = (address, index);
            let read = caches.storage.block_hash == current.block_hash
                && caches.storage.data.contains_key(slot);
            let held = read || current.storage.contains_key(slot);
            &&& next.storage.contains_key(slot) <==> held
            &&& held ==> {
                if new.bundle.state.contains_key(address)
                    && new.bundle.state[address].storage.contains_key(index) {
                    next.storage[slot] == new.bundle.state[address].storage[index].present_value
                } else if read {
                    next.storage[slot] == caches.storage.data[slot]
                } else {
                    next.storage[slot] == current.storage[slot]
                }
            }
        }),
{
    let changes = new.execution_changes();
    let usable = StateSnapshotView { stale: false, ..current };
    let run = executed(merged(usable, caches, current.block_hash), changes);
    execution_changes_are_those_of_the_bundle(new);
    lemma_blocks_leave_accounts(run, new.block_data());
}

/// What a commit that is taken leaves of code: what the bundle brings, what the
/// fetch managers hand over and what was known, the first of these where they
/// name the same hash.
pub proof fn commit_leaves_all_code(
    current: StateSnapshotView,
    caches: CachesView,
    new: ChainView,
    hash: B256,
)
    requires
        takes_commit(current, new),
    ensures
        ({
            let next = next_snapshot(current, caches, NotificationView::ChainCommitted { new });
            &&& next.code.contains_key(hash) <==> {
                ||| new.bundle.contracts.contains_key(hash)
                ||| caches.code.contains_key(hash)
                ||| current.code.contains_key(hash)
            }
            &&& next.code.contains_key(hash) ==> {
                if new.bundle.contracts.contains_key(hash) {
                    next.code[hash] == new.bundle.contracts[hash]
                } else if caches.code.contains_key(hash) {
                    next.code[hash] == caches.code[hash]
                } else {
                    next.code[hash] == current.code[hash]
                }
            }
        }),
{
    let changes = new.execution_changes();
    let (base, taken) = commit_basis(current, caches);
    let usable = StateSnapshotView { stale: false, ..base };
    let run = executed(merged(usable, taken, base.block_hash), changes);
    execution_changes_are_those_of_the_bundle(new);
    lemma_blocks_leave_accounts(run, new.block_data());
}

/// After a commit or a reorg that is taken, header and withdrawals are those of
/// the last of the new blocks that comes with its receipts. Where that is the
/// last block, the header's number and hash are those that the state is at.
pub proof fn header_is_that_of_the_new_tip(
    current: StateSnapshotView,
    caches: CachesView,
    notification: NotificationView,
    new: ChainView,
)
    requires
        applied_chain(current, notification) == Some(new),
        new.blocks.len() > 0,
    ensures
        ({
            let next = next_snapshot(current, caches, notification);
            let last = new.blocks[new.blocks.len() - 1];
            &&& new.receipts.len() >= new.blocks.len() ==> {
                &&& next.header == Some(last.header)
                &&& next.withdrawals == last.withdrawals
                &&& next.header->0.header.number == next.block
                &&& next.header->0.hash == next.block_hash
            }
            &&& 0 < new.receipts.len() < new.blocks.len() ==> {
                &&& next.header == Some(new.blocks[new.receipts.len() - 1].header)
                &&& next.withdrawals == new.blocks[new.receipts.len() - 1].withdrawals
            }
            &&& next.block == last.header.header.number
            &&& next.block_hash == last.header.hash
        }),
{
    block_data_is_that_of_the_blocks(new);
    chain_ends_are_its_outer_blocks(new);
    let count = new.block_data().len();
    if count > 0 {
        let _ = new.block_data()[count - 1];
    }
}

/// A commit to a usable state that comes without any receipts leaves header and
/// withdrawals as they were; after a reorg, or after a commit to a stale state,
/// there are none.
pub proof fn header_without_receipts(
    current: StateSnapshotView,
    caches: CachesView,
    notification: NotificationView,
    new: ChainView,
)
    requires
        applied_chain(current, notification) == Some(new),
        new.receipts.len() == 0,
    ensures
        ({
            let next = next_snapshot(current, caches, notification);
            if notification is ChainCommitted && !current.stale {
                next.header == current.header && next.withdrawals == current.withdrawals
            } else {
                next.header is None && next.withdrawals is None
            }
        }),
{
    block_data_is_that_of_the_blocks(new);
}

/// After a commit or a reorg that is taken, the hash of each new block that
/// comes with its receipts is held under its number, unless a later one has the
/// same number.
pub proof fn new_block_hashes_are_held(
    current: StateSnapshotView,
    caches: CachesView,
    notification: NotificationView,
    new: ChainView,
    i: int,
)
    requires
        applied_chain(current, notification) == Some(new),
        0 <= i < new.blocks.len(),
        i < new.receipts.len(),
        forall|j: int|
            i < j < new.blocks.len() ==> (#[trigger] new.blocks[j]).header.header.number
                != new.blocks[i].header.header.number,
    ensures
        ({
            let next = next_snapshot(current, caches, notification);
            &&& next.block_hashes.contains_key(new.blocks[i].header.header.number)
            &&& next.block_hashes[new.blocks[i].header.header.number] == new.blocks[i].header.hash
        }),
{
    let blocks = new.block_data();
    block_data_is_that_of_the_blocks(new);
    assert(blocks[i].number == new.blocks[i].header.header.number);
    assert forall|j: int| i < j < blocks.len() implies (#[trigger] blocks[j]).number
        != blocks[i].number by {
        assert(new.blocks[j].header.header.number != new.blocks[i].header.header.number);
    }
    let changes = new.execution_changes();
    match notification {
        NotificationView::ChainReorged { old: replaced, new: _ } => {
            lemma_hash_of_block(
                executed(kept_up_to(current, replaced.ancestor()), changes),
                blocks,
                i,
            );
        },
        _ => {
            let (base, taken) = commit_basis(current, caches);
            let usable = StateSnapshotView { stale: false, ..base };
            lemma_hash_of_block(
                executed(merged(usable, taken, base.block_hash), changes),
                blocks,
                i,
            );
        },
    }
}

/// After a commit that a usable state takes, a number that no new block has
/// keeps the hash that was read at the block before or was held.
pub proof fn commit_leaves_other_block_hashes_alone(
    current: StateSnapshotView,
    caches: CachesView,
    new: ChainView,
    number: u64,
)
    requires
        !current.stale,
        takes_commit(current, new),
        forall|j: int|
            0 <= j < new.blocks.len() ==> (#[trigger] new.blocks[j]).header.header.number
                != number,
    ensures
        ({
            let next = next_snapshot(current, caches, NotificationView::ChainCommitted { new });
            let read = caches.block_hashes.block_hash == current.block_hash
                && caches.block_hashes.data.contains_key(number);
            &&& next.block_hashes.contains_key(number) <==> read
                || current.block_hashes.contains_key(number)
            &&& read ==> next.block_hashes[number] == caches.block_hashes.data[number]
            &&& !read && current.block_hashes.contains_key(number) ==> next.block_hashes[number]
                == current.block_hashes[number]
        }),
{
    let usable = StateSnapshotView { stale: false, ..current };
    let run = executed(merged(usable, caches, current.block_hash), new.execution_changes());
    lemma_no_block_has(new, number);
    lemma_hash_of_no_block(run, new.block_data(), number);
}

proof fn lemma_no_block_has(new: ChainView, number: u64)
    requires
        forall|j: int|
            0 <= j < new.blocks.len() ==> (#[trigger] new.blocks[j]).header.header.number
                != number,
    ensures
        forall|j: int|
            0 <= j < new.block_data().len() ==> (#[trigger] new.block_data()[j]).number != number,
{
    let blocks = new.block_data();
    block_data_is_that_of_the_blocks(new);
    assert forall|j: int| 0 <= j < blocks.len() implies (#[trigger] blocks[j]).number != number by {
        assert(new.blocks[j].header.header.number != number);
    }
}

/// After a reorg that is taken, a number that no new block has keeps the hash
/// that was held if it lies before the first replaced block, and has none
/// otherwise. The genesis block is before every other.
pub proof fn reorg_keeps_block_hashes_of_the_past(
    current: StateSnapshotView,
    caches: CachesView,
    replaced: ChainView,
    new: ChainView,
    number: u64,
)
    requires
        takes_reorg(current, replaced),
        replaced.blocks.len() > 0,
        forall|j: int|
            0 <= j < new.blocks.len() ==> (#[trigger] new.blocks[j]).header.header.number
                != number,
    ensures
        ({
            let next = next_snapshot(
                current,
                caches,
                NotificationView::ChainReorged { old: replaced, new },
            );
            let kept = (number < replaced.blocks[0].header.header.number || number == 0)
                && current.block_hashes.contains_key(number);
            &&& next.block_hashes.contains_key(number) <==> kept
            &&& kept ==> next.block_hashes[number] == current.block_hashes[number]
        }),
{
    let run = executed(kept_up_to(current, replaced.ancestor()), new.execution_changes());
    chain_ends_are_its_outer_blocks(replaced);
    lemma_no_block_has(new, number);
    lemma_hash_of_no_block(run, new.block_data(), number);
}

/// After a reorg that is taken no account and no slot is held, code is what was
/// known and what the new chain brings, and a usable state stays usable and a
/// stale one stale.
pub proof fn reorg_drops_what_was_held(
    current: StateSnapshotView,
    caches: CachesView,
    replaced: ChainView,
    new: ChainView,
    hash: B256,
)
    requires
        takes_reorg(current, replaced),
    ensures
        ({
            let next = next_snapshot(
                current,
                caches,
                NotificationView::ChainReorged { old: replaced, new },
            );
            &&& next.accounts == Map::<Address, AccountInfoView>::empty()
            &&& next.storage == Map::<(Address, U256), U256>::empty()
            &&& next.stale == current.stale
            &&& next.code.contains_key(hash) <==> new.bundle.contracts.contains_key(hash)
                || current.code.contains_key(hash)
            &&& new.bundle.contracts.contains_key(hash) ==> next.code[hash]
                == new.bundle.contracts[hash]
            &&& !new.bundle.contracts.contains_key(hash) && current.code.contains_key(hash)
                ==> next.code[hash] == current.code[hash]
        }),
{
    let run = executed(kept_up_to(current, replaced.ancestor()), new.execution_changes());
    assert(run.accounts =~= Map::<Address, AccountInfoView>::empty());
    assert(run.storage =~= Map::<(Address, U256), U256>::empty());
    execution_changes_are_those_of_the_bundle(new);
    lemma_blocks_leave_accounts(run, new.block_data());
}

/// After a commit or a reorg that is taken, the receipts of the new blocks that
/// come with them follow those that stay, in the order of the blocks, and the
/// latest 64 entries are held. All entries stay in a commit to a usable state,
/// none in a commit to a stale one, and those before the first replaced block
/// in a reorg.
pub proof fn new_receipts_follow_those_that_stay(
    current: StateSnapshotView,
    caches: CachesView,
    notification: NotificationView,
    new: ChainView,
)
    requires
        applied_chain(current, notification) == Some(new),
        notification matches NotificationView::ChainReorged { old: replaced, new: _ }
            ==> replaced.blocks.len() > 0,
    ensures
        ({
            let next = next_snapshot(current, caches, notification);
            let count = if new.blocks.len() <= new.receipts.len() {
                new.blocks.len()
            } else {
                new.receipts.len()
            };
            let stay = match notification {
                NotificationView::ChainReorged { old: replaced, new: _ } => {
                    let first = replaced.blocks[0].header.header.number;
                    current.receipts_history.filter(
                        |entry: BlockReceiptsView| entry.block < first || entry.block == 0,
                    )
                },
                _ => if current.stale {
                    Seq::<BlockReceiptsView>::empty()
                } else {
                    current.receipts_history
                },
            };
            let all = stay + Seq::new(
                count,
                |i: int|
                    BlockReceiptsView {
                        block: new.blocks[i].header.header.number,
                        receipts: new.receipts[i],
                        tx_hashes: new.blocks[i].tx_hashes,
                    },
            );
            if count == 0 {
                next.receipts_history == stay
            } else if all.len() <= 64 {
                next.receipts_history == all
            } else {
                next.receipts_history == all.skip(all.len() - 64)
            }
        }),
{
    let blocks = new.block_data();
    let changes = new.execution_changes();
    let entries = blocks.map_values(
        |block: BlockDataView|
            BlockReceiptsView {
                block: block.number,
                receipts: block.receipts,
                tx_hashes: block.tx_hashes,
            },
    );
    block_data_is_that_of_the_blocks(new);
    assert(entries =~= Seq::new(
        blocks.len(),
        |i: int|
            BlockReceiptsView {
                block: new.blocks[i].header.header.number,
                receipts: new.receipts[i],
                tx_hashes: new.blocks[i].tx_hashes,
            },
    )) by {
        assert forall|i: int| 0 <= i < blocks.len() implies entries[i] == (BlockReceiptsView {
            block: new.blocks[i].header.header.number,
            receipts: new.receipts[i],
            tx_hashes: new.blocks[i].tx_hashes,
        }) by {
            let _ = blocks[i];
        }
    }
    match notification {
        NotificationView::ChainReorged { old: replaced, new: _ } => {
            let first = replaced.blocks[0].header.header.number;
            let cutoff = replaced.ancestor();
            chain_ends_are_its_outer_blocks(replaced);
            going_back_keeps_the_past(current, cutoff, 0);
            assert((|entry: BlockReceiptsView| entry.block <= cutoff) =~= (|
                entry: BlockReceiptsView,
            | entry.block < first || entry.block == 0));
            blocks_leave_their_data(executed(kept_up_to(current, cutoff), changes), blocks);
        },
        _ => {
            let (base, taken) = commit_basis(current, caches);
            let usable = StateSnapshotView { stale: false, ..base };
            blocks_leave_their_data(
                executed(merged(usable, taken, base.block_hash), changes),
                blocks,
            );
        },
    }
}

/// After a commit or a reorg that is taken, the latest entry of the changed
/// accounts is that of the new tip and names the accounts of the bundle, each
/// once and in ascending order. Of the entries before it the latest 63 of those
/// that stay are held: all in a commit to a usable state, none in a commit to a
/// stale one, and those before the first replaced block in a reorg.
pub proof fn changed_accounts_are_those_of_the_bundle(
    current: StateSnapshotView,
    caches: CachesView,
    notification: NotificationView,
    new: ChainView,
)
    requires
        applied_chain(current, notification) == Some(new),
        new.blocks.len() > 0,
        new.bundle.state.dom().finite(),
        notification matches NotificationView::ChainReorged { old: replaced, new: _ }
            ==> replaced.blocks.len() > 0,
    ensures
        ({
            let noted = next_snapshot(current, caches, notification).changed_accounts_history;
            let stay = match notification {
                NotificationView::ChainReorged { old: replaced, new: _ } => {
                    let first = replaced.blocks[0].header.header.number;
                    current.changed_accounts_history.filter(
                        |entry: BlockChangedAccountsView| entry.block < first || entry.block == 0,
                    )
                },
                _ => if current.stale {
                    Seq::<BlockChangedAccountsView>::empty()
                } else {
                    current.changed_accounts_history
                },
            };
            let accounts = noted[noted.len() - 1].accounts;
            &&& noted.len() > 0
            &&& noted[noted.len() - 1].block == new.blocks[new.blocks.len()
                - 1].header.header.number
            &&& accounts.no_duplicates()
            &&& accounts.to_set() == new.bundle.state.dom()
            &&& forall|i: int, j: int|
                0 <= i < j < accounts.len() ==> {
                    ||| (#[trigger] accounts[i]).hi < (#[trigger] accounts[j]).hi
                    ||| accounts[i].hi == accounts[j].hi && accounts[i].lo < accounts[j].lo
                }
            &&& stay.len() < 64 ==> noted.drop_last() == stay
            &&& stay.len() >= 64 ==> noted.drop_last() == stay.skip(stay.len() - 63)
        }),
{
    let blocks = new.block_data();
    let changes = new.execution_changes();
    let tip = new.tip();
    execution_changes_are_those_of_the_bundle(new);
    chain_ends_are_its_outer_blocks(new);
    match notification {
        NotificationView::ChainReorged { old: replaced, new: _ } => {
            let first = replaced.blocks[0].header.header.number;
            let cutoff = replaced.ancestor();
            chain_ends_are_its_outer_blocks(replaced);
            going_back_keeps_the_past(current, cutoff, 0);
            assert((|entry: BlockChangedAccountsView| entry.block <= cutoff) =~= (|
                entry: BlockChangedAccountsView,
            | entry.block < first || entry.block == 0));
            let run = executed(kept_up_to(current, cutoff), changes);
            blocks_leave_their_data(run, blocks);
            tip_is_noted_with_what_changed(
                with_block_data(run, blocks),
                changes.accounts.dom(),
                tip,
            );
        },
        _ => {
            let (base, taken) = commit_basis(current, caches);
            let usable = StateSnapshotView { stale: false, ..base };
            let run = executed(merged(usable, taken, base.block_hash), changes);
            blocks_leave_their_data(run, blocks);
            tip_is_noted_with_what_changed(
                with_block_data(run, blocks),
                changes.accounts.dom(),
                tip,
            );
        },
    }
}

/// After a revert the state is stale at the block before the first one that was
/// taken back, whose hash is not known. It has no header, holds no account and
/// no slot, and keeps code, and of receipts, changed accounts and block hashes
/// those up to that block.
pub proof fn revert_leaves_only_the_past(
    current: StateSnapshotView,
    caches: CachesView,
    taken_back: ChainView,
    number: u64,
)
    requires
        taken_back.blocks.len() > 0,
    ensures
        ({
            let next = next_snapshot(
                current,
                caches,
                NotificationView::ChainReverted { old: taken_back },
            );
            let first = taken_back.blocks[0].header.header.number;
            let kept = (number < first || number == 0) && current.block_hashes.contains_key(number);
            &&& next.stale
            &&& first > 0 ==> next.block + 1 == first
            &&& first == 0 ==> next.block == 0
            &&& next.block_hash == (B256 { hi: 0, lo: 0 })
            &&& next.header is None
            &&& next.withdrawals is None
            &&& next.accounts == Map::<Address, AccountInfoView>::empty()
            &&& next.storage == Map::<(Address, U256), U256>::empty()
            &&& next.code == current.code
            &&& next.block_hashes.contains_key(number) <==> kept
            &&& kept ==> next.block_hashes[number] == current.block_hashes[number]
            &&& next.receipts_history == current.receipts_history.filter(
                |entry: BlockReceiptsView| entry.block < first || entry.block == 0,
            )
            &&& next.changed_accounts_history == current.changed_accounts_history.filter(
                |entry: BlockChangedAccountsView| entry.block < first || entry.block == 0,
            )
        }),
{
    let first = taken_back.blocks[0].header.header.number;
    let cutoff = taken_back.ancestor();
    chain_ends_are_its_outer_blocks(taken_back);
    going_back_keeps_the_past(current, cutoff, number);
    assert((|entry: BlockReceiptsView| entry.block <= cutoff) =~= (|entry: BlockReceiptsView|
        entry.block < first || entry.block == 0));
    assert((|entry: BlockChangedAccountsView| entry.block <= cutoff) =~= (|
        entry: BlockChangedAccountsView,
    | entry.block < first || entry.block == 0));
}

/// Which commits are taken: any by a state that is stale, at block zero or
/// without a hash; by another state only a chain whose first block is the child
/// of the block that the state is at, or a chain that reaches back to that
/// block and contains it among the blocks that come with their receipts.
pub proof fn taken_commit_connects(current: StateSnapshotView, new: ChainView)
    requires
        new.blocks.len() > 0,
    ensures
        takes_commit(current, new) <==> {
            ||| current.stale
            ||| current.block == 0
            ||| current.block_hash == (B256 { hi: 0, lo: 0 })
            ||| {
                &&& new.blocks[0].header.header.number == current.block + 1
                &&& new.blocks[0].header.header.parent_hash == current.block_hash
            }
            ||| {
                &&& new.blocks[0].header.header.number <= current.block
                &&& exists|i: int|
                    0 <= i < new.blocks.len() && i < new.receipts.len() && (
                    #[trigger] new.blocks[i]).header.header.number == current.block
                        && new.blocks[i].header.hash == current.block_hash
            }
        },
{
    lemma_listed_block(current, new);
}

/// The block that the state is at is listed exactly if a block of the chain
/// that comes with its receipts has its number and hash.
proof fn lemma_listed_block(current: StateSnapshotView, chain: ChainView)
    ensures
        chain.numbered_hashes().contains((current.block, current.block_hash)) <==> exists|i: int|
            0 <= i < chain.blocks.len() && i < chain.receipts.len() && (
            #[trigger] chain.blocks[i]).header.header.number == current.block
                && chain.blocks[i].header.hash == current.block_hash,
{
    let listed = chain.numbered_hashes();
    if listed.contains((current.block, current.block_hash)) {
        let i = choose|i: int|
            0 <= i < listed.len() && listed[i] == (current.block, current.block_hash);
        assert(chain.blocks[i].header.header.number == current.block);
    }
    if exists|i: int|
        0 <= i < chain.blocks.len() && i < chain.receipts.len() && (
        #[trigger] chain.blocks[i]).header.header.number == current.block
            && chain.blocks[i].header.hash == current.block_hash {
        let i = choose|i: int|
            0 <= i < chain.blocks.len() && i < chain.receipts.len() && (
            #[trigger] chain.blocks[i]).header.header.number == current.block
                && chain.blocks[i].header.hash == current.block_hash;
        assert(listed[i] == (current.block, current.block_hash));
    }
}

/// Which reorgs are taken: any by a state that is at block zero or without a
/// hash; by another state only those whose replaced chain ends in the block
/// that the state is at, or contains it among the blocks that come with their
/// receipts.
pub proof fn taken_reorg_replaces_the_held_block(current: StateSnapshotView, replaced: ChainView)
    requires
        replaced.blocks.len() > 0,
    ensures
        takes_reorg(current, replaced) <==> {
            ||| current.block == 0
            ||| current.block_hash == (B256 { hi: 0, lo: 0 })
            ||| replaced.blocks[replaced.blocks.len() - 1].header.hash == current.block_hash
            ||| exists|i: int|
                0 <= i < replaced.blocks.len() && i < replaced.receipts.len() && (
                #[trigger] replaced.blocks[i]).header.header.number == current.block
                    && replaced.blocks[i].header.hash == current.block_hash
        },
{
    lemma_listed_block(current, replaced);
}

/// A notification is applied exactly if it is a commit or a reorg that the state
/// takes, and then with the chain that it brings.
pub proof fn applied_chain_is_the_new_one(
    current: StateSnapshotView,
    notification: NotificationView,
)
    ensures
        match notification {
            NotificationView::ChainCommitted { new } => applied_chain(current, notification) == (
            if takes_commit(current, new) {
                Some(new)
            } else {
                None
            }),
            NotificationView::ChainReorged { old: replaced, new } => applied_chain(
                current,
                notification,
            ) == (if takes_reorg(current, replaced) {
                Some(new)
            } else {
                None
            }),
            NotificationView::ChainReverted { old: _ } => applied_chain(
                current,
                notification,
            ) is None,
        },
{
}

/// What others are told of the state is where it then stands: its block, its
/// hash and its generation. They are told so unless the notification was
/// refused.
pub proof fn others_are_told_where_the_state_stands(
    manager: ChangesetManagerView,
    caches: CachesView,
    notification: NotificationView,
)
    ensures
        ({
            let next = manager.after(caches, notification).state;
            let refused = applied_chain(manager.state.snapshot, notification) is None
                && !(notification is ChainReverted);
            match update_after(manager.state, notification) {
                Some(update) => {
                    &&& !refused
                    &&& update.block == next.snapshot.block
                    &&& update.block_hash == next.snapshot.block_hash
                    &&& update.generation == next.generation
                },
                None => refused,
            }
        }),
{
}

/// Whenever a notification brings a chain that is taken, by commit or by reorg
/// alike, and logs are wanted, the logs of all receipts of its blocks are
/// passed on in their order, unless there are none. No others ever are.
pub proof fn logs_of_every_taken_chain_are_passed_on(
    manager: ChangesetManagerView,
    notification: NotificationView,
    wants_logs: bool,
)
    ensures
        ({
            let passed_on = logs_after(manager.state, notification, wants_logs);
            let new = match notification {
                NotificationView::ChainCommitted { new } => if takes_commit(
                    manager.state.snapshot,
                    new,
                ) {
                    Some(new)
                } else {
                    None
                },
                NotificationView::ChainReorged { old: replaced, new } => if takes_reorg(
                    manager.state.snapshot,
                    replaced,
                ) {
                    Some(new)
                } else {
                    None
                },
                NotificationView::ChainReverted { old: _ } => None,
            };
            match new {
                Some(taken) => {
                    let count = if taken.blocks.len() <= taken.receipts.len() {
                        taken.blocks.len() as int
                    } else {
                        taken.receipts.len() as int
                    };
                    let emitted = taken.receipts.take(count).flatten().map_values(
                        |receipt: ReceiptView| receipt.logs,
                    ).flatten();
                    if wants_logs && emitted.len() > 0 {
                        passed_on == Some(emitted)
                    } else {
                        passed_on is None
                    }
                },
                None => passed_on is None,
            }
        }),
{
    match notification {
        NotificationView::ChainCommitted { new } => {
            logs_are_those_of_all_receipts(new);
        },
        NotificationView::ChainReorged { old: _, new } => {
            logs_are_those_of_all_receipts(new);
        },
        NotificationView::ChainReverted { old: _ } => {},
    }
}

/// A reorg passes on the same logs as a commit of the same chain does.
pub proof fn reorg_and_commit_pass_on_the_same_logs(
    manager: ChangesetManagerView,
    other: ChangesetManagerView,
    replaced: ChainView,
    new: ChainView,
    wants_logs: bool,
)
    requires
        takes_reorg(manager.state.snapshot, replaced),
        takes_commit(other.state.snapshot, new),
    ensures
        logs_after(
            manager.state,
            NotificationView::ChainReorged { old: replaced, new },
            wants_logs,
        ) == logs_after(other.state, NotificationView::ChainCommitted { new }, wants_logs),
{
}

/// What became of the caches is told of each commit that is taken and of nothing
/// else. Every entry counts as taken over or as dropped, all entries of a cache
/// alike: as taken over only where the state is usable and the cache was read
/// at its block. All code is taken over.
pub proof fn caches_are_accounted_for(
    manager: ChangesetManagerView,
    caches: CachesView,
    notification: NotificationView,
)
    ensures
        ({
            let snapshot = manager.state.snapshot;
            match counts_after(snapshot, caches, notification) {
                Some(counts) => {
                    &&& notification is ChainCommitted
                    &&& applied_chain(snapshot, notification) is Some
                    &&& counts.accounts.0 + counts.accounts.1 == caches.accounts.data.len()
                    &&& counts.storage.0 + counts.storage.1 == caches.storage.data.len()
                    &&& counts.block_hashes.0 + counts.block_hashes.1
                        == caches.block_hashes.data.len()
                    &&& counts.code == caches.code.len()
                    &&& if snapshot.stale || caches.accounts.block_hash != snapshot.block_hash {
                        counts.accounts.0 == 0
                    } else {
                        counts.accounts.1 == 0
                    }
                    &&& if snapshot.stale || caches.storage.block_hash != snapshot.block_hash {
                        counts.storage.0 == 0
                    } else {
                        counts.storage.1 == 0
                    }
                    &&& if snapshot.stale || caches.block_hashes.block_hash
                        != snapshot.block_hash {
                        counts.block_hashes.0 == 0
                    } else {
                        counts.block_hashes.1 == 0
                    }
                },
                None => !(notification is ChainCommitted) || applied_chain(
                    snapshot,
                    notification,
                ) is None,
            }
        }),
{
}

/// A notification changes nothing of the configuration, moves the generation on
/// by one, and ends the wait for readiness exactly if it brings a chain that is
/// taken, which is told with the number of the chain's last block.
pub proof fn notification_leaves_the_rest_alone(
    manager: ChangesetManagerView,
    caches: CachesView,
    notification: NotificationView,
)
    ensures
        ({
            let next = manager.after(caches, notification);
            let applied = applied_chain(manager.state.snapshot, notification);
            &&& next.state.fetch == manager.state.fetch
            &&& next.state.generation == (manager.state.generation + 1) % 0x1_0000_0000_0000_0000
            &&& next.state.snapshot == next_snapshot(
                manager.state.snapshot,
                caches,
                notification,
            )
            &&& next.awaiting_ready <==> manager.awaiting_ready && applied is None
            &&& match manager.ready_after(notification) {
                Some(block) => {
                    &&& manager.awaiting_ready
                    &&& applied matches Some(new)
                    &&& block == new.blocks.last().header.header.number
                },
                None => !manager.awaiting_ready || applied is None,
            }
        }),
{
}

/// Only a usable state at the greatest block number cannot judge a notification,
/// and then only a commit.
pub proof fn almost_everything_can_be_judged(
    manager: ChangesetManagerView,
    notification: NotificationView,
)
    ensures
        !manager.can_judge(notification) <==> {
            &&& notification is ChainCommitted
            &&& !manager.state.snapshot.stale
            &&& manager.state.snapshot.block == 0xffff_ffff_ffff_ffff
            &&& manager.state.snapshot.block_hash != (B256 { hi: 0, lo: 0 })
        },
{
}

/// A commit, built from what execution did and what its blocks bring, leaves a
/// usable state at the given tip. What was held, or was read at the block
/// before, has exactly the values that execution left, where it left any.
/// Header and withdrawals are those of the last block, if there is one.
pub proof fn built_commit_has_what_execution_left(
    current: StateSnapshotView,
    caches: CachesView,
    changes: ExecutionChangesView,
    blocks: Seq<BlockDataView>,
    tip: ChainTip,
    address: Address,
    index: U256,
)
    ensures
        ({
            let next = committed(current, caches, changes, blocks, tip);
            let read = caches.accounts.block_hash == current.block_hash
                && caches.accounts.data.contains_key(address);
            let held = read || current.accounts.contains_key(address);
            &&& next.accounts.contains_key(address) <==> held
            &&& held ==> {
                if changes.accounts.contains_key(address)
                    && changes.accounts[address].info is Some {
                    next.accounts[address] == changes.accounts[address].info->0
                } else if read {
                    next.accounts[address] == caches.accounts.data[address]
                } else {
                    next.accounts[address] == current.accounts[address]
                }
            }
        }),
        ({
            let next = committed(current, caches, changes, blocks, tip);
            let slot = (address, index);
            let read = caches.storage.block_hash == current.block_hash
                && caches.storage.data.contains_key(slot);
            let held = read || current.storage.contains_key(slot);
            &&& next.storage.contains_key(slot) <==> held
            &&& held ==> {
                if changes.accounts.contains_key(address)
                    && changes.accounts[address].storage.contains_key(index) {
                    next.storage[slot] == changes.accounts[address].storage[index]
                } else if read {
                    next.storage[slot] == caches.storage.data[slot]
                } else {
                    next.storage[slot] == current.storage[slot]
                }
            }
        }),
        ({
            let next = committed(current, caches, changes, blocks, tip);
            &&& !next.stale
            &&& next.block == tip.number
            &&& next.block_hash == tip.hash
            &&& blocks.len() > 0 ==> {
                &&& next.header == Some(blocks[blocks.len() - 1].header)
                &&& next.withdrawals == blocks[blocks.len() - 1].withdrawals
            }
            &&& blocks.len() == 0 ==> {
                &&& next.header == current.header
                &&& next.withdrawals == current.withdrawals
            }
        }),
{
    let usable = StateSnapshotView { stale: false, ..current };
    let run = executed(merged(usable, caches, current.block_hash), changes);
    lemma_blocks_leave_accounts(run, blocks);
    lemma_blocks_leave_header(run, blocks);
}

/// A reorg, built from what execution did and what the new blocks bring, leaves
/// a state at the given tip that can be used. It holds no account and no slot,
/// and header and withdrawals are those of the last block, if there is one.
pub proof fn built_reorg_stands_on_the_new_blocks(
    current: StateSnapshotView,
    common_ancestor: u64,
    changes: ExecutionChangesView,
    blocks: Seq<BlockDataView>,
    tip: ChainTip,
)
    ensures
        ({
            let next = reorged(current, common_ancestor, changes, blocks, tip);
            &&& !next.stale
            &&& next.block == tip.number
            &&& next.block_hash == tip.hash
            &&& next.accounts == Map::<Address, AccountInfoView>::empty()
            &&& next.storage == Map::<(Address, U256), U256>::empty()
            &&& blocks.len() > 0 ==> {
                &&& next.header == Some(blocks[blocks.len() - 1].header)
                &&& next.withdrawals == blocks[blocks.len() - 1].withdrawals
            }
            &&& blocks.len() == 0 ==> next.header is None && next.withdrawals is None
        }),
{
    let run = executed(kept_up_to(current, common_ancestor), changes);
    assert(run.accounts =~= Map::<Address, AccountInfoView>::empty());
    assert(run.storage =~= Map::<(Address, U256), U256>::empty());
    lemma_blocks_leave_accounts(run, blocks);
    lemma_blocks_leave_header(run, blocks);
}

/// A revert, built for a block, leaves a stale state at that block without a
/// hash, a header or withdrawals.
pub proof fn built_revert_stands_at_the_ancestor(current: StateSnapshotView, common_ancestor: u64)
    ensures
        ({
            let next = reverted(current, common_ancestor);
            &&& next.stale
            &&& next.block == common_ancestor
            &&& next.block_hash == (B256 { hi: 0, lo: 0 })
            &&& next.header is None
            &&& next.withdrawals is None
        }),
{
}

/// A notification that is refused drops nothing that is held: only that it
/// cannot be used any more is new.
pub proof fn refusal_keeps_every_part(
    current: StateSnapshotView,
    caches: CachesView,
    notification: NotificationView,
)
    requires
        applied_chain(current, notification) is None,
        !(notification is ChainReverted),
    ensures
        ({
            let next = next_snapshot(current, caches, notification);
            &&& next.stale
            &&& next.block == current.block
            &&& next.block_hash == current.block_hash
            &&& next.header == current.header
            &&& next.withdrawals == current.withdrawals
            &&& next.accounts == current.accounts
            &&& next.code == current.code
            &&& next.storage == current.storage
            &&& next.block_hashes == current.block_hashes
            &&& next.receipts_history == current.receipts_history
            &&& next.changed_accounts_history == current.changed_accounts_history
        }),
{
}

/// Handling a notification leaves the state that follows from it, and tells
/// others where the state then stands, unless the notification was refused.
pub proof fn handling_leaves_and_tells_what_follows(
    manager: &mut ChangesetManager,
    notification: Notification,
    caches: Caches,
    wants_logs: bool,
    reaction: Reaction,
)
    requires
        call_ensures(
            ChangesetManager::handle,
            (manager, &notification, caches, wants_logs),
            reaction,
        ),
    ensures
        final(manager)@.state.snapshot == next_snapshot(
            old(manager)@.state.snapshot,
            caches@,
            notification@,
        ),
        final(manager)@.state.generation == (old(manager)@.state.generation + 1)
            % 0x1_0000_0000_0000_0000,
        final(manager)@.state.fetch == old(manager)@.state.fetch,
        final(manager)@.awaiting_ready <==> old(manager)@.awaiting_ready && applied_chain(
            old(manager)@.state.snapshot,
            notification@,
        ) is None,
        reaction.update is None <==> applied_chain(
            old(manager)@.state.snapshot,
            notification@,
        ) is None && !(notification is ChainReverted),
        reaction.update matches Some(update) ==> {
            &&& update.block == final(manager)@.state.snapshot.block
            &&& update.block_hash == final(manager)@.state.snapshot.block_hash
            &&& update.generation == final(manager)@.state.generation
        },
        reaction.ready is Some <==> old(manager)@.awaiting_ready && applied_chain(
            old(manager)@.state.snapshot,
            notification@,
        ) is Some,
        reaction.ready matches Some(block) ==> block == final(manager)@.state.snapshot.block,
{
    others_are_told_where_the_state_stands(old(manager)@, caches@, notification@);
    notification_leaves_the_rest_alone(old(manager)@, caches@, notification@);
}

/// Once a commit to a usable state has been handled, a read of an account that
/// was held before gives the bundle's info of it with every part, where the
/// bundle gives one.
pub proof fn read_after_a_commit_gives_the_bundles_account(
    manager: &mut ChangesetManager,
    new: Chain,
    caches: Caches,
    wants_logs: bool,
    reaction: Reaction,
    state: StaticState,
    address: Address,
    res: Result<Read<Option<AccountInfo>, AccountRequest>, SimError>,
)
    requires
        !old(manager)@.state.snapshot.stale,
        takes_commit(old(manager)@.state.snapshot, new@),
        old(manager)@.state.snapshot.accounts.contains_key(address),
        new@.bundle.state.contains_key(address),
        new@.bundle.state[address].info is Some,
        call_ensures(
            ChangesetManager::handle,
            (manager, &Notification::ChainCommitted { new }, caches, wants_logs),
            reaction,
        ),
        state@ == final(manager)@.state,
        call_ensures(StaticState::basic_ref, (&state, address), res),
    ensures
        ({
            let written = new@.bundle.state[address].info->0;
            &&& res matches Ok(Read::Known(Some(info)))
            &&& info.balance == written.balance
            &&& info.nonce == written.nonce
            &&& info.code_hash == written.code_hash
            &&& info.account_id == written.account_id
            &&& info.deep_view().code == written.code
        }),
{
    let current = old(manager)@.state.snapshot;
    commit_leaves_held_accounts_as_the_bundle_says(current, caches@, new@, address);
    any_taken_commit_is_usable(current, caches@, new@);
    account_read_gives_what_is_held(state, address, res);
}

/// Once a commit to a usable state has been handled, a read of a slot that was
/// held before gives its present value in the bundle, where the bundle has the
/// slot.
pub proof fn read_after_a_commit_gives_the_present_value(
    manager: &mut ChangesetManager,
    new: Chain,
    caches: Caches,
    wants_logs: bool,
    reaction: Reaction,
    state: StaticState,
    address: Address,
    index: U256,
    res: Result<Read<U256, StorageRequest>, SimError>,
)
    requires
        !old(manager)@.state.snapshot.stale,
        takes_commit(old(manager)@.state.snapshot, new@),
        old(manager)@.state.snapshot.storage.contains_key((address, index)),
        new@.bundle.state.contains_key(address),
        new@.bundle.state[address].storage.contains_key(index),
        call_ensures(
            ChangesetManager::handle,
            (manager, &Notification::ChainCommitted { new }, caches, wants_logs),
            reaction,
        ),
        state@ == final(manager)@.state,
        call_ensures(StaticState::storage_ref, (&state, address, index), res),
    ensures
        res matches Ok(Read::Known(value)) && value
            == new@.bundle.state[address].storage[index].present_value,
{
    let current = old(manager)@.state.snapshot;
    commit_leaves_held_slots_as_the_bundle_says(current, caches@, new@, address, index);
    any_taken_commit_is_usable(current, caches@, new@);
    storage_read_gives_what_is_held(state, address, index, res);
}

/// Once a commit or a reorg has been handled that is taken and whose last block
/// comes with its receipts, the state's header is the one of that block, under
/// the number and the hash that the state is at, and the withdrawals are its
/// withdrawals.
pub proof fn header_after_handling_is_that_of_the_tip(
    manager: &mut ChangesetManager,
    notification: Notification,
    new: ChainView,
    caches: Caches,
    wants_logs: bool,
    reaction: Reaction,
    state: StaticState,
    header: Option<SealedHeader>,
    withdrawals: Option<Withdrawals>,
)
    requires
        applied_chain(old(manager)@.state.snapshot, notification@) == Some(new),
        0 < new.blocks.len() <= new.receipts.len(),
        call_ensures(
            ChangesetManager::handle,
            (manager, &notification, caches, wants_logs),
            reaction,
        ),
        state@ == final(manager)@.state,
        call_ensures(StaticState::header, (&state,), header),
        call_ensures(StaticState::withdrawals, (&state,), withdrawals),
    ensures
        ({
            let tip = new.blocks[new.blocks.len() - 1];
            &&& header.deep_view() == Some(tip.header)
            &&& withdrawals.deep_view() == tip.withdrawals
            &&& header->0.header.number == state@.snapshot.block
            &&& header->0.hash == state@.snapshot.block_hash
        }),
{
    header_is_that_of_the_new_tip(old(manager)@.state.snapshot, caches@, notification@, new);
}

/// Handling a commit or a reorg that is taken passes on the logs of all receipts
/// of the new blocks in their order, where logs are wanted and there are any;
/// handling anything else passes on none.
pub proof fn handling_passes_on_the_logs_of_new_blocks(
    manager: &mut ChangesetManager,
    notification: Notification,
    caches: Caches,
    wants_logs: bool,
    reaction: Reaction,
)
    requires
        call_ensures(
            ChangesetManager::handle,
            (manager, &notification, caches, wants_logs),
            reaction,
        ),
    ensures
        match applied_chain(old(manager)@.state.snapshot, notification@) {
            Some(new) => {
                let count = if new.blocks.len() <= new.receipts.len() {
                    new.blocks.len() as int
                } else {
                    new.receipts.len() as int
                };
                let emitted = new.receipts.take(count).flatten().map_values(
                    |receipt: ReceiptView| receipt.logs,
                ).flatten();
                if wants_logs && emitted.len() > 0 {
                    reaction.logs.deep_view() == Some(emitted)
                } else {
                    reaction.logs is None
                }
            },
            None => reaction.logs is None,
        },
{
    logs_of_every_taken_chain_are_passed_on(old(manager)@, notification@, wants_logs);
}

/// What handling says of the caches: of a commit that is taken how many entries
/// of each were taken over and dropped, which together are all of them, and of
/// anything else nothing.
pub proof fn handling_accounts_for_the_caches(
    manager: &mut ChangesetManager,
    notification: Notification,
    caches: Caches,
    wants_logs: bool,
    reaction: Reaction,
)
    requires
        call_ensures(
            ChangesetManager::handle,
            (manager, &notification, caches, wants_logs),
            reaction,
        ),
    ensures
        reaction.cache_stats is Some <==> notification is ChainCommitted && applied_chain(
            old(manager)@.state.snapshot,
            notification@,
        ) is Some,
        reaction.cache_stats matches Some(stats) ==> {
            let current = old(manager)@.state.snapshot;
            &&& stats.accounts_merged + stats.accounts_discarded == caches.accounts.data@.len()
            &&& stats.storage_merged + stats.storage_discarded == caches.storage.data@.len()
            &&& stats.block_hashes_merged + stats.block_hashes_discarded
                == caches.block_hashes.data@.len()
            &&& stats.code_merged == caches.code.data@.len()
            &&& if current.stale || caches.accounts.block_hash != current.block_hash {
                stats.accounts_merged == 0
            } else {
                stats.accounts_discarded == 0
            }
            &&& if current.stale || caches.storage.block_hash != current.block_hash {
                stats.storage_merged == 0
            } else {
                stats.storage_discarded == 0
            }
            &&& if current.stale || caches.block_hashes.block_hash != current.block_hash {
                stats.block_hashes_merged == 0
            } else {
                stats.block_hashes_discarded == 0
            }
        },
{
    caches_are_accounted_for(old(manager)@, caches@, notification@);
}

/// Applying what execution did leaves each held account and slot with exactly
/// what execution left it as, where it says so, and otherwise as it was, and
/// makes new code known.
pub proof fn applying_execution_leaves_what_it_wrote(
    state: &mut StateSnapshot,
    changes: ExecutionChanges,
    address: Address,
    index: U256,
    hash: B256,
)
    requires
        call_ensures(apply_execution_changes, (state, &changes), ()),
    ensures
        final(state)@.accounts.contains_key(address) == old(state)@.accounts.contains_key(address),
        old(state)@.accounts.contains_key(address) ==> {
            if changes@.accounts.contains_key(address)
                && changes@.accounts[address].info is Some {
                final(state)@.accounts[address] == changes@.accounts[address].info->0
            } else {
                final(state)@.accounts[address] == old(state)@.accounts[address]
            }
        },
        final(state)@.storage.contains_key((address, index)) == old(state)@.storage.contains_key(
            (address, index),
        ),
        old(state)@.storage.contains_key((address, index)) ==> {
            if changes@.accounts.contains_key(address)
                && changes@.accounts[address].storage.contains_key(index) {
                final(state)@.storage[(address, index)]
                    == changes@.accounts[address].storage[index]
            } else {
                final(state)@.storage[(address, index)] == old(state)@.storage[(address, index)]
            }
        },
        final(state)@.code.contains_key(hash) <==> changes@.contracts.contains_key(hash)
            || old(state)@.code.contains_key(hash),
        final(state)@.code.contains_key(hash) ==> {
            if changes@.contracts.contains_key(hash) {
                final(state)@.code[hash] == changes@.contracts[hash]
            } else {
                final(state)@.code[hash] == old(state)@.code[hash]
            }
        },
{
    execution_leaves_exactly_what_it_wrote(old(state)@, changes@, address, index, hash);
}

/// The states that are built for a commit, a reorg and a revert stand where they
/// are told to: the first two at the tip, with the header of the last block, the
/// last at the ancestor and stale.
pub proof fn built_states_stand_where_they_are_told(
    current: StateSnapshot,
    caches: Caches,
    common_ancestor: u64,
    changes: ExecutionChanges,
    blocks: &[BlockData],
    tip: ChainTip,
    commit: (StateSnapshot, CacheMergeStats),
    recovery: (StateSnapshot, CacheMergeStats),
    reorg: StateSnapshot,
    revert: StateSnapshot,
    marked: StateSnapshot,
)
    requires
        call_ensures(build_commit_state, (&current, caches, &changes, blocks, tip), commit),
        call_ensures(build_recovery_state, (&current, caches, &changes, blocks, tip), recovery),
        call_ensures(
            build_reorg_state,
            (&current, common_ancestor, &changes, blocks, tip),
            reorg,
        ),
        call_ensures(build_revert_state, (&current, common_ancestor), revert),
        call_ensures(mark_stale, (&current,), marked),
    ensures
        commit.0.block == tip.number && commit.0.block_hash == tip.hash && !commit.0.stale,
        recovery.0.block == tip.number && recovery.0.block_hash == tip.hash && !recovery.0.stale,
        reorg.block == tip.number && reorg.block_hash == tip.hash && !reorg.stale,
        blocks@.len() > 0 ==> {
            let last = blocks@[blocks@.len() - 1];
            &&& commit.0@.header == Some(last.header.deep_view())
            &&& commit.0@.withdrawals == last.withdrawals.deep_view()
            &&& recovery.0@.header == Some(last.header.deep_view())
            &&& recovery.0@.withdrawals == last.withdrawals.deep_view()
            &&& reorg@.header == Some(last.header.deep_view())
            &&& reorg@.withdrawals == last.withdrawals.deep_view()
        },
        recovery.0@.accounts == Map::<Address, AccountInfoView>::empty(),
        recovery.0@.storage == Map::<(Address, U256), U256>::empty(),
        reorg@.accounts == Map::<Address, AccountInfoView>::empty(),
        reorg@.storage == Map::<(Address, U256), U256>::empty(),
        revert.stale && revert.block == common_ancestor,
        revert.block_hash.hi == 0 && revert.block_hash.lo == 0,
        revert@.accounts == Map::<Address, AccountInfoView>::empty(),
        revert@.storage == Map::<(Address, U256), U256>::empty(),
        revert@.code == current@.code,
        marked.stale,
        marked@ == (StateSnapshotView { stale: true, ..current@ }),
{
    let model = blocks.deep_view();
    let address = Address { hi: 0, lo: 0 };
    let index = U256 { hi: 0, lo: 0 };
    built_commit_has_what_execution_left(
        current@,
        caches@,
        changes@,
        model,
        tip,
        address,
        index,
    );
    built_commit_has_what_execution_left(
        from_scratch(current@),
        only_code(caches@),
        changes@,
        model,
        tip,
        address,
        index,
    );
    let base = StateSnapshotView { stale: false, ..from_scratch(current@) };
    let run = executed(merged(base, only_code(caches@), base.block_hash), changes@);
    assert(run.accounts =~= Map::<Address, AccountInfoView>::empty());
    assert(run.storage =~= Map::<(Address, U256), U256>::empty());
    lemma_blocks_leave_accounts(run, model);
    built_reorg_stands_on_the_new_blocks(current@, common_ancestor, changes@, model, tip);
    going_back_keeps_the_past(current@, common_ancestor, 0);
}

/// Merging the caches takes over the values that were read at the current block
/// and no others, and counts them.
pub proof fn merging_takes_over_what_was_read_here(
    state: &mut StateSnapshot,
    caches: Caches,
    current_hash: B256,
    stats: CacheMergeStats,
    address: Address,
)
    requires
        call_ensures(merge_caches, (state, caches, current_hash), stats),
    ensures
        ({
            let read = caches.accounts.block_hash == current_hash
                && caches.accounts.data@.contains_key(address);
            &&& final(state)@.accounts.contains_key(address) == (read
                || old(state)@.accounts.contains_key(address))
            &&& read ==> final(state)@.accounts[address] == caches.accounts.data@[address]
            &&& !read && old(state)@.accounts.contains_key(address)
                ==> final(state)@.accounts[address] == old(state)@.accounts[address]
        }),
        stats.accounts_merged + stats.accounts_discarded == caches.accounts.data@.len(),
        stats.storage_merged + stats.storage_discarded == caches.storage.data@.len(),
        stats.block_hashes_merged + stats.block_hashes_discarded == caches.block_hashes.data@.len(),
        stats.code_merged == caches.code.data@.len(),
{
    merge_takes_over_what_was_read_here(
        old(state)@,
        caches@,
        current_hash,
        address,
        (address, U256 { hi: 0, lo: 0 }),
        0,
        current_hash,
    );
    every_cache_entry_is_counted(caches@, current_hash);
}

/// Taking over what blocks bring leaves the state with the header and the
/// withdrawals of the last of them.
pub proof fn applying_blocks_leaves_the_last_header(state: &mut StateSnapshot, blocks: &[BlockData])
    requires
        call_ensures(apply_block_data, (state, blocks), ()),
    ensures
        blocks@.len() == 0 ==> final(state)@ == old(state)@,
        blocks@.len() > 0 ==> {
            &&& final(state)@.header == Some(blocks@[blocks@.len() - 1].header.deep_view())
            &&& final(state)@.withdrawals == blocks@[blocks@.len() - 1].withdrawals.deep_view()
        },
        final(state)@.accounts == old(state)@.accounts,
        final(state)@.storage == old(state)@.storage,
        final(state)@.block == old(state)@.block,
        final(state)@.block_hash == old(state)@.block_hash,
        final(state)@.stale == old(state)@.stale,
{
    blocks_leave_their_data(old(state)@, blocks.deep_view());
}

/// A manager is made with the state it is given, and tells its state, whether it
/// has yet to become ready, and what it can judge.
pub proof fn manager_tells_its_state(
    state: StaticState,
    awaiting_ready: bool,
    made: ChangesetManager,
    held: &StaticState,
    awaits: bool,
    notification: Notification,
    can_judge: bool,
)
    requires
        call_ensures(ChangesetManager::new, (state, awaiting_ready), made),
        call_ensures(ChangesetManager::state, (&made,), held),
        call_ensures(ChangesetManager::awaits_ready, (&made,), awaits),
        call_ensures(ChangesetManager::can_judge, (&made, &notification), can_judge),
    ensures
        held@ == state@,
        awaits == awaiting_ready,
        !can_judge <==> {
            &&& notification is ChainCommitted
            &&& !state@.snapshot.stale
            &&& state@.snapshot.block == 0xffff_ffff_ffff_ffff
            &&& state@.snapshot.block_hash != (B256 { hi: 0, lo: 0 })
        },
{
    almost_everything_can_be_judged(made@, notification@);
}

} // verus!
