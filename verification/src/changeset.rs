//! The only writer of the state: what each notification makes of it.

use vstd::prelude::*;

use crate::block::{Log, LogView};
use crate::chain::{
    extract_block_data, extract_execution_changes, extract_logs, Chain, ChainView, Notification,
    NotificationView,
};
use crate::primitives::B256;
use crate::state::{next_generation, StateSnapshot, StateSnapshotView, StaticState, StaticStateView};
use crate::transitions::{
    build_commit_state, build_recovery_state, build_reorg_state, build_revert_state, committed,
    dropped_totals, mark_stale, merge_totals, recovered, reorged, reverted, CacheMergeStats,
    Caches, CachesView, MergeCounts,
};
use crate::validation::{
    commit_verdict, reorg_verdict, validate_chain_committed, validate_chain_reorged, CurrentState,
};

verus! {

/// Where the state stands after a notification.
#[derive(Clone, Copy, Debug, PartialEq, Eq, Structural)]
pub struct StateUpdate {
    pub block: u64,
    pub block_hash: B256,
    pub generation: u64,
}

impl Default for StateUpdate {
    fn default() -> (update: StateUpdate)
        ensures
            update == (StateUpdate { block: 0, block_hash: B256::zero_hash(), generation: 0 }),
    {
        StateUpdate { block: 0, block_hash: B256::zero(), generation: 0 }
    }
}

/// What is to be told to others after a notification.
pub struct Reaction {
    /// Where the state stands now, unless the notification was refused.
    pub update: Option<StateUpdate>,
    /// The logs of the new blocks, where they are wanted and there are any.
    pub logs: Option<Vec<Log>>,
    /// The tip of the first chain that was applied, once.
    pub ready: Option<u64>,
    /// What became of the caches, where a commit was taken.
    pub cache_stats: Option<CacheMergeStats>,
}

/// What a snapshot is judged by.
pub open spec fn current_of(snapshot: StateSnapshotView) -> CurrentState {
    CurrentState {
        block: snapshot.block,
        block_hash: snapshot.block_hash,
        stale: snapshot.stale,
    }
}

/// Whether the chain continues the snapshot.
pub open spec fn takes_commit(snapshot: StateSnapshotView, new: ChainView) -> bool {
    commit_verdict(current_of(snapshot), new.first().info(), new.numbered_hashes()).acceptable()
}

/// Whether the replaced chain is the one that the snapshot is on.
pub open spec fn takes_reorg(snapshot: StateSnapshotView, old_chain: ChainView) -> bool {
    reorg_verdict(
        current_of(snapshot),
        old_chain.last().info(),
        old_chain.numbered_hashes(),
    ).acceptable()
}

/// The chain that the notification brings, where the snapshot takes it.
pub open spec fn applied_chain(
    snapshot: StateSnapshotView,
    notification: NotificationView,
) -> Option<ChainView> {
    match notification {
        NotificationView::ChainCommitted { new } if takes_commit(snapshot, new) => Some(new),
        NotificationView::ChainReorged { old: replaced, new } if takes_reorg(
            snapshot,
            replaced,
        ) => Some(new),
        _ => None,
    }
}

/// The snapshot after a notification. One that the snapshot does not take
/// leaves everything as it was but makes it stale. A stale snapshot becomes
/// usable again by a commit and by nothing else, and then from scratch: nothing
/// that it held stays but code.
pub open spec fn next_snapshot(
    current: StateSnapshotView,
    caches: CachesView,
    notification: NotificationView,
) -> StateSnapshotView {
    match notification {
        NotificationView::ChainCommitted { new } => if !takes_commit(current, new) {
            StateSnapshotView { stale: true, ..current }
        } else if current.stale {
            recovered(current, caches, new.execution_changes(), new.block_data(), new.tip())
        } else {
            committed(current, caches, new.execution_changes(), new.block_data(), new.tip())
        },
        NotificationView::ChainReorged { old: replaced, new } => if takes_reorg(
            current,
            replaced,
        ) {
            StateSnapshotView {
                stale: current.stale,
                ..reorged(
                    current,
                    replaced.ancestor(),
                    new.execution_changes(),
                    new.block_data(),
                    new.tip(),
                )
            }
        } else {
            StateSnapshotView { stale: true, ..current }
        },
        NotificationView::ChainReverted { old: reverted_chain } => reverted(
            current,
            reverted_chain.ancestor(),
        ),
    }
}

/// Where the state stands after a notification, as it is told to others.
pub open spec fn update_after(
    state: StaticStateView,
    notification: NotificationView,
) -> Option<StateUpdate> {
    let generation = next_generation(state.generation);
    match (applied_chain(state.snapshot, notification), notification) {
        (Some(new), _) => Some(
            StateUpdate { block: new.tip().number, block_hash: new.tip().hash, generation },
        ),
        (None, NotificationView::ChainReverted { old: reverted_chain }) => Some(
            StateUpdate {
                block: reverted_chain.ancestor(),
                block_hash: B256::zero_hash(),
                generation,
            },
        ),
        (None, _) => None,
    }
}

/// The logs that are passed on after a notification.
pub open spec fn logs_after(
    state: StaticStateView,
    notification: NotificationView,
    wants_logs: bool,
) -> Option<Seq<LogView>> {
    match applied_chain(state.snapshot, notification) {
        Some(new) if wants_logs && new.logs().len() > 0 => Some(new.logs()),
        _ => None,
    }
}

/// What becomes of the caches, where the notification brings a commit that the
/// snapshot takes. A stale one takes over none but code.
pub open spec fn counts_after(
    snapshot: StateSnapshotView,
    caches: CachesView,
    notification: NotificationView,
) -> Option<MergeCounts> {
    match notification {
        NotificationView::ChainCommitted { new } if takes_commit(snapshot, new) => Some(
            if snapshot.stale {
                dropped_totals(caches)
            } else {
                merge_totals(caches, snapshot.block_hash)
            },
        ),
        _ => None,
    }
}

/// Keeps the state current, and knows whether it has ever been.
pub struct ChangesetManager {
    state: StaticState,
    awaiting_ready: bool,
}

/// The model of a `ChangesetManager`.
#[verifier::ext_equal]
pub struct ChangesetManagerView {
    pub state: StaticStateView,
    pub awaiting_ready: bool,
}

impl View for ChangesetManager {
    type V = ChangesetManagerView;

    closed spec fn view(&self) -> ChangesetManagerView {
        ChangesetManagerView { state: self.state@, awaiting_ready: self.awaiting_ready }
    }
}

impl ChangesetManagerView {
    /// Whether the notification can be judged. No block can follow the one
    /// with the greatest number, so a usable state is not at it.
    pub open spec fn can_judge(self, notification: NotificationView) -> bool {
        notification is ChainCommitted ==> {
            ||| current_of(self.state.snapshot).holds_nothing()
            ||| self.state.snapshot.stale
            ||| self.state.snapshot.block < u64::MAX
        }
    }

    /// The tip of the chain that makes the state ready, if this notification
    /// brings the first.
    pub open spec fn ready_after(self, notification: NotificationView) -> Option<u64> {
        match applied_chain(self.state.snapshot, notification) {
            Some(new) if self.awaiting_ready => Some(new.tip().number),
            _ => None,
        }
    }

    /// The manager after a notification.
    pub open spec fn after(
        self,
        caches: CachesView,
        notification: NotificationView,
    ) -> ChangesetManagerView {
        ChangesetManagerView {
            state: self.state.swapped(next_snapshot(self.state.snapshot, caches, notification)),
            awaiting_ready: self.awaiting_ready && applied_chain(
                self.state.snapshot,
                notification,
            ) is None,
        }
    }

    /// The manager after each of these notifications in turn, each with what
    /// the fetch managers hand over for it.
    pub open spec fn after_all(
        self,
        events: Seq<(CachesView, NotificationView)>,
    ) -> ChangesetManagerView
        decreases events.len(),
    {
        if events.len() == 0 {
            self
        } else {
            self.after_all(events.drop_last()).after(events.last().0, events.last().1)
        }
    }
}

/// What a snapshot is judged by.
fn judged_by(snapshot: &StateSnapshot) -> (current: CurrentState)
    ensures
        current == current_of(snapshot@),
{
    CurrentState { block: snapshot.block, block_hash: snapshot.block_hash, stale: snapshot.stale }
}

/// The logs of the chain, unless there are none.
fn some_logs(chain: &Chain, wants_logs: bool) -> (logs: Option<Vec<Log>>)
    ensures
        logs.deep_view() == (if wants_logs && chain@.logs().len() > 0 {
            Some(chain@.logs())
        } else {
            None
        }),
{
    if wants_logs {
        let logs = extract_logs(chain);
        if logs.len() > 0 {
            return Some(logs);
        }
    }
    None
}

impl ChangesetManager {
    pub fn new(state: StaticState, awaiting_ready: bool) -> (manager: ChangesetManager)
        ensures
            manager@ == (ChangesetManagerView { state: state@, awaiting_ready }),
    {
        ChangesetManager { state, awaiting_ready }
    }

    pub fn state(&self) -> (state: &StaticState)
        ensures
            state@ == self@.state,
    {
        &self.state
    }

    /// Whether no chain has been applied yet.
    pub fn awaits_ready(&self) -> (res: bool)
        ensures
            res == self@.awaiting_ready,
    {
        self.awaiting_ready
    }

    /// Whether the notification can be judged, which only a state at the
    /// greatest block number can fail.
    pub fn can_judge(&self, notification: &Notification) -> (res: bool)
        ensures
            res == self@.can_judge(notification@),
    {
        match notification {
            Notification::ChainCommitted { new: _ } => {
                let current = CurrentState {
                    block: self.state.block(),
                    block_hash: self.state.block_hash(),
                    stale: self.state.is_stale(),
                };
                current.is_initial() || current.stale || current.block < u64::MAX
            },
            _ => true,
        }
    }

    fn take_ready(&mut self, block: u64) -> (ready: Option<u64>)
        ensures
            final(self)@ == (ChangesetManagerView { awaiting_ready: false, ..old(self)@ }),
            ready == (if old(self)@.awaiting_ready {
                Some(block)
            } else {
                None
            }),
    {
        if self.awaiting_ready {
            self.awaiting_ready = false;
            Some(block)
        } else {
            None
        }
    }

    /// Turns the state into what the notification makes of it. The caches are
    /// what the fetch managers hand over when they are flushed for it.
    pub fn handle(
        &mut self,
        notification: &Notification,
        caches: Caches,
        wants_logs: bool,
    ) -> (reaction: Reaction)
        requires
            old(self)@.can_judge(notification@),
        ensures
            final(self)@ == old(self)@.after(caches@, notification@),
            reaction.update == update_after(old(self)@.state, notification@),
            reaction.logs.deep_view() == logs_after(old(self)@.state, notification@, wants_logs),
            reaction.ready == old(self)@.ready_after(notification@),
            match reaction.cache_stats {
                Some(stats) => counts_after(
                    old(self)@.state.snapshot,
                    caches@,
                    notification@,
                ) == Some(stats@),
                None => counts_after(old(self)@.state.snapshot, caches@, notification@) is None,
            },
    {
        let current = self.state.snapshot();
        match notification {
            Notification::ChainCommitted { new } => {
                let verdict = validate_chain_committed(
                    judged_by(&current),
                    new.first().info(),
                    new.numbered_hashes(),
                );
                if !verdict.is_acceptable() {
                    self.state.swap(mark_stale(&current));
                    return Reaction { update: None, logs: None, ready: None, cache_stats: None };
                }
                let changes = extract_execution_changes(new);
                let blocks = extract_block_data(new);
                let block_slice = blocks.as_slice();
                assert(block_slice.deep_view() =~= blocks.deep_view());
                let tip = new.tip();
                let (new_state, stats) = if current.stale {
                    build_recovery_state(&current, caches, &changes, block_slice, tip)
                } else {
                    build_commit_state(&current, caches, &changes, block_slice, tip)
                };
                self.state.swap(new_state);
                let update = StateUpdate {
                    block: tip.number,
                    block_hash: tip.hash,
                    generation: self.state.generation(),
                };
                let logs = some_logs(new, wants_logs);
                let ready = self.take_ready(tip.number);
                Reaction { update: Some(update), logs, ready, cache_stats: Some(stats) }
            },
            Notification::ChainReorged { old: replaced, new } => {
                let verdict = validate_chain_reorged(
                    judged_by(&current),
                    replaced.last().info(),
                    replaced.numbered_hashes(),
                );
                if !verdict.is_acceptable() {
                    self.state.swap(mark_stale(&current));
                    return Reaction { update: None, logs: None, ready: None, cache_stats: None };
                }
                let changes = extract_execution_changes(new);
                let blocks = extract_block_data(new);
                let block_slice = blocks.as_slice();
                assert(block_slice.deep_view() =~= blocks.deep_view());
                let tip = new.tip();
                let mut new_state = build_reorg_state(
                    &current,
                    replaced.ancestor(),
                    &changes,
                    block_slice,
                    tip,
                );
                new_state.stale = current.stale;
                self.state.swap(new_state);
                let update = StateUpdate {
                    block: tip.number,
                    block_hash: tip.hash,
                    generation: self.state.generation(),
                };
                let logs = some_logs(new, wants_logs);
                let ready = self.take_ready(tip.number);
                Reaction { update: Some(update), logs, ready, cache_stats: None }
            },
            Notification::ChainReverted { old: reverted_chain } => {
                let common_ancestor: u64 = reverted_chain.ancestor();
                self.state.swap(build_revert_state(&current, common_ancestor));
                let update = StateUpdate {
                    block: common_ancestor,
                    block_hash: B256::zero(),
                    generation: self.state.generation(),
                };
                Reaction { update: Some(update), logs: None, ready: None, cache_stats: None }
            },
        }
    }
}

} // verus!
