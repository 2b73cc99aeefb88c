//! What holds of a fetch manager whatever happens to it.

use vstd::prelude::*;

use crate::account::{AccountInfo, AccountInfoView};
use crate::code::Bytecode;
use crate::error::SimError;
use crate::fetch::{
    AccountCache, BlockHashCache, CodeCache, CodeRegistration, FetchMessage, StorageCache,
};
use crate::manager_core::{
    stored_value, CompletionAction, DrainEvent, FetchDone, FetchManager, FetchManagerView,
    FetchSpec, FlushAction, RequestAction,
};
use crate::managers::{
    AccountFetchManager, AccountSpec, BlockHashSpec, CodeFetchManager, CodeHints, CodeSpec,
    StorageFetchManager, StorageSpec,
};
use crate::primitives::{Address, B256, U256};

verus! {

/// What can happen to a fetch manager.
pub enum FetchEvent<K, M> {
    /// Someone asks for the value under a key, as of a block or of any.
    Requested { tag: Option<B256>, key: K },
    /// The node answers what was asked under an epoch.
    Completed { key: K, value: Option<M>, epoch: nat },
    /// What is remembered is handed over.
    Flushed,
}

impl<K, M, C> FetchManagerView<K, M, C> {
    /// The manager after the event.
    pub open spec fn after_event(
        self,
        event: FetchEvent<K, M>,
        guarded: bool,
    ) -> FetchManagerView<K, M, C> {
        match event {
            FetchEvent::Requested { tag, key } => self.requested(tag, key),
            FetchEvent::Completed { key, value, epoch } => self.completed(
                key,
                value,
                epoch,
                guarded,
            ),
            FetchEvent::Flushed => self.flushed(),
        }
    }

    /// The manager after each of the events in turn.
    pub open spec fn after_events(
        self,
        events: Seq<FetchEvent<K, M>>,
        guarded: bool,
    ) -> FetchManagerView<K, M, C>
        decreases events.len(),
    {
        if events.len() == 0 {
            self
        } else {
            self.after_events(events.drop_last(), guarded).after_event(events.last(), guarded)
        }
    }

    /// The manager after the first `n` events.
    pub open spec fn at(
        self,
        events: Seq<FetchEvent<K, M>>,
        guarded: bool,
        n: int,
    ) -> FetchManagerView<K, M, C> {
        self.after_events(events.take(n), guarded)
    }

    /// Whether every remembered value is the one that `read` gives at the
    /// block of the tag.
    pub open spec fn remembers(self, read: spec_fn(B256, K) -> M) -> bool {
        forall|key: K| #[trigger]
            self.cache.contains_key(key) ==> self.cache[key] == read(self.tag, key)
    }
}

proof fn lemma_at_next<K, M, C>(
    manager: FetchManagerView<K, M, C>,
    events: Seq<FetchEvent<K, M>>,
    guarded: bool,
    n: int,
)
    requires
        0 <= n < events.len(),
    ensures
        manager.at(events, guarded, n + 1) == manager.at(events, guarded, n).after_event(
            events[n],
            guarded,
        ),
{
    assert(events.take(n + 1).drop_last() =~= events.take(n));
    assert(events.take(n + 1).last() == events[n]);
}

/// Between two moments of the same epoch the block of the remembered values
/// does not change, and epochs never go back.
pub proof fn epoch_fixes_the_block<K, M, C>(
    manager: FetchManagerView<K, M, C>,
    events: Seq<FetchEvent<K, M>>,
    guarded: bool,
    i: int,
    j: int,
)
    requires
        0 <= i <= j <= events.len(),
    ensures
        manager.at(events, guarded, i).epoch <= manager.at(events, guarded, j).epoch,
        manager.at(events, guarded, i).epoch == manager.at(events, guarded, j).epoch ==> manager.at(
            events,
            guarded,
            i,
        ).tag == manager.at(events, guarded, j).tag,
    decreases j - i,
{
    if i < j {
        epoch_fixes_the_block(manager, events, guarded, i, j - 1);
        lemma_at_next(manager, events, guarded, j - 1);
    }
}

/// Whether the node's answer was asked for earlier, under the epoch that it
/// comes with, and is the value that `read` gives at the block that was
/// current then.
pub open spec fn answer_is_honest<K, M, C>(
    manager: FetchManagerView<K, M, C>,
    events: Seq<FetchEvent<K, M>>,
    guarded: bool,
    read: spec_fn(B256, K) -> M,
    j: int,
) -> bool {
    events[j] matches FetchEvent::Completed { key, value: Some(value), epoch } ==> exists|i: int|
        0 <= i < j && {
            let then = #[trigger] manager.at(events, guarded, i + 1);
            &&& events[i] matches FetchEvent::Requested { tag: _, key: asked }
            &&& asked == key
            &&& then.epoch == epoch
            &&& value == read(then.tag, key)
        }
}

/// Whether all answers of the node are honest.
pub open spec fn node_is_honest<K, M, C>(
    manager: FetchManagerView<K, M, C>,
    events: Seq<FetchEvent<K, M>>,
    guarded: bool,
    read: spec_fn(B256, K) -> M,
) -> bool {
    forall|j: int|
        0 <= j < events.len() ==> #[trigger] answer_is_honest(manager, events, guarded, read, j)
}

proof fn lemma_honest_prefix<K, M, C>(
    manager: FetchManagerView<K, M, C>,
    events: Seq<FetchEvent<K, M>>,
    guarded: bool,
    read: spec_fn(B256, K) -> M,
)
    requires
        events.len() > 0,
        node_is_honest(manager, events, guarded, read),
    ensures
        node_is_honest(manager, events.drop_last(), guarded, read),
{
    let earlier = events.drop_last();
    assert forall|j: int| 0 <= j < earlier.len() implies #[trigger] answer_is_honest(
        manager,
        earlier,
        guarded,
        read,
        j,
    ) by {
        assert(answer_is_honest(manager, events, guarded, read, j));
        assert(earlier[j] == events[j]);
        if let FetchEvent::Completed { key, value: Some(value), epoch } = earlier[j] {
            let i = choose|i: int|
                0 <= i < j && {
                    let then = #[trigger] manager.at(events, guarded, i + 1);
                    &&& events[i] matches FetchEvent::Requested { tag: _, key: asked }
                    &&& asked == key
                    &&& then.epoch == epoch
                    &&& value == read(then.tag, key)
                };
            assert(earlier.take(i + 1) =~= events.take(i + 1));
            assert(earlier[i] == events[i]);
            let _ = manager.at(earlier, guarded, i + 1);
        }
    }
}

/// What is remembered was all read at one block, the one of the tag, however
/// late the node's answers come.
pub proof fn remembered_values_are_of_one_block<K, M, C>(
    manager: FetchManagerView<K, M, C>,
    events: Seq<FetchEvent<K, M>>,
    read: spec_fn(B256, K) -> M,
)
    requires
        manager.remembers(read),
        node_is_honest(manager, events, true, read),
    ensures
        manager.after_events(events, true).remembers(read),
    decreases events.len(),
{
    if events.len() > 0 {
        let earlier = events.drop_last();
        let last = events.len() - 1;
        let now = manager.after_events(earlier, true);
        let next = manager.after_events(events, true);
        lemma_honest_prefix(manager, events, true, read);
        remembered_values_are_of_one_block(manager, earlier, read);
        assert(events.take(last) =~= earlier);
        if let FetchEvent::Completed { key, value: Some(value), epoch } = events.last() {
            if epoch == now.epoch {
                assert(answer_is_honest(manager, events, true, read, last));
                let i = choose|i: int|
                    0 <= i < last && {
                        let then = #[trigger] manager.at(events, true, i + 1);
                        &&& events[i] matches FetchEvent::Requested { tag: _, key: asked }
                        &&& asked == key
                        &&& then.epoch == epoch
                        &&& value == read(then.tag, key)
                    };
                epoch_fixes_the_block(manager, events, true, i + 1, last);
                assert forall|k: K| #[trigger] next.cache.contains_key(k) implies next.cache[k]
                    == read(next.tag, k) by {
                    if k != key {
                        assert(now.cache.contains_key(k));
                    }
                }
            }
        }
    }
}

/// An answer that comes within its epoch is given to whoever asks for the same
/// key at the same block afterwards, without asking the node again.
pub proof fn timely_answer_is_remembered<K, M, C>(
    manager: FetchManagerView<K, M, C>,
    key: K,
    value: M,
    guarded: bool,
    tag: Option<B256>,
)
    requires
        tag matches Some(hash) ==> hash == manager.tag,
    ensures
        ({
            let next = manager.completed(key, Some(value), manager.epoch, guarded);
            &&& next.tagged(tag).cache.contains_key(key)
            &&& next.tagged(tag).cache[key] == value
            &&& next.requested(tag, key) == next
        }),
{
}

/// An answer that comes after the epoch in which it was asked for is not
/// remembered where that matters.
pub proof fn late_answer_is_not_remembered<K, M, C>(
    manager: FetchManagerView<K, M, C>,
    key: K,
    value: Option<M>,
    epoch: nat,
)
    requires
        epoch != manager.epoch,
    ensures
        manager.completed(key, value, epoch, true).cache == manager.cache,
        manager.completed(key, value, epoch, true).tag == manager.tag,
{
}

/// A request as of another block drops all that is remembered.
pub proof fn other_block_drops_everything<K, M, C>(
    manager: FetchManagerView<K, M, C>,
    hash: B256,
    key: K,
)
    requires
        hash != manager.tag,
    ensures
        manager.requested(Some(hash), key).cache == Map::<K, M>::empty(),
        manager.requested(Some(hash), key).tag == hash,
        manager.requested(Some(hash), key).epoch == manager.epoch + 1,
{
}

/// What holds at every block is never dropped but in a flush, and is
/// remembered whenever it comes.
pub proof fn untagged_values_are_never_dropped<K, M, C>(
    manager: FetchManagerView<K, M, C>,
    event: FetchEvent<K, M>,
)
    requires
        event matches FetchEvent::Requested { tag, key: _ } ==> tag is None,
        !(event is Flushed),
    ensures
        manager.cache.dom().subset_of(manager.after_event(event, false).cache.dom()),
        event matches FetchEvent::Completed { key, value: Some(value), epoch: _ } ==> {
            &&& manager.after_event(event, false).cache.contains_key(key)
            &&& manager.after_event(event, false).cache[key] == value
        },
{
}

/// How many of the requests went to the node.
pub open spec fn issued<K, M, C>(
    manager: FetchManagerView<K, M, C>,
    events: Seq<FetchEvent<K, M>>,
    guarded: bool,
) -> nat
    decreases events.len(),
{
    if events.len() == 0 {
        0
    } else {
        let earlier = events.drop_last();
        let count = issued(manager, earlier, guarded);
        match events.last() {
            FetchEvent::Requested { tag, key } => {
                if manager.after_events(earlier, guarded).tagged(tag).cache.contains_key(key) {
                    count
                } else {
                    count + 1
                }
            },
            _ => count,
        }
    }
}

/// How many answers came.
pub open spec fn answered<K, M>(events: Seq<FetchEvent<K, M>>) -> nat
    decreases events.len(),
{
    if events.len() == 0 {
        0
    } else if events.last() is Completed {
        answered(events.drop_last()) + 1
    } else {
        answered(events.drop_last())
    }
}

/// As many requests are with the node as went there and were not answered, so
/// none are once all have been.
pub proof fn inflight_counts_open_requests<K, M, C>(
    manager: FetchManagerView<K, M, C>,
    events: Seq<FetchEvent<K, M>>,
    guarded: bool,
)
    requires
        forall|j: int|
            0 <= j < events.len() && events[j] is Completed ==> (#[trigger] manager.at(
                events,
                guarded,
                j,
            )).inflight > 0,
    ensures
        manager.after_events(events, guarded).inflight + answered(events) == manager.inflight
            + issued(manager, events, guarded),
    decreases events.len(),
{
    if events.len() > 0 {
        let earlier = events.drop_last();
        let last = events.len() - 1;
        assert forall|j: int| 0 <= j < earlier.len() && earlier[j] is Completed implies (
        #[trigger] manager.at(earlier, guarded, j)).inflight > 0 by {
            assert(earlier.take(j) =~= events.take(j));
            assert(earlier[j] == events[j]);
            assert(manager.at(events, guarded, j).inflight > 0);
        }
        inflight_counts_open_requests(manager, earlier, guarded);
        assert(events.take(last) =~= earlier);
        if events.last() is Completed {
            assert(manager.at(events, guarded, last).inflight > 0);
        }
    }
}

/// What an answer of the node says of a value to be remembered: what the kind of
/// fetch keeps of it, and nothing where the call failed.
pub proof fn only_answers_are_remembered<S: FetchSpec>(resp: S::Resp, error: SimError)
    ensures
        stored_value::<S>(Ok(resp)) == S::stored_of(resp.deep_view()),
        stored_value::<S>(Err(error)) is None,
{
}

/// Whoever asks again at the same block, after an answer that came in time and
/// of which something is remembered, is given that very answer.
pub proof fn answer_is_given_again<S: FetchSpec>(
    manager: FetchManagerView<S::Key, <S::Val as DeepView>::V, <S::Ctx as View>::V>,
    key: S::Key,
    resp: S::Resp,
    tag: Option<B256>,
)
    requires
        S::stored_of(resp.deep_view()) is Some,
        tag matches Some(hash) ==> hash == manager.tag,
    ensures
        ({
            let next = manager.completed(
                key,
                stored_value::<S>(Ok(resp)),
                manager.epoch,
                S::guarded(),
            );
            &&& next.tagged(tag).cache.contains_key(key)
            &&& S::hit_of(next.tagged(tag).cache[key]) == resp.deep_view()
        }),
{
    S::remembered_answer_is_the_answer(resp.deep_view());
}

/// A slot that the node gave in time is given again as the node gave it, and is
/// handed over as that.
pub proof fn slot_is_remembered_as_the_node_gave_it(
    manager: FetchManagerView<(Address, U256), U256, ()>,
    key: (Address, U256),
    value: U256,
    cache: StorageCache,
)
    requires
        ({
            let next = manager.completed(
                key,
                stored_value::<StorageSpec>(Ok(value)),
                manager.epoch,
                StorageSpec::guarded(),
            );
            StorageSpec::is_cache(cache, next.tag, next.cache)
        }),
    ensures
        cache.block_hash == manager.tag,
        cache.data@.contains_key(key),
        cache.data@[key] == value,
        forall|other: (Address, U256)|
            other != key ==> {
                &&& (#[trigger] cache.data@.contains_key(other)) == manager.cache.contains_key(
                    other,
                )
                &&& manager.cache.contains_key(other) ==> cache.data@[other]
                    == manager.cache[other]
            },
{
}

/// An account that the node gave in time is handed over as the node gave it.
pub proof fn account_is_remembered_as_the_node_gave_it(
    manager: FetchManagerView<Address, AccountInfoView, ()>,
    key: Address,
    info: AccountInfo,
    cache: AccountCache,
)
    requires
        ({
            let next = manager.completed(
                key,
                stored_value::<AccountSpec>(Ok(Some(info))),
                manager.epoch,
                AccountSpec::guarded(),
            );
            AccountSpec::is_cache(cache, next.tag, next.cache)
        }),
    ensures
        cache.block_hash == manager.tag,
        cache.data@.contains_key(key),
        cache.data@[key] == info.deep_view(),
{
}

/// A block hash that the node gave in time is handed over as the node gave it.
pub proof fn block_hash_is_remembered_as_the_node_gave_it(
    manager: FetchManagerView<u64, B256, ()>,
    key: u64,
    hash: B256,
    cache: BlockHashCache,
)
    requires
        ({
            let next = manager.completed(
                key,
                stored_value::<BlockHashSpec>(Ok(hash)),
                manager.epoch,
                BlockHashSpec::guarded(),
            );
            BlockHashSpec::is_cache(cache, next.tag, next.cache)
        }),
    ensures
        cache.block_hash == manager.tag,
        cache.data@.contains_key(key),
        cache.data@[key] == hash,
{
}

/// Code that the node gave is handed over byte for byte, however late it came.
pub proof fn code_is_remembered_as_the_node_gave_it(
    manager: FetchManagerView<B256, Seq<u8>, Map<B256, Address>>,
    key: B256,
    code: Bytecode,
    epoch: nat,
    cache: CodeCache,
)
    requires
        ({
            let next = manager.completed(
                key,
                stored_value::<CodeSpec>(Ok(code)),
                epoch,
                CodeSpec::guarded(),
            );
            CodeSpec::is_cache(cache, next.tag, next.cache)
        }),
    ensures
        cache.data@.contains_key(key),
        cache.data@[key] == code.deep_view(),
{
}

/// A manager starts with nothing: no values, no requests with the node, and no
/// block.
pub proof fn fresh_manager_knows_nothing<K, M, C>(ctx: C)
    ensures
        ({
            let manager = FetchManagerView::<K, M, C>::fresh(ctx);
            &&& manager.ctx == ctx
            &&& manager.cache == Map::<K, M>::empty()
            &&& manager.epoch == 0
            &&& manager.inflight == 0
            &&& manager.tag == (B256 { hi: 0, lo: 0 })
        }),
{
}

/// A request goes to the node exactly if the value is not remembered at its
/// block, and then one more is with the node. A request at the block of the
/// remembered values, or at any block, drops nothing and starts no epoch.
pub proof fn request_asks_only_for_the_unknown<K, M, C>(
    manager: FetchManagerView<K, M, C>,
    tag: Option<B256>,
    key: K,
)
    ensures
        ({
            let next = manager.requested(tag, key);
            let here = tag is None || tag == Some(manager.tag);
            &&& next.ctx == manager.ctx
            &&& next.inflight == manager.inflight || next.inflight == manager.inflight + 1
            &&& next.inflight == manager.inflight <==> here && manager.cache.contains_key(key)
            &&& here ==> {
                &&& next.tag == manager.tag
                &&& next.cache == manager.cache
                &&& next.epoch == manager.epoch
            }
            &&& !here ==> {
                &&& Some(next.tag) == tag
                &&& next.cache == Map::<K, M>::empty()
                &&& next.epoch == manager.epoch + 1
            }
            &&& next.tag == manager.tagged(tag).tag
            &&& next.cache == manager.tagged(tag).cache
            &&& next.epoch == manager.tagged(tag).epoch
            &&& manager.tagged(tag).ctx == manager.ctx
        }),
{
}

/// An answer leaves one request fewer with the node and every other value as it
/// was; it is remembered exactly if there is something to remember and it came
/// in its epoch or need not.
pub proof fn answer_touches_only_its_key<K, M, C>(
    manager: FetchManagerView<K, M, C>,
    key: K,
    value: Option<M>,
    epoch: nat,
    guarded: bool,
)
    requires
        manager.inflight > 0,
    ensures
        ({
            let next = manager.completed(key, value, epoch, guarded);
            let kept = value is Some && (!guarded || epoch == manager.epoch);
            &&& next.inflight + 1 == manager.inflight
            &&& next.ctx == manager.ctx
            &&& next.tag == manager.tag
            &&& next.epoch == manager.epoch
            &&& kept ==> next.cache == manager.cache.insert(key, value->0)
            &&& !kept ==> next.cache == manager.cache
        }),
{
}

/// A flush leaves nothing remembered and starts an epoch, so that what is still
/// with the node is not remembered; how much that is does not change.
pub proof fn flush_leaves_nothing<K, M, C>(manager: FetchManagerView<K, M, C>)
    ensures
        manager.flushed().cache == Map::<K, M>::empty(),
        manager.flushed().tag == (B256 { hi: 0, lo: 0 }),
        manager.flushed().epoch == manager.epoch + 1,
        manager.flushed().inflight == manager.inflight,
        manager.flushed().ctx == manager.ctx,
{
}

/// A manager that is given an answer in time passes it to whoever asked, and
/// gives the very same answer to whoever asks for the key at the same block
/// next, where anything of it is remembered.
pub proof fn second_reader_is_given_the_first_ones_answer<S: FetchSpec, R, Q>(
    manager: &mut FetchManager<S>,
    done: FetchDone<S::Key, S::Resp, R>,
    first: CompletionAction<S::Resp, R>,
    later: &mut FetchManager<S>,
    msg: FetchMessage<S::Req, Q>,
    second: RequestAction<S::Key, S::Resp, Q>,
)
    requires
        call_ensures(FetchManager::<S>::apply_completion::<R>, (manager, done), first),
        done.epoch == old(manager)@.epoch,
        done.result is Ok,
        S::stored_of(done.result->Ok_0.deep_view()) is Some,
        old(later)@ == final(manager)@,
        S::key_of(msg.request) == done.key,
        S::tag_of(msg.request) is None || S::tag_of(msg.request) == Some(old(manager)@.tag),
        call_ensures(FetchManager::<S>::on_request::<Q>, (later, msg), second),
    ensures
        first.respond_to == done.respond_to,
        first.result == done.result,
        second matches RequestAction::Reply { respond_to, response } && {
            &&& respond_to == msg.respond_to
            &&& response.deep_view() == done.result->Ok_0.deep_view()
        },
        final(later)@ == old(later)@,
{
    S::remembered_answer_is_the_answer(done.result->Ok_0.deep_view());
}

/// A request for what is not remembered at its block goes to the node with the
/// key, the epoch and the handle by which the answer comes back.
pub proof fn unknown_value_is_asked_of_the_node<S: FetchSpec, R>(
    manager: &mut FetchManager<S>,
    msg: FetchMessage<S::Req, R>,
    action: RequestAction<S::Key, S::Resp, R>,
)
    requires
        call_ensures(FetchManager::<S>::on_request::<R>, (manager, msg), action),
    ensures
        ({
            let tag = S::tag_of(msg.request);
            let here = tag is None || tag == Some(old(manager)@.tag);
            let known = here && old(manager)@.cache.contains_key(S::key_of(msg.request));
            &&& action is Reply <==> known
            &&& action matches RequestAction::Reply { respond_to, response } ==> {
                &&& respond_to == msg.respond_to
                &&& response.deep_view() == S::hit_of(
                    old(manager)@.cache[S::key_of(msg.request)],
                )
            }
            &&& action matches RequestAction::Fetch { call, key, epoch, respond_to } ==> {
                &&& call == S::call_of(old(manager)@.ctx, msg.request)
                &&& key == S::key_of(msg.request)
                &&& epoch == final(manager)@.epoch
                &&& respond_to == msg.respond_to
                &&& final(manager)@.inflight == old(manager)@.inflight + 1
            }
            &&& here ==> final(manager)@.cache == old(manager)@.cache && final(manager)@.epoch
                == old(manager)@.epoch
            &&& !here ==> final(manager)@.cache == Map::<S::Key, <S::Val as DeepView>::V>::empty()
                && final(manager)@.epoch == old(manager)@.epoch + 1
            &&& tag is Some ==> Some(final(manager)@.tag) == tag
            &&& final(manager)@.ctx == old(manager)@.ctx
        }),
{
    request_asks_only_for_the_unknown(
        old(manager)@,
        S::tag_of(msg.request),
        S::key_of(msg.request),
    );
}

/// An answer goes to whoever asked, with what it says of where code is found, and
/// leaves every value of another key alone. One that failed is not remembered.
pub proof fn answer_goes_to_whoever_asked<S: FetchSpec, R>(
    manager: &mut FetchManager<S>,
    done: FetchDone<S::Key, S::Resp, R>,
    action: CompletionAction<S::Resp, R>,
    other: S::Key,
)
    requires
        old(manager)@.inflight > 0,
        call_ensures(FetchManager::<S>::apply_completion::<R>, (manager, done), action),
    ensures
        action.respond_to == done.respond_to,
        action.result == done.result,
        done.result is Err ==> action.registration is None && final(manager)@.cache
            == old(manager)@.cache,
        done.result matches Ok(resp) ==> action.registration == S::registration_of(
            done.key,
            resp.deep_view(),
        ),
        other != done.key ==> {
            &&& final(manager)@.cache.contains_key(other) == old(manager)@.cache.contains_key(
                other,
            )
            &&& final(manager)@.cache[other] == old(manager)@.cache[other]
        },
        S::guarded() && done.epoch != old(manager)@.epoch ==> final(manager)@.cache
            == old(manager)@.cache,
        final(manager)@.inflight + 1 == old(manager)@.inflight,
        final(manager)@.tag == old(manager)@.tag,
        final(manager)@.epoch == old(manager)@.epoch,
        final(manager)@.ctx == old(manager)@.ctx,
{
    answer_touches_only_its_key(
        old(manager)@,
        done.key,
        stored_value::<S>(done.result),
        done.epoch as nat,
        S::guarded(),
    );
}

/// A flush hands over all that is remembered, with its block, and leaves nothing.
/// It does so at once if nothing is with the node and waits otherwise, until the
/// time is over.
pub proof fn flush_hands_over_everything<S: FetchSpec, R>(
    manager: &mut FetchManager<S>,
    action: FlushAction<S::Cache>,
    late: &mut FetchManager<S>,
    end: (Option<CompletionAction<S::Resp, R>>, FlushAction<S::Cache>),
)
    requires
        call_ensures(FetchManager::<S>::begin_flush, (manager,), action),
        call_ensures(FetchManager::<S>::on_drain::<R>, (late, DrainEvent::TimedOut), end),
    ensures
        action is Wait <==> old(manager)@.inflight > 0,
        action is Wait ==> final(manager)@ == old(manager)@,
        action matches FlushAction::HandOver(cache) ==> {
            &&& S::is_cache(cache, old(manager)@.tag, old(manager)@.cache)
            &&& final(manager)@.cache == Map::<S::Key, <S::Val as DeepView>::V>::empty()
            &&& final(manager)@.epoch == old(manager)@.epoch + 1
            &&& final(manager)@.ctx == old(manager)@.ctx
        },
        end.0 is None,
        end.1 matches FlushAction::HandOver(cache) && S::is_cache(
            cache,
            old(late)@.tag,
            old(late)@.cache,
        ),
        final(late)@.cache == Map::<S::Key, <S::Val as DeepView>::V>::empty(),
        final(late)@.epoch == old(late)@.epoch + 1,
        final(late)@.inflight == old(late)@.inflight,
        final(late)@.ctx == old(late)@.ctx,
{
    flush_leaves_nothing(old(manager)@);
    flush_leaves_nothing(old(late)@);
}

/// The flushed cache of slots holds the node's answer whole, under the address
/// and the index that were asked for and the hash of the block.
pub proof fn flushed_slot_is_the_nodes_answer<R>(
    manager: &mut StorageFetchManager,
    done: FetchDone<(Address, U256), U256, R>,
    answer: CompletionAction<U256, R>,
    later: &mut StorageFetchManager,
    cache: StorageCache,
)
    requires
        call_ensures(StorageFetchManager::apply_completion::<R>, (manager, done), answer),
        done.epoch == old(manager)@.epoch,
        old(later)@ == final(manager)@,
        call_ensures(StorageFetchManager::flush, (later,), cache),
    ensures
        cache.block_hash == old(manager)@.tag,
        done.result matches Ok(value) ==> {
            &&& cache.data@.contains_key(done.key)
            &&& cache.data@[done.key].hi == value.hi
            &&& cache.data@[done.key].lo == value.lo
        },
{
}

/// The flushed cache of accounts holds the node's answer with every part of it,
/// under the address that was asked for and the hash of the block.
pub proof fn flushed_account_is_the_nodes_answer<R>(
    manager: &mut AccountFetchManager,
    done: FetchDone<Address, Option<AccountInfo>, R>,
    answer: CompletionAction<Option<AccountInfo>, R>,
    later: &mut AccountFetchManager,
    cache: AccountCache,
)
    requires
        call_ensures(AccountFetchManager::apply_completion::<R>, (manager, done), answer),
        done.epoch == old(manager)@.epoch,
        old(later)@ == final(manager)@,
        call_ensures(AccountFetchManager::flush, (later,), cache),
    ensures
        cache.block_hash == old(manager)@.tag,
        done.result matches Ok(Some(info)) ==> {
            &&& cache.data@.contains_key(done.key)
            &&& cache.data@[done.key] == info.deep_view()
            &&& answer.registration == Some(
                CodeRegistration { code_hash: info.code_hash, address: done.key },
            )
        },
        done.result matches Ok(None) ==> {
            &&& cache.data@ == old(manager)@.cache
            &&& answer.registration is None
        },
{
}

/// A manager starts with nothing, tells its epoch and how much is with the node,
/// and takes in what it is told of where code is found without anything else
/// changing: what was told last of a hash stands.
pub proof fn manager_takes_in_where_code_is_found(
    hints: CodeHints,
    made: CodeFetchManager,
    manager: &mut CodeFetchManager,
    told: CodeRegistration,
    asked: CodeFetchManager,
    epoch: u64,
    inflight: usize,
)
    requires
        call_ensures(CodeFetchManager::new, (hints,), made),
        call_ensures(CodeFetchManager::on_side, (manager, told), ()),
        call_ensures(CodeFetchManager::epoch, (&asked,), epoch),
        call_ensures(CodeFetchManager::inflight, (&asked,), inflight),
    ensures
        made@.cache == Map::<B256, Seq<u8>>::empty(),
        made@.epoch == 0,
        made@.inflight == 0,
        made@.ctx == hints@,
        final(manager)@.ctx == old(manager)@.ctx.insert(told.code_hash, told.address),
        final(manager)@.cache == old(manager)@.cache,
        final(manager)@.tag == old(manager)@.tag,
        final(manager)@.epoch == old(manager)@.epoch,
        final(manager)@.inflight == old(manager)@.inflight,
        epoch == asked@.epoch,
        inflight == asked@.inflight,
{
}

/// An answer that comes while a flush waits is passed on and remembered as at any
/// other time, and the flush ends exactly if it was the last that was awaited:
/// then all that is remembered is handed over, this answer among it.
pub proof fn flush_waits_for_the_last_answer<S: FetchSpec, R>(
    manager: &mut FetchManager<S>,
    done: FetchDone<S::Key, S::Resp, R>,
    res: (Option<CompletionAction<S::Resp, R>>, FlushAction<S::Cache>),
)
    requires
        old(manager)@.inflight > 0,
        call_ensures(
            FetchManager::<S>::on_drain::<R>,
            (manager, DrainEvent::Completed(done)),
            res,
        ),
    ensures
        res.0 matches Some(answer) && answer.respond_to == done.respond_to && answer.result
            == done.result,
        res.1 is Wait <==> old(manager)@.inflight > 1,
        res.1 matches FlushAction::HandOver(cache) ==> {
            let kept = done.result is Ok && S::stored_of(done.result->Ok_0.deep_view()) is Some
                && (!S::guarded() || done.epoch == old(manager)@.epoch);
            &&& kept ==> S::is_cache(
                cache,
                old(manager)@.tag,
                old(manager)@.cache.insert(
                    done.key,
                    S::stored_of(done.result->Ok_0.deep_view())->0,
                ),
            )
            &&& !kept ==> S::is_cache(cache, old(manager)@.tag, old(manager)@.cache)
            &&& final(manager)@.cache == Map::<S::Key, <S::Val as DeepView>::V>::empty()
        },
{
}

} // verus!
