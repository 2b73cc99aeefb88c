//! What every fetch manager does: answer from its cache, or have the node
//! asked and remember the answer as long as it holds.

use vstd::prelude::*;

use crate::error::SimError;
use crate::fetch::{CodeRegistration, FetchConfig, FetchMessage};
use crate::primitives::{Address, Duplicate, B256, U256};
use crate::table::{Table, TableKey};

verus! {

/// What the node is asked.
#[derive(Clone, Copy, Debug, PartialEq, Eq, Structural)]
pub enum RpcCall {
    Account { address: Address, block: u64 },
    Code { code_hash: B256, address_hint: Option<Address>, block: u64 },
    Storage { address: Address, index: U256, block: u64 },
    BlockHash { number: u64 },
}

/// What one kind of fetch is about.
pub trait FetchSpec: Sized {
    type Req;

    type Key: TableKey;

    type Val: Duplicate;

    type Resp: DeepView;

    type Cache;

    type Ctx: View;

    type Side;

    /// Whether an answer is remembered only if the block has not changed since
    /// it was asked for.
    spec fn guarded() -> bool;

    fn epoch_guarded() -> (res: bool)
        ensures
            res == Self::guarded(),
    ;

    spec fn permits_of(fetch: FetchConfig) -> usize;

    /// How many requests may be with the node at once.
    fn permits(fetch: &FetchConfig) -> (permits: usize)
        ensures
            permits == Self::permits_of(*fetch),
    ;

    spec fn tag_of(req: Self::Req) -> Option<B256>;

    /// The hash of the block that the request is about, if it is about one.
    fn tag(req: &Self::Req) -> (tag: Option<B256>)
        ensures
            tag == Self::tag_of(*req),
    ;

    spec fn key_of(req: Self::Req) -> Self::Key;

    /// What the answer is remembered under.
    fn key(req: &Self::Req) -> (key: Self::Key)
        ensures
            key == Self::key_of(*req),
    ;

    spec fn hit_of(value: <Self::Val as DeepView>::V) -> <Self::Resp as DeepView>::V;

    /// The answer that a remembered value gives.
    fn hit(value: &Self::Val) -> (resp: Self::Resp)
        ensures
            resp.deep_view() == Self::hit_of(value.deep_view()),
    ;

    spec fn stored_of(resp: <Self::Resp as DeepView>::V) -> Option<<Self::Val as DeepView>::V>;

    /// What is remembered of an answer.
    fn store(resp: &Self::Resp) -> (value: Option<Self::Val>)
        ensures
            value.deep_view() == Self::stored_of(resp.deep_view()),
    ;

    /// What is remembered of an answer gives that same answer again.
    proof fn remembered_answer_is_the_answer(resp: <Self::Resp as DeepView>::V)
        ensures
            Self::stored_of(resp) matches Some(value) ==> Self::hit_of(value) == resp,
    ;

    spec fn registration_of(
        key: Self::Key,
        resp: <Self::Resp as DeepView>::V,
    ) -> Option<CodeRegistration>;

    /// What an answer says of where code is to be found.
    fn on_success(key: &Self::Key, resp: &Self::Resp) -> (registration: Option<CodeRegistration>)
        ensures
            registration == Self::registration_of(*key, resp.deep_view()),
    ;

    spec fn ctx_after(
        ctx: <Self::Ctx as View>::V,
        msg: Self::Side,
    ) -> <Self::Ctx as View>::V;

    /// Takes in what another manager reports.
    fn on_side(ctx: &mut Self::Ctx, msg: Self::Side)
        ensures
            final(ctx)@ == Self::ctx_after(old(ctx)@, msg),
    ;

    spec fn is_cache(
        cache: Self::Cache,
        tag: B256,
        data: Map<Self::Key, <Self::Val as DeepView>::V>,
    ) -> bool;

    /// What is handed over in a flush.
    fn into_cache(tag: B256, data: Table<Self::Key, Self::Val>) -> (cache: Self::Cache)
        ensures
            Self::is_cache(cache, tag, data@),
    ;

    spec fn call_of(ctx: <Self::Ctx as View>::V, req: Self::Req) -> RpcCall;

    /// What the node is asked on behalf of a request.
    fn fetch(ctx: &Self::Ctx, req: &Self::Req) -> (call: RpcCall)
        ensures
            call == Self::call_of(ctx@, *req),
    ;
}

/// An answer of the node, with what it was asked for.
pub struct FetchDone<K, Resp, R> {
    pub key: K,
    pub result: Result<Resp, SimError>,
    /// The epoch under which the request was issued.
    pub epoch: u64,
    pub respond_to: R,
}

/// What a request leads to.
pub enum RequestAction<K, Resp, R> {
    /// The answer is known.
    Reply { respond_to: R, response: Resp },
    /// The node is to be asked, and its answer is to come back with the key,
    /// the epoch and the handle.
    Fetch { call: RpcCall, key: K, epoch: u64, respond_to: R },
}

/// What an answer of the node leads to.
pub struct CompletionAction<Resp, R> {
    pub respond_to: R,
    pub result: Result<Resp, SimError>,
    /// What is to be reported to the manager of code.
    pub registration: Option<CodeRegistration>,
}

/// What a flush waits for.
pub enum DrainEvent<K, Resp, R> {
    /// The node answered.
    Completed(FetchDone<K, Resp, R>),
    /// No answer can come any more.
    Closed,
    /// The time for waiting is over; what is with the node is abandoned.
    TimedOut,
}

/// What a flush does next.
pub enum FlushAction<Cache> {
    /// Wait for the answers that are outstanding.
    Wait,
    /// Hand over what is remembered.
    HandOver(Cache),
}

/// The decisions of a fetch manager.
pub struct FetchManager<S: FetchSpec> {
    ctx: S::Ctx,
    cache_hash: B256,
    cache: Table<S::Key, S::Val>,
    epoch: u64,
    inflight: usize,
}

/// The model of a `FetchManager`.
#[verifier::ext_equal]
#[verifier::reject_recursive_types(K)]
pub struct FetchManagerView<K, M, C> {
    pub ctx: C,
    /// The hash of the block at which the remembered values were read.
    pub tag: B256,
    pub cache: Map<K, M>,
    /// How often the remembered values have been dropped.
    pub epoch: nat,
    pub inflight: nat,
}

impl<K, M, C> FetchManagerView<K, M, C> {
    /// The manager that has seen nothing yet.
    pub open spec fn fresh(ctx: C) -> FetchManagerView<K, M, C> {
        FetchManagerView {
            ctx,
            tag: B256::zero_hash(),
            cache: Map::empty(),
            epoch: 0,
            inflight: 0,
        }
    }

    /// The manager once it works at the block of the request: values of
    /// another block are dropped.
    pub open spec fn tagged(self, tag: Option<B256>) -> FetchManagerView<K, M, C> {
        match tag {
            Some(hash) if self.tag != hash => FetchManagerView {
                tag: hash,
                cache: Map::empty(),
                epoch: self.epoch + 1,
                ..self
            },
            _ => self,
        }
    }

    /// The manager once it has seen the request through.
    pub open spec fn requested(self, tag: Option<B256>, key: K) -> FetchManagerView<K, M, C> {
        let ready = self.tagged(tag);
        if ready.cache.contains_key(key) {
            ready
        } else {
            FetchManagerView { inflight: ready.inflight + 1, ..ready }
        }
    }

    /// The manager once the node has answered. A value is remembered unless
    /// the epoch has moved on since and that matters.
    pub open spec fn completed(
        self,
        key: K,
        value: Option<M>,
        epoch: nat,
        guarded: bool,
    ) -> FetchManagerView<K, M, C> {
        let fewer = FetchManagerView { inflight: (self.inflight - 1) as nat, ..self };
        match value {
            Some(held) if !guarded || epoch == self.epoch => FetchManagerView {
                cache: fewer.cache.insert(key, held),
                ..fewer
            },
            _ => fewer,
        }
    }

    /// The manager once it has handed over what it remembered.
    pub open spec fn flushed(self) -> FetchManagerView<K, M, C> {
        FetchManagerView {
            tag: B256::zero_hash(),
            cache: Map::empty(),
            epoch: self.epoch + 1,
            ..self
        }
    }
}

impl<S: FetchSpec> View for FetchManager<S> {
    type V = FetchManagerView<S::Key, <S::Val as DeepView>::V, <S::Ctx as View>::V>;

    closed spec fn view(&self) -> Self::V {
        FetchManagerView {
            ctx: self.ctx@,
            tag: self.cache_hash,
            cache: self.cache@,
            epoch: self.epoch as nat,
            inflight: self.inflight as nat,
        }
    }
}

/// What a successful answer says of a value to be remembered.
pub open spec fn stored_value<S: FetchSpec>(result: Result<S::Resp, SimError>) -> Option<
    <S::Val as DeepView>::V,
> {
    match result {
        Ok(resp) => S::stored_of(resp.deep_view()),
        Err(_) => None,
    }
}

impl<S: FetchSpec> FetchManager<S> {
    pub fn new(ctx: S::Ctx) -> (manager: FetchManager<S>)
        ensures
            manager@ == FetchManagerView::<
                S::Key,
                <S::Val as DeepView>::V,
                <S::Ctx as View>::V,
            >::fresh(ctx@),
    {
        FetchManager { ctx, cache_hash: B256::zero(), cache: Table::new(), epoch: 0, inflight: 0 }
    }

    /// Takes in what another manager reports.
    pub fn on_side(&mut self, msg: S::Side)
        ensures
            final(self)@ == (FetchManagerView {
                ctx: S::ctx_after(old(self)@.ctx, msg),
                ..old(self)@
            }),
    {
        S::on_side(&mut self.ctx, msg);
    }

    /// Answers a request from what is remembered, or has the node asked.
    pub fn on_request<R>(&mut self, msg: FetchMessage<S::Req, R>) -> (action: RequestAction<
        S::Key,
        S::Resp,
        R,
    >)
        requires
            old(self)@.requested(S::tag_of(msg.request), S::key_of(msg.request)).epoch <= u64::MAX,
            old(self)@.requested(S::tag_of(msg.request), S::key_of(msg.request)).inflight
                <= usize::MAX,
        ensures
            final(self)@ == old(self)@.requested(S::tag_of(msg.request), S::key_of(msg.request)),
            ({
                let ready = old(self)@.tagged(S::tag_of(msg.request));
                let key = S::key_of(msg.request);
                match action {
                    RequestAction::Reply { respond_to, response } => {
                        &&& ready.cache.contains_key(key)
                        &&& respond_to == msg.respond_to
                        &&& response.deep_view() == S::hit_of(ready.cache[key])
                    },
                    RequestAction::Fetch { call, key: asked, epoch, respond_to } => {
                        &&& !ready.cache.contains_key(key)
                        &&& respond_to == msg.respond_to
                        &&& call == S::call_of(ready.ctx, msg.request)
                        &&& asked == key
                        &&& epoch == ready.epoch
                    },
                }
            }),
    {
        let FetchMessage { request, respond_to } = msg;
        if let Some(tag) = S::tag(&request) {
            if self.cache_hash != tag {
                self.cache = Table::new();
                self.cache_hash = tag;
                self.epoch = self.epoch + 1;
            }
        }
        let key = S::key(&request);
        match self.cache.get(&key) {
            Some(value) => RequestAction::Reply { respond_to, response: S::hit(value) },
            None => {
                let call = S::fetch(&self.ctx, &request);
                self.inflight = self.inflight + 1;
                RequestAction::Fetch { call, key, epoch: self.epoch, respond_to }
            },
        }
    }

    /// Takes in an answer of the node. Whoever asked gets it in any case.
    pub fn apply_completion<R>(&mut self, done: FetchDone<S::Key, S::Resp, R>) -> (action:
        CompletionAction<S::Resp, R>)
        requires
            old(self)@.inflight > 0,
        ensures
            final(self)@ == old(self)@.completed(
                done.key,
                stored_value::<S>(done.result),
                done.epoch as nat,
                S::guarded(),
            ),
            action.respond_to == done.respond_to,
            action.result == done.result,
            action.registration == (match done.result {
                Ok(resp) => S::registration_of(done.key, resp.deep_view()),
                Err(_) => None,
            }),
    {
        self.inflight = self.inflight - 1;
        let FetchDone { key, result, epoch, respond_to } = done;
        let mut registration: Option<CodeRegistration> = None;
        if let Ok(resp) = &result {
            registration = S::on_success(&key, resp);
            if !S::epoch_guarded() || epoch == self.epoch {
                if let Some(value) = S::store(resp) {
                    self.cache.insert(key, value);
                }
            }
        }
        CompletionAction { respond_to, result, registration }
    }

    /// How often the remembered values have been dropped.
    pub fn epoch(&self) -> (epoch: u64)
        ensures
            epoch == self@.epoch,
    {
        self.epoch
    }

    /// How many requests are with the node.
    pub fn inflight(&self) -> (inflight: usize)
        ensures
            inflight == self@.inflight,
    {
        self.inflight
    }

    /// Whether answers are outstanding that a flush should wait for.
    pub fn has_inflight(&self) -> (res: bool)
        ensures
            res == (self@.inflight > 0),
    {
        self.inflight > 0
    }

    /// Starts a flush: what is remembered is handed over at once if nothing is
    /// with the node.
    pub fn begin_flush(&mut self) -> (action: FlushAction<S::Cache>)
        requires
            old(self)@.epoch < u64::MAX,
        ensures
            match action {
                FlushAction::Wait => old(self)@.inflight > 0 && final(self)@ == old(self)@,
                FlushAction::HandOver(cache) => {
                    &&& old(self)@.inflight == 0
                    &&& final(self)@ == old(self)@.flushed()
                    &&& S::is_cache(cache, old(self)@.tag, old(self)@.cache)
                },
            },
    {
        if self.has_inflight() {
            FlushAction::Wait
        } else {
            FlushAction::HandOver(self.flush())
        }
    }

    /// Goes on with a flush: an answer is taken in and given to whoever asked,
    /// and what is remembered is handed over once all have come or waiting
    /// makes no more sense.
    pub fn on_drain<R>(&mut self, event: DrainEvent<S::Key, S::Resp, R>) -> (res: (
        Option<CompletionAction<S::Resp, R>>,
        FlushAction<S::Cache>,
    ))
        requires
            old(self)@.epoch < u64::MAX,
            event is Completed ==> old(self)@.inflight > 0,
        ensures
            match event {
                DrainEvent::Completed(done) => {
                    let drained = old(self)@.completed(
                        done.key,
                        stored_value::<S>(done.result),
                        done.epoch as nat,
                        S::guarded(),
                    );
                    &&& res.0 matches Some(answer)
                    &&& answer.respond_to == done.respond_to
                    &&& answer.result == done.result
                    &&& answer.registration == (match done.result {
                        Ok(resp) => S::registration_of(done.key, resp.deep_view()),
                        Err(_) => None,
                    })
                    &&& match res.1 {
                        FlushAction::Wait => drained.inflight > 0 && final(self)@ == drained,
                        FlushAction::HandOver(cache) => {
                            &&& drained.inflight == 0
                            &&& final(self)@ == drained.flushed()
                            &&& S::is_cache(cache, drained.tag, drained.cache)
                        },
                    }
                },
                _ => {
                    &&& res.0 is None
                    &&& res.1 matches FlushAction::HandOver(cache)
                    &&& final(self)@ == old(self)@.flushed()
                    &&& S::is_cache(cache, old(self)@.tag, old(self)@.cache)
                },
            },
    {
        match event {
            DrainEvent::Completed(done) => {
                let answer = self.apply_completion(done);
                (Some(answer), self.begin_flush())
            },
            DrainEvent::Closed => (None, FlushAction::HandOver(self.flush())),
            DrainEvent::TimedOut => (None, FlushAction::HandOver(self.flush())),
        }
    }

    /// Hands over what is remembered.
    pub fn flush(&mut self) -> (cache: S::Cache)
        requires
            old(self)@.epoch < u64::MAX,
        ensures
            final(self)@ == old(self)@.flushed(),
            S::is_cache(cache, old(self)@.tag, old(self)@.cache),
    {
        let mut data: Table<S::Key, S::Val> = Table::new();
        std::mem::swap(&mut self.cache, &mut data);
        let tag = self.cache_hash;
        self.cache_hash = B256::zero();
        self.epoch = self.epoch + 1;
        S::into_cache(tag, data)
    }
}

} // verus!
