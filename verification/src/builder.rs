//! How a simulator is configured and started.

use vstd::prelude::*;

use crate::changeset::{ChangesetManager, ChangesetManagerView};
use crate::fetch::FetchConfig;
use crate::state::{StateSnapshot, StateSnapshotView, StaticState, StaticStateView};

verus! {

/// The nearest number from 1 to 1024.
pub open spec fn clamped(n: usize) -> usize {
    if n < 1 {
        1
    } else if n > 1024 {
        1024
    } else {
        n
    }
}

pub fn clamp_concurrency(n: usize) -> (res: usize)
    ensures
        res == clamped(n),
{
    if n < 1 {
        1
    } else if n > 1024 {
        1024
    } else {
        n
    }
}

/// The configuration with every limit brought into bounds.
pub open spec fn bounded(fetch: FetchConfig) -> FetchConfig {
    FetchConfig {
        account: clamped(fetch.account),
        code: clamped(fetch.code),
        storage: clamped(fetch.storage),
        block_hash: clamped(fetch.block_hash),
        ..fetch
    }
}

/// What a simulator is made from. `L` is where logs go.
pub struct RexSimBuilder<L> {
    rpc_endpoint: String,
    log_sink: Option<L>,
    fetch: Option<FetchConfig>,
}

/// The model of a `RexSimBuilder`.
#[verifier::ext_equal]
pub struct RexSimBuilderView<L> {
    pub rpc_endpoint: Seq<char>,
    pub log_sink: Option<L>,
    pub fetch: Option<FetchConfig>,
}

impl<L> View for RexSimBuilder<L> {
    type V = RexSimBuilderView<L>;

    closed spec fn view(&self) -> RexSimBuilderView<L> {
        RexSimBuilderView {
            rpc_endpoint: self.rpc_endpoint@,
            log_sink: self.log_sink,
            fetch: self.fetch,
        }
    }
}

impl<L> RexSimBuilderView<L> {
    /// The builder that nothing has been told yet.
    pub open spec fn untold() -> RexSimBuilderView<L> {
        RexSimBuilderView { rpc_endpoint: "http://127.0.0.1:8545"@, log_sink: None, fetch: None }
    }

    /// The configuration that the simulator will have.
    pub open spec fn config(self) -> FetchConfig {
        bounded(
            match self.fetch {
                Some(fetch) => fetch,
                None => FetchConfig::uniform_config(100),
            },
        )
    }
}

impl<L> Default for RexSimBuilder<L> {
    fn default() -> (builder: RexSimBuilder<L>)
        ensures
            builder@ == RexSimBuilderView::<L>::untold(),
    {
        RexSimBuilder {
            rpc_endpoint: "http://127.0.0.1:8545".to_owned(),
            log_sink: None,
            fetch: None,
        }
    }
}

impl<L> RexSimBuilder<L> {
    pub fn new() -> (builder: RexSimBuilder<L>)
        ensures
            builder@ == RexSimBuilderView::<L>::untold(),
    {
        RexSimBuilder::default()
    }

    pub fn rpc_endpoint(self, endpoint: String) -> (builder: RexSimBuilder<L>)
        ensures
            builder@ == (RexSimBuilderView { rpc_endpoint: endpoint@, ..self@ }),
    {
        RexSimBuilder { rpc_endpoint: endpoint, log_sink: self.log_sink, fetch: self.fetch }
    }

    pub fn log_sink(self, sink: L) -> (builder: RexSimBuilder<L>)
        ensures
            builder@ == (RexSimBuilderView { log_sink: Some(sink), ..self@ }),
    {
        RexSimBuilder {
            rpc_endpoint: self.rpc_endpoint,
            log_sink: Some(sink),
            fetch: self.fetch,
        }
    }

    pub fn fetch(self, fetch: FetchConfig) -> (builder: RexSimBuilder<L>)
        ensures
            builder@ == (RexSimBuilderView { fetch: Some(fetch), ..self@ }),
    {
        RexSimBuilder {
            rpc_endpoint: self.rpc_endpoint,
            log_sink: self.log_sink,
            fetch: Some(fetch),
        }
    }

    /// Whether a reader outlives the request that it waits for.
    pub fn is_buildable(&self) -> (res: bool)
        ensures
            res == (self@.config().wait_timeout_ms > self@.config().rpc_timeout_ms),
    {
        match self.fetch {
            Some(fetch) => fetch.wait_timeout_ms > fetch.rpc_timeout_ms,
            None => true,
        }
    }

    /// The simulator, which knows nothing of the chain yet. A reader has to
    /// outlive the request that it waits for.
    pub fn build(self) -> (sim: RexSim<L>)
        requires
            self@.config().wait_timeout_ms > self@.config().rpc_timeout_ms,
        ensures
            sim@ == (RexSimView {
                state: StaticStateView {
                    snapshot: StateSnapshotView::empty(),
                    generation: 0,
                    fetch: self@.config(),
                },
                rpc_endpoint: self@.rpc_endpoint,
                log_sink: self@.log_sink,
                fetch: self@.config(),
                spawned: false,
            }),
    {
        let told = match self.fetch {
            Some(fetch) => fetch,
            None => FetchConfig::default(),
        };
        let fetch = FetchConfig {
            account: clamp_concurrency(told.account),
            code: clamp_concurrency(told.code),
            storage: clamp_concurrency(told.storage),
            block_hash: clamp_concurrency(told.block_hash),
            rpc_timeout_ms: told.rpc_timeout_ms,
            wait_timeout_ms: told.wait_timeout_ms,
            flush_timeout_ms: told.flush_timeout_ms,
        };
        RexSim {
            state: StaticState::new(StateSnapshot::default(), fetch),
            rpc_endpoint: self.rpc_endpoint,
            log_sink: self.log_sink,
            fetch,
            spawned: false,
        }
    }
}

/// A simulator that is to be started once.
pub struct RexSim<L> {
    state: StaticState,
    rpc_endpoint: String,
    log_sink: Option<L>,
    fetch: FetchConfig,
    spawned: bool,
}

/// The model of a `RexSim`.
#[verifier::ext_equal]
pub struct RexSimView<L> {
    pub state: StaticStateView,
    pub rpc_endpoint: Seq<char>,
    pub log_sink: Option<L>,
    pub fetch: FetchConfig,
    pub spawned: bool,
}

impl<L> View for RexSim<L> {
    type V = RexSimView<L>;

    closed spec fn view(&self) -> RexSimView<L> {
        RexSimView {
            state: self.state@,
            rpc_endpoint: self.rpc_endpoint@,
            log_sink: self.log_sink,
            fetch: self.fetch,
            spawned: self.spawned,
        }
    }
}

/// What the tasks of a running simulator work with.
pub struct Launch<L> {
    pub rpc_endpoint: String,
    pub fetch: FetchConfig,
    pub log_sink: Option<L>,
    /// The writer of the state, which has yet to become ready.
    pub manager: ChangesetManager,
}

impl<L> RexSim<L> {
    pub fn builder() -> (builder: RexSimBuilder<L>)
        ensures
            builder@ == RexSimBuilderView::<L>::untold(),
    {
        RexSimBuilder::new()
    }

    /// The block that the simulator stands at: that of the state that its
    /// manager last wrote or, before it is started, that of the state it was
    /// made with.
    pub fn block(&self, live: Option<&StaticState>) -> (block: u64)
        requires
            self@.spawned ==> live is Some,
        ensures
            block == (match live {
                Some(state) => state@.snapshot.block,
                None => self@.state.snapshot.block,
            }),
    {
        match live {
            Some(state) => state.block(),
            None => self.state.block(),
        }
    }

    /// Whether the simulator has been started.
    pub fn is_spawned(&self) -> (res: bool)
        ensures
            res == self@.spawned,
    {
        self.spawned
    }

    /// Hands out what the tasks work with. That can be done once.
    pub fn spawn(&mut self) -> (launch: Launch<L>)
        requires
            !old(self)@.spawned,
        ensures
            final(self)@ == (RexSimView { log_sink: None, spawned: true, ..old(self)@ }),
            launch.rpc_endpoint@ == old(self)@.rpc_endpoint,
            launch.fetch == old(self)@.fetch,
            launch.log_sink == old(self)@.log_sink,
            launch.manager@ == (ChangesetManagerView {
                state: old(self)@.state,
                awaiting_ready: true,
            }),
    {
        self.spawned = true;
        let mut log_sink: Option<L> = None;
        std::mem::swap(&mut log_sink, &mut self.log_sink);
        Launch {
            rpc_endpoint: self.rpc_endpoint.clone(),
            fetch: self.fetch,
            log_sink,
            manager: ChangesetManager::new(self.state.clone(), true),
        }
    }
}

/// Every limit that a simulator works with lies between 1 and 1024, and limits
/// that do are left as they are.
pub proof fn limits_are_in_bounds(fetch: FetchConfig)
    ensures
        1 <= bounded(fetch).account <= 1024,
        1 <= bounded(fetch).code <= 1024,
        1 <= bounded(fetch).storage <= 1024,
        1 <= bounded(fetch).block_hash <= 1024,
        bounded(bounded(fetch)) == bounded(fetch),
{
}

/// A limit below 1 is taken as 1 and one above 1024 as 1024; every other is
/// taken as it is, and so are the timeouts.
pub proof fn limits_in_bounds_are_left_alone(fetch: FetchConfig, n: usize)
    ensures
        n == 0 ==> clamped(n) == 1,
        n > 1024 ==> clamped(n) == 1024,
        1 <= n <= 1024 ==> clamped(n) == n,
        bounded(fetch).account == clamped(fetch.account),
        bounded(fetch).code == clamped(fetch.code),
        bounded(fetch).storage == clamped(fetch.storage),
        bounded(fetch).block_hash == clamped(fetch.block_hash),
        bounded(fetch).rpc_timeout_ms == fetch.rpc_timeout_ms,
        bounded(fetch).wait_timeout_ms == fetch.wait_timeout_ms,
        bounded(fetch).flush_timeout_ms == fetch.flush_timeout_ms,
{
}

/// A simulator that is told nothing asks the node on this machine, passes on no
/// logs, and allows 100 RPCs of each kind with timeouts of 10, 30 and 15
/// seconds. One that is told its limits and timeouts has those timeouts, and
/// those limits brought into bounds.
pub proof fn builder_goes_by_what_it_was_told<L>(builder: RexSimBuilderView<L>)
    ensures
        RexSimBuilderView::<L>::untold().rpc_endpoint == "http://127.0.0.1:8545"@,
        RexSimBuilderView::<L>::untold().log_sink is None,
        RexSimBuilderView::<L>::untold().fetch is None,
        builder.fetch is None ==> {
            &&& builder.config().account == 100
            &&& builder.config().code == 100
            &&& builder.config().storage == 100
            &&& builder.config().block_hash == 100
            &&& builder.config().rpc_timeout_ms == 10_000
            &&& builder.config().wait_timeout_ms == 30_000
            &&& builder.config().flush_timeout_ms == 15_000
        },
        builder.fetch matches Some(told) ==> {
            &&& 1 <= told.account <= 1024 ==> builder.config().account == told.account
            &&& 1 <= told.code <= 1024 ==> builder.config().code == told.code
            &&& 1 <= told.storage <= 1024 ==> builder.config().storage == told.storage
            &&& 1 <= told.block_hash <= 1024 ==> builder.config().block_hash == told.block_hash
            &&& builder.config().rpc_timeout_ms == told.rpc_timeout_ms
            &&& builder.config().wait_timeout_ms == told.wait_timeout_ms
            &&& builder.config().flush_timeout_ms == told.flush_timeout_ms
        },
{
}

/// A simulator is built and started with what its builder was told: the
/// endpoint, the sink for logs, the timeouts, and the limits, each brought
/// between 1 and 1024. It starts from a state of which nothing is known.
pub proof fn simulator_has_what_the_builder_was_told<L>(
    builder: RexSimBuilder<L>,
    buildable: bool,
    sim: RexSim<L>,
    n: usize,
    limit: usize,
)
    requires
        call_ensures(RexSimBuilder::<L>::is_buildable, (&builder,), buildable),
        call_ensures(RexSimBuilder::<L>::build, (builder,), sim),
        call_ensures(clamp_concurrency, (n,), limit),
    ensures
        sim@.rpc_endpoint == builder@.rpc_endpoint,
        sim@.log_sink == builder@.log_sink,
        !sim@.spawned,
        sim@.state.generation == 0,
        sim@.state.snapshot == StateSnapshotView::empty(),
        sim@.state.fetch == sim@.fetch,
        builder@.fetch is None ==> sim@.fetch.account == 100 && sim@.fetch.rpc_timeout_ms == 10_000
            && sim@.fetch.wait_timeout_ms == 30_000 && sim@.fetch.flush_timeout_ms == 15_000
            && buildable,
        builder@.fetch matches Some(told) ==> {
            &&& sim@.fetch.rpc_timeout_ms == told.rpc_timeout_ms
            &&& sim@.fetch.wait_timeout_ms == told.wait_timeout_ms
            &&& sim@.fetch.flush_timeout_ms == told.flush_timeout_ms
            &&& 1 <= told.account <= 1024 ==> sim@.fetch.account == told.account
            &&& 1 <= told.code <= 1024 ==> sim@.fetch.code == told.code
            &&& 1 <= told.storage <= 1024 ==> sim@.fetch.storage == told.storage
            &&& 1 <= told.block_hash <= 1024 ==> sim@.fetch.block_hash == told.block_hash
            &&& told.account > 1024 ==> sim@.fetch.account == 1024
            &&& told.account == 0 ==> sim@.fetch.account == 1
            &&& buildable <==> told.wait_timeout_ms > told.rpc_timeout_ms
        },
        n == 0 ==> limit == 1,
        1 <= n <= 1024 ==> limit == n,
        n > 1024 ==> limit == 1024,
{
}

/// Starting a simulator hands out what it has, with a manager that has yet to
/// become ready; from then on it stands where the manager's state does.
pub proof fn started_simulator_stands_where_its_state_does<L>(
    sim: &mut RexSim<L>,
    launch: Launch<L>,
    live: StaticState,
    started: RexSim<L>,
    block: u64,
)
    requires
        call_ensures(RexSim::<L>::spawn, (sim,), launch),
        call_ensures(RexSim::<L>::block, (&started, Some(&live)), block),
    ensures
        launch.rpc_endpoint@ == old(sim)@.rpc_endpoint,
        launch.fetch == old(sim)@.fetch,
        launch.log_sink == old(sim)@.log_sink,
        launch.manager@.state == old(sim)@.state,
        launch.manager@.awaiting_ready,
        final(sim)@.spawned,
        block == live@.snapshot.block,
{
}

/// Each thing that a builder is told replaces what it was told of that before,
/// and nothing else.
pub proof fn builder_remembers_what_it_is_told<L>(
    builder: RexSimBuilder<L>,
    endpoint: String,
    with_endpoint: RexSimBuilder<L>,
    sink: L,
    with_sink: RexSimBuilder<L>,
    fetch: FetchConfig,
    with_fetch: RexSimBuilder<L>,
    fresh: RexSimBuilder<L>,
    sim: RexSim<L>,
    started: bool,
)
    requires
        call_ensures(RexSimBuilder::<L>::rpc_endpoint, (builder, endpoint), with_endpoint),
        call_ensures(RexSimBuilder::<L>::log_sink, (builder, sink), with_sink),
        call_ensures(RexSimBuilder::<L>::fetch, (builder, fetch), with_fetch),
        call_ensures(RexSimBuilder::<L>::new, (), fresh),
        call_ensures(RexSim::<L>::is_spawned, (&sim,), started),
    ensures
        with_endpoint@.rpc_endpoint == endpoint@,
        with_endpoint@.log_sink == builder@.log_sink,
        with_endpoint@.fetch == builder@.fetch,
        with_sink@.log_sink == Some(sink),
        with_sink@.rpc_endpoint == builder@.rpc_endpoint,
        with_sink@.fetch == builder@.fetch,
        with_fetch@.fetch == Some(fetch),
        with_fetch@.rpc_endpoint == builder@.rpc_endpoint,
        with_fetch@.log_sink == builder@.log_sink,
        fresh@.rpc_endpoint == "http://127.0.0.1:8545"@,
        fresh@.log_sink is None,
        fresh@.fetch is None,
        started == sim@.spawned,
{
}

} // verus!
