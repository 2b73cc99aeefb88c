//! How the notification stream is kept open.

use vstd::prelude::*;

verus! {

pub const INITIAL_BACKOFF_MS: u64 = 1_000;

pub const MAX_BACKOFF_MS: u64 = 30_000;

/// What happens to a stream. `N` is a notification.
pub enum StreamEvent<N> {
    /// The connection stands.
    Connected,
    /// The connection could not be made.
    ConnectFailed,
    /// A message arrived and was decoded.
    Decoded(N),
    /// A message arrived and could not be decoded.
    Undecodable,
    /// The server closed the stream.
    Closed,
    /// The stream broke.
    Failed,
}

/// What is to be done next.
pub enum StreamAction<N> {
    /// Connect at once.
    Connect,
    /// Connect after this time.
    ConnectAfter { ms: u64 },
    /// Wait for the next message.
    Receive,
    /// Give the notification to the subscriber.
    Deliver(N),
}

/// A stream of notifications that reconnects by itself.
pub struct NotificationStream {
    endpoint: String,
    connected: bool,
    backoff_ms: u64,
}

/// The model of a `NotificationStream`.
#[verifier::ext_equal]
pub struct NotificationStreamView {
    pub endpoint: Seq<char>,
    pub connected: bool,
    pub backoff_ms: u64,
}

impl View for NotificationStream {
    type V = NotificationStreamView;

    closed spec fn view(&self) -> NotificationStreamView {
        NotificationStreamView {
            endpoint: self.endpoint@,
            connected: self.connected,
            backoff_ms: self.backoff_ms,
        }
    }
}

/// The waiting time after the given one: twice as long, up to the longest.
pub open spec fn doubled(backoff_ms: u64) -> u64 {
    if backoff_ms * 2 <= MAX_BACKOFF_MS {
        (backoff_ms * 2) as u64
    } else {
        MAX_BACKOFF_MS
    }
}

impl NotificationStreamView {
    /// The stream after the event. Only a notification that could be decoded
    /// brings the waiting time back to the shortest; a connection alone does
    /// not. A message that cannot be decoded is passed over.
    pub open spec fn after<N>(self, event: StreamEvent<N>) -> NotificationStreamView {
        match event {
            StreamEvent::Connected => NotificationStreamView { connected: true, ..self },
            StreamEvent::ConnectFailed => NotificationStreamView {
                connected: false,
                backoff_ms: doubled(self.backoff_ms),
                ..self
            },
            StreamEvent::Decoded(_) => NotificationStreamView {
                backoff_ms: INITIAL_BACKOFF_MS,
                ..self
            },
            StreamEvent::Undecodable => self,
            StreamEvent::Closed => NotificationStreamView { connected: false, ..self },
            StreamEvent::Failed => NotificationStreamView { connected: false, ..self },
        }
    }

    /// The stream after each of the events in turn.
    pub open spec fn after_all<N>(self, events: Seq<StreamEvent<N>>) -> NotificationStreamView
        decreases events.len(),
    {
        if events.len() == 0 {
            self
        } else {
            self.after_all(events.drop_last()).after(events.last())
        }
    }

    /// What a stream in this state does when nothing else is due.
    pub open spec fn next_step<N>(self) -> StreamAction<N> {
        if self.connected {
            StreamAction::Receive
        } else {
            StreamAction::Connect
        }
    }

    /// What the event calls for.
    pub open spec fn reaction<N>(self, event: StreamEvent<N>) -> StreamAction<N> {
        match event {
            StreamEvent::ConnectFailed => StreamAction::ConnectAfter { ms: self.backoff_ms },
            StreamEvent::Decoded(notification) => StreamAction::Deliver(notification),
            _ => self.after(event).next_step(),
        }
    }
}

impl NotificationStream {
    /// The waiting time lies between the shortest and the longest.
    #[verifier::type_invariant]
    spec fn well_formed(self) -> bool {
        INITIAL_BACKOFF_MS <= self.backoff_ms <= MAX_BACKOFF_MS
    }

    pub fn new(endpoint: String) -> (stream: NotificationStream)
        ensures
            stream@ == (NotificationStreamView {
                endpoint: endpoint@,
                connected: false,
                backoff_ms: INITIAL_BACKOFF_MS,
            }),
    {
        NotificationStream { endpoint, connected: false, backoff_ms: INITIAL_BACKOFF_MS }
    }

    /// Where the stream connects to.
    pub fn endpoint(&self) -> (endpoint: &str)
        ensures
            endpoint@ == self@.endpoint,
    {
        self.endpoint.as_str()
    }

    /// What to do when the subscriber asks for the next notification.
    pub fn next<N>(&self) -> (action: StreamAction<N>)
        ensures
            action == self@.next_step::<N>(),
    {
        if self.connected {
            StreamAction::Receive
        } else {
            StreamAction::Connect
        }
    }

    /// Takes in what happened, and says what to do next.
    pub fn on_event<N>(&mut self, event: StreamEvent<N>) -> (action: StreamAction<N>)
        ensures
            final(self)@ == old(self)@.after(event),
            action == old(self)@.reaction(event),
    {
        proof {
            use_type_invariant(&*self);
        }
        match event {
            StreamEvent::Connected => {
                self.connected = true;
                self.next()
            },
            StreamEvent::ConnectFailed => {
                let ms: u64 = self.backoff_ms;
                self.connected = false;
                self.backoff_ms = if ms * 2 <= MAX_BACKOFF_MS {
                    ms * 2
                } else {
                    MAX_BACKOFF_MS
                };
                StreamAction::ConnectAfter { ms }
            },
            StreamEvent::Decoded(notification) => {
                self.backoff_ms = INITIAL_BACKOFF_MS;
                StreamAction::Deliver(notification)
            },
            StreamEvent::Undecodable => self.next(),
            StreamEvent::Closed => {
                self.connected = false;
                self.next()
            },
            StreamEvent::Failed => {
                self.connected = false;
                self.next()
            },
        }
    }
}

/// The waiting time after `failures` failed connections in a row, from the
/// shortest on: doubled each time, up to the longest.
pub open spec fn backoff_after(failures: nat) -> nat {
    if vstd::arithmetic::power2::pow2(failures) * INITIAL_BACKOFF_MS <= MAX_BACKOFF_MS {
        vstd::arithmetic::power2::pow2(failures) * INITIAL_BACKOFF_MS as nat
    } else {
        MAX_BACKOFF_MS as nat
    }
}

/// As long as nothing could be decoded, the waiting time doubles with each
/// failed connection, up to the longest, however often a connection stood in
/// between.
pub proof fn backoff_doubles_until_something_is_decoded<N>(
    stream: NotificationStreamView,
    events: Seq<StreamEvent<N>>,
    failures: nat,
)
    requires
        stream.backoff_ms == backoff_after(failures),
        forall|i: int| 0 <= i < events.len() ==> !(#[trigger] events[i] is Decoded),
    ensures
        stream.after_all(events).backoff_ms == backoff_after(failures + failed_connections(events)),
    decreases events.len(),
{
    if events.len() > 0 {
        let earlier = events.drop_last();
        assert forall|i: int| 0 <= i < earlier.len() implies !(#[trigger] earlier[i] is Decoded) by {
            assert(earlier[i] == events[i]);
        }
        backoff_doubles_until_something_is_decoded(stream, earlier, failures);
        let so_far = failures + failed_connections(earlier);
        assert(!(events[events.len() - 1] is Decoded));
        vstd::arithmetic::power2::lemma_pow2_unfold(so_far + 1);
        vstd::arithmetic::power2::lemma_pow2_pos(so_far);
    }
}

/// How many of the events are failed connections.
pub open spec fn failed_connections<N>(events: Seq<StreamEvent<N>>) -> nat
    decreases events.len(),
{
    if events.len() == 0 {
        0
    } else if events.last() is ConnectFailed {
        failed_connections(events.drop_last()) + 1
    } else {
        failed_connections(events.drop_last())
    }
}

/// A notification that could be decoded brings the waiting time back to the
/// shortest.
pub proof fn decoding_resets_the_backoff<N>(stream: NotificationStreamView, notification: N)
    ensures
        stream.after(StreamEvent::Decoded(notification)).backoff_ms == backoff_after(0),
{
    vstd::arithmetic::power2::lemma2_to64();
}

/// The notifications that could be decoded, in the order of their arrival.
pub open spec fn decoded<N>(events: Seq<StreamEvent<N>>) -> Seq<N> {
    events.filter_map(
        |event: StreamEvent<N>|
            match event {
                StreamEvent::Decoded(notification) => Some(notification),
                _ => None,
            },
    )
}

/// The notifications that the subscriber is given.
pub open spec fn delivered<N>(stream: NotificationStreamView, events: Seq<StreamEvent<N>>) -> Seq<
    N,
>
    decreases events.len(),
{
    if events.len() == 0 {
        Seq::empty()
    } else {
        let earlier = events.drop_last();
        match stream.after_all(earlier).reaction(events.last()) {
            StreamAction::Deliver(notification) => delivered(stream, earlier).push(notification),
            _ => delivered(stream, earlier),
        }
    }
}

/// The subscriber is given every notification that could be decoded, once and
/// in the order of their arrival.
pub proof fn everything_decoded_is_delivered<N>(
    stream: NotificationStreamView,
    events: Seq<StreamEvent<N>>,
)
    ensures
        delivered(stream, events) == decoded(events),
    decreases events.len(),
{
    if events.len() > 0 {
        everything_decoded_is_delivered(stream, events.drop_last());
        assert(delivered(stream, events) =~= decoded(events));
    } else {
        assert(delivered(stream, events) =~= decoded(events));
    }
}

/// What each event calls for: a failed connection is tried again after the
/// current waiting time, what was decoded is given to the subscriber, and
/// otherwise the stream goes on receiving where it is connected and connects at
/// once where it is not.
pub proof fn each_event_calls_for_one_step<N>(stream: NotificationStreamView, notification: N)
    ensures
        stream.reaction(StreamEvent::<N>::Connected) is Receive,
        stream.reaction(StreamEvent::<N>::ConnectFailed) == (StreamAction::<N>::ConnectAfter {
            ms: stream.backoff_ms,
        }),
        stream.reaction(StreamEvent::Decoded(notification)) == StreamAction::Deliver(notification),
        stream.connected ==> stream.reaction(StreamEvent::<N>::Undecodable) is Receive,
        !stream.connected ==> stream.reaction(StreamEvent::<N>::Undecodable) is Connect,
        stream.reaction(StreamEvent::<N>::Closed) is Connect,
        stream.reaction(StreamEvent::<N>::Failed) is Connect,
        stream.connected ==> stream.next_step::<N>() is Receive,
        !stream.connected ==> stream.next_step::<N>() is Connect,
{
}

/// What each event leaves of the stream. It is connected after a connection
/// stood and until it failed or was closed. The waiting time is 1 second once
/// something was decoded, is doubled up to 30 seconds by a failed connection,
/// and is left alone by everything else. The endpoint never changes.
pub proof fn each_event_leaves_the_rest_alone<N>(
    stream: NotificationStreamView,
    event: StreamEvent<N>,
)
    requires
        1_000 <= stream.backoff_ms <= 30_000,
    ensures
        ({
            let next = stream.after(event);
            &&& next.endpoint == stream.endpoint
            &&& 1_000 <= next.backoff_ms <= 30_000
            &&& match event {
                StreamEvent::Connected => next.connected && next.backoff_ms == stream.backoff_ms,
                StreamEvent::ConnectFailed => {
                    &&& !next.connected
                    &&& stream.backoff_ms <= 15_000 ==> next.backoff_ms == 2 * stream.backoff_ms
                    &&& stream.backoff_ms > 15_000 ==> next.backoff_ms == 30_000
                },
                StreamEvent::Decoded(_) => next.connected == stream.connected && next.backoff_ms
                    == 1_000,
                StreamEvent::Undecodable => next.connected == stream.connected && next.backoff_ms
                    == stream.backoff_ms,
                StreamEvent::Closed => !next.connected && next.backoff_ms == stream.backoff_ms,
                StreamEvent::Failed => !next.connected && next.backoff_ms == stream.backoff_ms,
            }
        }),
{
}

/// A stream starts unconnected at the endpoint it is given, with the shortest
/// waiting time, and says what each event calls for.
pub proof fn stream_reacts_to_events<N>(
    endpoint: String,
    made: NotificationStream,
    stream: &mut NotificationStream,
    event: StreamEvent<N>,
    action: StreamAction<N>,
    idle: NotificationStream,
    step: StreamAction<N>,
)
    requires
        call_ensures(NotificationStream::new, (endpoint,), made),
        call_ensures(NotificationStream::on_event::<N>, (stream, event), action),
        call_ensures(NotificationStream::next::<N>, (&idle,), step),
    ensures
        made@.endpoint == endpoint@ && !made@.connected && made@.backoff_ms == 1_000,
        match event {
            StreamEvent::Connected => action is Receive && final(stream)@.connected,
            StreamEvent::ConnectFailed => {
                &&& action matches StreamAction::ConnectAfter { ms }
                &&& ms == old(stream)@.backoff_ms
                &&& !final(stream)@.connected
            },
            StreamEvent::Decoded(notification) => {
                &&& action == StreamAction::Deliver(notification)
                &&& final(stream)@.backoff_ms == 1_000
            },
            StreamEvent::Undecodable => final(stream)@ == old(stream)@,
            StreamEvent::Closed => action is Connect && !final(stream)@.connected,
            StreamEvent::Failed => action is Connect && !final(stream)@.connected,
        },
        event is ConnectFailed && old(stream)@.backoff_ms <= 15_000
            ==> final(stream)@.backoff_ms == 2 * old(stream)@.backoff_ms,
        event is ConnectFailed && old(stream)@.backoff_ms > 15_000 ==> final(stream)@.backoff_ms
            == 30_000,
        !(event is ConnectFailed) && !(event is Decoded) ==> final(stream)@.backoff_ms
            == old(stream)@.backoff_ms,
        final(stream)@.endpoint == old(stream)@.endpoint,
        idle@.connected ==> step is Receive,
        !idle@.connected ==> step is Connect,
{
}

} // verus!
