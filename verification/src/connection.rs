//! The life of one client connection, as a state machine.
//!
//! The machine makes the decisions; its caller does the work between them.
//! Each step takes the event that ended the last piece of work and answers
//! with the next piece of work to do. An upstream is chosen once, when the
//! connection is accepted, and kept for as long as the connection lives.

use crate::rate_limit::{after_request, verdict, Admission, RateLimiter};
use crate::upstream::UpstreamSet;
use rand::rngs::StdRng;
use vstd::prelude::*;

verus! {

/// Status of the reply to a request that cannot be understood.
pub const BAD_REQUEST: u16 = 400;

/// Status of the reply to a request whose body is over the size cap.
pub const PAYLOAD_TOO_LARGE: u16 = 413;

/// Status of the reply to a request over the rate limit.
pub const TOO_MANY_REQUESTS: u16 = 429;

/// Status of the reply when no upstream can be reached or one fails.
pub const BAD_GATEWAY: u16 = 502;

/// Status that stands for a failure of the client's own stream.
pub const SERVICE_UNAVAILABLE: u16 = 503;

/// Where a connection stands between two pieces of work.
#[derive(Clone, Copy, Debug, PartialEq, Eq, Structural)]
pub enum Phase {
    /// Not yet accepted.
    Idle,
    /// A connection attempt to the chosen upstream is under way.
    ConnectUpstream,
    /// Waiting for the client's next request.
    ReadRequest,
    /// The request is being written to the upstream.
    ForwardRequest,
    /// Waiting for the upstream's response.
    ReadResponse,
    /// A response is being sent to the client.
    SendResponse,
    /// Over; nothing more happens.
    Closed,
}

/// Why no request could be read from the client.
#[derive(Clone, Copy, Debug, PartialEq, Eq, Structural)]
pub enum RequestError {
    /// The stream ended after this many bytes of a request.
    IncompleteRequest(usize),
    MalformedRequest,
    InvalidContentLength,
    ContentLengthMismatch,
    RequestBodyTooLarge,
    /// The client's stream failed.
    ConnectionError,
}

/// What ended the last piece of work.
#[derive(Clone, Copy, Debug, PartialEq, Eq, Structural)]
pub enum Event {
    Accepted,
    Connected,
    ConnectFailed,
    RequestRead,
    RequestFailed(RequestError),
    Forwarded,
    ForwardFailed,
    ResponseRead,
    ResponseFailed,
    ResponseSent,
}

/// The next piece of work.
#[derive(Clone, Copy, Debug, PartialEq, Eq, Structural)]
pub enum Action {
    /// Connect to the connection's upstream.
    Connect,
    /// Read a request from the client.
    ReadRequest,
    /// Extend the request's forwarding header and write it to the upstream.
    Forward,
    /// Read the upstream's response.
    ReadResponse,
    /// Send the upstream's response on to the client.
    Relay,
    /// Send an error response with this status; the connection stays open.
    Reply(u16),
    /// Send an error response with this status and close.
    ReplyAndClose(u16),
    /// Close without a word.
    Close,
}

/// The event that a phase can end with.
pub open spec fn expects(phase: Phase, event: Event) -> bool {
    match phase {
        Phase::Idle => event == Event::Accepted,
        Phase::ConnectUpstream => event == Event::Connected || event == Event::ConnectFailed,
        Phase::ReadRequest => event == Event::RequestRead || event is RequestFailed,
        Phase::ForwardRequest => event == Event::Forwarded || event == Event::ForwardFailed,
        Phase::ReadResponse => event == Event::ResponseRead || event == Event::ResponseFailed,
        Phase::SendResponse => event == Event::ResponseSent,
        Phase::Closed => false,
    }
}

/// The status of the error response that a failed read calls for.
pub open spec fn status_of(error: RequestError) -> u16 {
    match error {
        RequestError::IncompleteRequest(_) => 400,
        RequestError::MalformedRequest => 400,
        RequestError::InvalidContentLength => 400,
        RequestError::ContentLengthMismatch => 400,
        RequestError::RequestBodyTooLarge => 413,
        RequestError::ConnectionError => 503,
    }
}

/// A failed read ends the connection when the client has hung up cleanly
/// (the stream ended before any byte of a request) or its stream failed.
pub open spec fn ends_connection(error: RequestError) -> bool {
    error == RequestError::IncompleteRequest(0) || error == RequestError::ConnectionError
}

/// What a connection is, as plain values.
pub struct ConnectionView {
    pub client: u128,
    pub upstream: Option<Seq<char>>,
    pub phase: Phase,
}

/// A step's whole effect.
pub struct Outcome {
    pub connection: ConnectionView,
    pub alive: Set<Seq<char>>,
    pub counts: Map<u128, u32>,
    pub action: Action,
}

/// The upstreams among which a step chooses: the alive ones, without the
/// one that has just failed to connect.
pub open spec fn candidates(c: ConnectionView, event: Event, alive: Set<Seq<char>>) -> Set<
    Seq<char>,
> {
    if event == Event::ConnectFailed && c.upstream.is_some() {
        alive.remove(c.upstream.unwrap())
    } else {
        alive
    }
}

/// A choice is none if and only if there is nothing to choose from, else a
/// member of the set.
pub open spec fn is_choice_from(chosen: Option<Seq<char>>, set: Set<Seq<char>>) -> bool {
    match chosen {
        None => set == Set::<Seq<char>>::empty(),
        Some(address) => set.contains(address),
    }
}

/// An event that touches nothing but the connection itself: neither the set
/// of alive upstreams nor the rate limiter.
pub open spec fn is_local(event: Event) -> bool {
    event != Event::Accepted && event != Event::ConnectFailed && event != Event::RequestRead
}

/// The step after an upstream was chosen, or none could be.
pub open spec fn connect_to(c: ConnectionView, chosen: Option<Seq<char>>) -> (ConnectionView, Action) {
    match chosen {
        None => (
            ConnectionView { client: c.client, upstream: c.upstream, phase: Phase::Closed },
            Action::ReplyAndClose(502),
        ),
        Some(address) => (
            ConnectionView {
                client: c.client,
                upstream: Some(address),
                phase: Phase::ConnectUpstream,
            },
            Action::Connect,
        ),
    }
}

/// Where a connection with an upstream goes next, and what is to be done.
/// `admission` is the limiter's word on the request just read. The two
/// events that choose an upstream are not its business.
pub open spec fn respond(phase: Phase, event: Event, admission: Admission) -> (Phase, Action) {
    match event {
        Event::Connected => (Phase::ReadRequest, Action::ReadRequest),
        Event::RequestRead => match admission {
            Admission::Admitted => (Phase::ForwardRequest, Action::Forward),
            Admission::Rejected => (Phase::SendResponse, Action::Reply(429)),
        },
        Event::RequestFailed(error) => if ends_connection(error) {
            (Phase::Closed, Action::Close)
        } else {
            (Phase::SendResponse, Action::Reply(status_of(error)))
        },
        Event::Forwarded => (Phase::ReadResponse, Action::ReadResponse),
        Event::ForwardFailed => (Phase::Closed, Action::ReplyAndClose(502)),
        Event::ResponseRead => (Phase::SendResponse, Action::Relay),
        Event::ResponseFailed => (Phase::Closed, Action::ReplyAndClose(502)),
        Event::ResponseSent => (Phase::ReadRequest, Action::ReadRequest),
        _ => (phase, Action::Close),
    }
}

/// The whole transition: from a connection, the shared state and an event
/// to the connection and the shared state after it, and the next action.
/// `chosen` is the upstream drawn among the candidates; it matters only
/// where the step chooses.
pub open spec fn transition(
    c: ConnectionView,
    event: Event,
    alive: Set<Seq<char>>,
    counts: Map<u128, u32>,
    limit: nat,
    chosen: Option<Seq<char>>,
) -> Outcome {
    if event == Event::Accepted || event == Event::ConnectFailed {
        let (connection, action) = connect_to(c, chosen);
        Outcome { connection, alive: candidates(c, event, alive), counts, action }
    } else if event == Event::RequestRead {
        let (phase, action) = respond(c.phase, event, verdict(counts, c.client, limit));
        Outcome {
            connection: ConnectionView { client: c.client, upstream: c.upstream, phase },
            alive,
            counts: after_request(counts, c.client, limit),
            action,
        }
    } else {
        let (phase, action) = respond(c.phase, event, Admission::Admitted);
        Outcome {
            connection: ConnectionView { client: c.client, upstream: c.upstream, phase },
            alive,
            counts,
            action,
        }
    }
}

/// Once a connection has its upstream, no step changes that upstream or
/// looks at the set of alive upstreams: the outcome is the same whatever the
/// set holds. Nor does the connection ever go back to choosing, so this
/// holds of every later step too.
pub proof fn lemma_upstream_kept(
    c: ConnectionView,
    event: Event,
    alive: Set<Seq<char>>,
    other: Set<Seq<char>>,
    counts: Map<u128, u32>,
    limit: nat,
    chosen: Option<Seq<char>>,
)
    requires
        c.phase != Phase::Idle,
        c.phase != Phase::ConnectUpstream,
        expects(c.phase, event),
    ensures
        transition(c, event, alive, counts, limit, chosen).connection.upstream == c.upstream,
        transition(c, event, alive, counts, limit, chosen).connection.phase != Phase::Idle,
        transition(c, event, alive, counts, limit, chosen).connection.phase
            != Phase::ConnectUpstream,
        transition(c, event, alive, counts, limit, chosen).alive == alive,
        transition(c, event, other, counts, limit, chosen).connection == transition(
            c,
            event,
            alive,
            counts,
            limit,
            chosen,
        ).connection,
        transition(c, event, other, counts, limit, chosen).action == transition(
            c,
            event,
            alive,
            counts,
            limit,
            chosen,
        ).action,
{
}

/// No step of a connection adds an upstream to the alive set: a step leaves
/// the set as it is or takes out the one upstream that could not be
/// connected to. A set within the configured upstreams stays within them.
pub proof fn lemma_step_keeps_alive_within(
    c: ConnectionView,
    event: Event,
    alive: Set<Seq<char>>,
    counts: Map<u128, u32>,
    limit: nat,
    chosen: Option<Seq<char>>,
    configured: Set<Seq<char>>,
)
    requires
        alive.subset_of(configured),
    ensures
        transition(c, event, alive, counts, limit, chosen).alive.subset_of(alive),
        transition(c, event, alive, counts, limit, chosen).alive.subset_of(configured),
        event != Event::ConnectFailed ==> transition(c, event, alive, counts, limit, chosen).alive
            == alive,
{
}

/// With no upstream alive, a new connection is answered with status 502
/// and closed.
pub proof fn lemma_no_upstream_bad_gateway(
    c: ConnectionView,
    counts: Map<u128, u32>,
    limit: nat,
    chosen: Option<Seq<char>>,
)
    requires
        c.phase == Phase::Idle,
        is_choice_from(chosen, Set::<Seq<char>>::empty()),
    ensures
        transition(c, Event::Accepted, Set::empty(), counts, limit, chosen).action
            == Action::ReplyAndClose(502),
        transition(c, Event::Accepted, Set::empty(), counts, limit, chosen).connection.phase
            == Phase::Closed,
{
}

/// A new connection is routed to an alive upstream, whatever is drawn: if
/// only one is alive, to that one.
pub proof fn lemma_routes_to_alive(
    c: ConnectionView,
    alive: Set<Seq<char>>,
    counts: Map<u128, u32>,
    limit: nat,
    chosen: Option<Seq<char>>,
)
    requires
        c.phase == Phase::Idle,
        alive != Set::<Seq<char>>::empty(),
        is_choice_from(chosen, alive),
    ensures
        transition(c, Event::Accepted, alive, counts, limit, chosen).action == Action::Connect,
        transition(c, Event::Accepted, alive, counts, limit, chosen).connection.upstream.is_some(),
        alive.contains(
            transition(c, Event::Accepted, alive, counts, limit, chosen).connection.upstream.unwrap(),
        ),
        forall|only: Seq<char>|
            alive == set![only] ==> transition(
                c,
                Event::Accepted,
                alive,
                counts,
                limit,
                chosen,
            ).connection.upstream == Some(only),
{
}

/// The views of an optional address.
pub open spec fn address_view(address: Option<String>) -> Option<Seq<char>> {
    match address {
        None => None,
        Some(a) => Some(a@),
    }
}

pub struct Connection {
    client: u128,
    upstream: Option<String>,
    phase: Phase,
}

impl View for Connection {
    type V = ConnectionView;

    closed spec fn view(&self) -> ConnectionView {
        ConnectionView {
            client: self.client,
            upstream: address_view(self.upstream),
            phase: self.phase,
        }
    }
}

impl Connection {
    /// A connection of `client` that has not been accepted yet.
    pub fn new(client: u128) -> (connection: Connection)
        ensures
            connection@ == (ConnectionView { client, upstream: None, phase: Phase::Idle }),
    {
        Connection { client, upstream: None, phase: Phase::Idle }
    }

    pub fn client(&self) -> (client: u128)
        ensures
            client == self@.client,
    {
        self.client
    }

    pub fn phase(&self) -> (phase: Phase)
        ensures
            phase == self@.phase,
    {
        self.phase
    }

    /// The upstream that was chosen for this connection, if one was.
    pub fn upstream(&self) -> (upstream: Option<String>)
        ensures
            address_view(upstream) == self@.upstream,
    {
        match &self.upstream {
            None => None,
            Some(address) => Some(address.clone()),
        }
    }

    pub fn is_closed(&self) -> (closed: bool)
        ensures
            closed == (self@.phase == Phase::Closed),
    {
        self.phase == Phase::Closed
    }

    /// Whether `event` can end the work of the current phase.
    pub fn accepts(&self, event: Event) -> (accepted: bool)
        ensures
            accepted == expects(self@.phase, event),
    {
        match self.phase {
            Phase::Idle => event == Event::Accepted,
            Phase::ConnectUpstream => event == Event::Connected || event == Event::ConnectFailed,
            Phase::ReadRequest => match event {
                Event::RequestRead => true,
                Event::RequestFailed(_) => true,
                _ => false,
            },
            Phase::ForwardRequest => event == Event::Forwarded || event == Event::ForwardFailed,
            Phase::ReadResponse => event == Event::ResponseRead || event == Event::ResponseFailed,
            Phase::SendResponse => event == Event::ResponseSent,
            Phase::Closed => false,
        }
    }

    /// Opens an accepted connection: chooses one of the alive upstreams at
    /// random to connect to, or gives up with status 502 if none is alive.
    /// The set is only read.
    pub fn start(&mut self, upstreams: &UpstreamSet, rng: &mut StdRng) -> (action: Action)
        requires
            old(self)@.phase == Phase::Idle,
        ensures
            exists|chosen: Option<Seq<char>>|
                is_choice_from(chosen, upstreams@) && (final(self)@, action) == #[trigger] connect_to(
                    old(self)@,
                    chosen,
                ),
    {
        let chosen = upstreams.choose_random(rng);
        let action = self.connect_to(chosen);
        assert((self@, action) == connect_to(old(self)@, address_view(chosen)));
        action
    }

    /// After a failed attempt to connect: takes the upstream that failed
    /// out of the set and chooses another at random, or gives up with
    /// status 502 if none is left.
    pub fn on_connect_failed(
        &mut self,
        upstreams: &mut UpstreamSet,
        rng: &mut StdRng,
    ) -> (action: Action)
        requires
            old(self)@.phase == Phase::ConnectUpstream,
        ensures
            final(upstreams)@ == candidates(old(self)@, Event::ConnectFailed, old(upstreams)@),
            final(upstreams).configured() == old(upstreams).configured(),
            exists|chosen: Option<Seq<char>>|
                is_choice_from(chosen, final(upstreams)@) && (final(self)@, action)
                    == #[trigger] connect_to(old(self)@, chosen),
    {
        match &self.upstream {
            Some(failed) => {
                upstreams.remove(failed);
            },
            None => {},
        }
        let chosen = upstreams.choose_random(rng);
        let action = self.connect_to(chosen);
        assert((self@, action) == connect_to(old(self)@, address_view(chosen)));
        action
    }

    /// After a request was read: counts it against the client and either
    /// forwards it or, over the limit, answers it with status 429.
    pub fn on_request(&mut self, limiter: &mut RateLimiter) -> (action: Action)
        requires
            old(self)@.phase == Phase::ReadRequest,
        ensures
            final(limiter).limit() == old(limiter).limit(),
            final(limiter).counts() == after_request(
                old(limiter).counts(),
                old(self)@.client,
                old(limiter).limit(),
            ),
            final(self)@.client == old(self)@.client,
            final(self)@.upstream == old(self)@.upstream,
            (final(self)@.phase, action) == respond(
                old(self)@.phase,
                Event::RequestRead,
                verdict(old(limiter).counts(), old(self)@.client, old(limiter).limit()),
            ),
    {
        let admission = limiter.check_and_increment(self.client);
        let (phase, action) = react(self.phase, Event::RequestRead, admission);
        self.phase = phase;
        action
    }

    /// After an event that touches nothing but the connection itself.
    pub fn on_event(&mut self, event: Event) -> (action: Action)
        requires
            expects(old(self)@.phase, event),
            is_local(event),
        ensures
            final(self)@.client == old(self)@.client,
            final(self)@.upstream == old(self)@.upstream,
            (final(self)@.phase, action) == respond(old(self)@.phase, event, Admission::Admitted),
    {
        let (phase, action) = react(self.phase, event, Admission::Admitted);
        self.phase = phase;
        action
    }

    /// Takes one step with an upstream that was chosen beforehand. Where the
    /// step chooses (the connection was accepted, or the attempt to
    /// connect failed), `chosen` is one of the candidates, or none if there
    /// is no candidate.
    pub fn advance(
        &mut self,
        event: Event,
        upstreams: &mut UpstreamSet,
        limiter: &mut RateLimiter,
        chosen: Option<String>,
    ) -> (action: Action)
        requires
            expects(old(self)@.phase, event),
            event == Event::Accepted || event == Event::ConnectFailed ==> is_choice_from(
                address_view(chosen),
                candidates(old(self)@, event, old(upstreams)@),
            ),
        ensures
            final(limiter).limit() == old(limiter).limit(),
            final(upstreams).configured() == old(upstreams).configured(),
            (Outcome {
                connection: final(self)@,
                alive: final(upstreams)@,
                counts: final(limiter).counts(),
                action,
            }) == transition(
                old(self)@,
                event,
                old(upstreams)@,
                old(limiter).counts(),
                old(limiter).limit(),
                address_view(chosen),
            ),
    {
        match event {
            Event::Accepted => self.connect_to(chosen),
            Event::ConnectFailed => {
                match &self.upstream {
                    Some(failed) => {
                        upstreams.remove(failed);
                    },
                    None => {},
                }
                self.connect_to(chosen)
            },
            Event::RequestRead => self.on_request(limiter),
            _ => self.on_event(event),
        }
    }

    /// Takes one step, drawing the upstream at random where the step
    /// chooses one. The outcome is that of `advance` for some choice among
    /// the candidates.
    pub fn step(
        &mut self,
        event: Event,
        upstreams: &mut UpstreamSet,
        limiter: &mut RateLimiter,
        rng: &mut StdRng,
    ) -> (action: Action)
        requires
            expects(old(self)@.phase, event),
        ensures
            final(limiter).limit() == old(limiter).limit(),
            final(upstreams).configured() == old(upstreams).configured(),
            exists|chosen: Option<Seq<char>>|
                is_choice_from(chosen, candidates(old(self)@, event, old(upstreams)@)) && (Outcome {
                    connection: final(self)@,
                    alive: final(upstreams)@,
                    counts: final(limiter).counts(),
                    action,
                }) == #[trigger] transition(
                    old(self)@,
                    event,
                    old(upstreams)@,
                    old(limiter).counts(),
                    old(limiter).limit(),
                    chosen,
                ),
    {
        let ghost pool = candidates(self@, event, upstreams@);
        let action = match event {
            Event::Accepted => self.start(upstreams, rng),
            Event::ConnectFailed => self.on_connect_failed(upstreams, rng),
            Event::RequestRead => self.on_request(limiter),
            _ => self.on_event(event),
        };
        proof {
            let outcome = Outcome {
                connection: self@,
                alive: upstreams@,
                counts: limiter.counts(),
                action,
            };
            if event == Event::Accepted || event == Event::ConnectFailed {
                let chosen = choose|chosen: Option<Seq<char>>|
                    is_choice_from(chosen, upstreams@) && (self@, action) == #[trigger] connect_to(
                        old(self)@,
                        chosen,
                    );
                assert(outcome == transition(
                    old(self)@,
                    event,
                    old(upstreams)@,
                    old(limiter).counts(),
                    old(limiter).limit(),
                    chosen,
                ));
            } else {
                let any = if pool == Set::<Seq<char>>::empty() {
                    None
                } else {
                    Some(pool.choose())
                };
                if pool != Set::<Seq<char>>::empty() {
                    assert(exists|a: Seq<char>| pool.contains(a)) by {
                        if forall|a: Seq<char>| !pool.contains(a) {
                            assert(pool =~= Set::<Seq<char>>::empty());
                        }
                    }
                }
                assert(is_choice_from(any, pool));
                assert(outcome == transition(
                    old(self)@,
                    event,
                    old(upstreams)@,
                    old(limiter).counts(),
                    old(limiter).limit(),
                    any,
                ));
            }
        }
        action
    }

    /// Settles on the chosen upstream, or gives up where there is none.
    fn connect_to(&mut self, chosen: Option<String>) -> (action: Action)
        ensures
            (final(self)@, action) == connect_to(old(self)@, address_view(chosen)),
    {
        match chosen {
            None => {
                self.phase = Phase::Closed;
                Action::ReplyAndClose(BAD_GATEWAY)
            },
            Some(address) => {
                self.upstream = Some(address);
                self.phase = Phase::ConnectUpstream;
                Action::Connect
            },
        }
    }
}

/// The status of the error response that a failed read calls for.
pub fn error_status(error: RequestError) -> (status: u16)
    ensures
        status == status_of(error),
{
    match error {
        RequestError::IncompleteRequest(_)
        | RequestError::MalformedRequest
        | RequestError::InvalidContentLength
        | RequestError::ContentLengthMismatch => BAD_REQUEST,
        RequestError::RequestBodyTooLarge => PAYLOAD_TOO_LARGE,
        RequestError::ConnectionError => SERVICE_UNAVAILABLE,
    }
}

/// Where a connection with an upstream goes next after an event that its
/// phase expects, and what is to be done. `admission` is the limiter's word
/// on the request just read; it matters for that event only.
pub fn react(phase: Phase, event: Event, admission: Admission) -> (next: (Phase, Action))
    requires
        expects(phase, event),
        event != Event::Accepted,
        event != Event::ConnectFailed,
    ensures
        next == respond(phase, event, admission),
{
    match event {
        Event::Connected => (Phase::ReadRequest, Action::ReadRequest),
        Event::RequestRead => match admission {
            Admission::Admitted => (Phase::ForwardRequest, Action::Forward),
            Admission::Rejected => (Phase::SendResponse, Action::Reply(TOO_MANY_REQUESTS)),
        },
        Event::RequestFailed(error) => match error {
            RequestError::IncompleteRequest(0) => (Phase::Closed, Action::Close),
            RequestError::ConnectionError => (Phase::Closed, Action::Close),
            _ => (Phase::SendResponse, Action::Reply(error_status(error))),
        },
        Event::Forwarded => (Phase::ReadResponse, Action::ReadResponse),
        Event::ForwardFailed => (Phase::Closed, Action::ReplyAndClose(BAD_GATEWAY)),
        Event::ResponseRead => (Phase::SendResponse, Action::Relay),
        Event::ResponseFailed => (Phase::Closed, Action::ReplyAndClose(BAD_GATEWAY)),
        Event::ResponseSent => (Phase::ReadRequest, Action::ReadRequest),
        _ => (phase, Action::Close),
    }
}

} // verus!
