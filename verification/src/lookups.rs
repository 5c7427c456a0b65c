//! The exchange of one question with one nameserver: UDP first, TCP where
//! UDP will not do.
//!
//! The exchange is a state machine. It names the next thing to do on the
//! network and is told what came of it; it never touches a socket itself.
//! The query is built once and stays as it is from the first datagram to
//! the last attempt over TCP, so that every response can be matched by its
//! ID.

use crate::addr::IpAddresses;
use crate::errors::Error;
use crate::message::{
    be16, create_message, header_id, header_truncated, is_truncated, query_wire, read16,
    response_id, Question,
};
use vstd::prelude::*;

verus! {

/// The length of the longest message that TCP framing can carry.
pub const MAX_FRAME_LEN: usize = 65535;

/// The transport an exchange is on.
#[derive(Clone, Copy, Debug, PartialEq, Eq, Structural)]
pub enum Phase {
    Udp,
    Tcp,
}

/// What came of the last action.
#[derive(Debug)]
pub enum Event {
    /// A message arrived in time: a datagram, or over TCP the content of
    /// one frame.
    Message(Vec<u8>),
    /// Nothing arrived before the attempt's time ran out.
    Timeout,
    /// The socket failed: nothing could be bound, connected, sent or read.
    Failure,
}

/// An event as a value of specifications.
pub enum EventView {
    Message(Seq<u8>),
    Timeout,
    Failure,
}

impl View for Event {
    type V = EventView;

    open spec fn view(&self) -> EventView {
        match self {
            Event::Message(octets) => EventView::Message(octets@),
            Event::Timeout => EventView::Timeout,
            Event::Failure => EventView::Failure,
        }
    }
}

/// What is to be done next.
#[derive(Debug)]
pub enum Action {
    /// Send the query as one datagram and wait for a datagram until the
    /// attempt's time has run out.
    SendUdp,
    /// Connect, send the query behind its length, and wait for a framed
    /// message until the attempt's time has run out.
    SendTcp,
    /// Wait once more, on the connection that is open, for a framed
    /// message.
    ReceiveTcp,
    /// The exchange is over: a response, no usable response, or a failure.
    Done(Result<Option<IpAddresses>, Error>),
}

/// An action as a value of specifications; a response stands as its
/// octets.
pub enum ActionView {
    SendUdp,
    SendTcp,
    ReceiveTcp,
    Done(Result<Option<Seq<u8>>, Error>),
}

impl View for Action {
    type V = ActionView;

    open spec fn view(&self) -> ActionView {
        match self {
            Action::SendUdp => ActionView::SendUdp,
            Action::SendTcp => ActionView::SendTcp,
            Action::ReceiveTcp => ActionView::ReceiveTcp,
            Action::Done(Ok(Some(response))) => ActionView::Done(Ok(Some(response@))),
            Action::Done(Ok(None)) => ActionView::Done(Ok(None)),
            Action::Done(Err(e)) => ActionView::Done(Err(*e)),
        }
    }
}

/// The state of an exchange as a value of specifications.
pub struct ExchangeView {
    /// The transaction ID of the query.
    pub id: u16,
    /// The query message.
    pub query: Seq<u8>,
    /// The attempts allowed on each transport.
    pub attempts: u8,
    /// The transport in use.
    pub phase: Phase,
    /// The attempts left on that transport, the running one included; zero
    /// once the exchange is over.
    pub remaining: u8,
}

impl ExchangeView {
    /// The state with the exchange over.
    pub open spec fn over(self) -> ExchangeView {
        ExchangeView { remaining: 0, ..self }
    }

    /// Whether `message` answers this exchange's query: it has a header
    /// and its ID is the query's.
    pub open spec fn matches(self, message: Seq<u8>) -> bool {
        header_id(message) == Some(self.id)
    }
}

/// The move to TCP: the first of `attempts` attempts there, or the end
/// without a response where none is allowed.
pub open spec fn fall_back(state: ExchangeView) -> (ExchangeView, ActionView) {
    if state.attempts > 0 {
        (ExchangeView { phase: Phase::Tcp, remaining: state.attempts, ..state }, ActionView::SendTcp)
    } else {
        (ExchangeView { phase: Phase::Tcp, remaining: 0, ..state }, ActionView::Done(Ok(None)))
    }
}

/// An attempt that brought nothing usable: the next attempt on the same
/// transport while one is left; after the last, UDP falls back to TCP and
/// TCP ends without a response.
pub open spec fn attempt_failed(state: ExchangeView) -> (ExchangeView, ActionView) {
    if state.remaining > 1 {
        (
            ExchangeView { remaining: (state.remaining - 1) as u8, ..state },
            match state.phase {
                Phase::Udp => ActionView::SendUdp,
                Phase::Tcp => ActionView::ReceiveTcp,
            },
        )
    } else {
        match state.phase {
            Phase::Udp => fall_back(state),
            Phase::Tcp => (state.over(), ActionView::Done(Ok(None))),
        }
    }
}

/// The first state and action of an exchange. A query that fits the UDP
/// payload size goes out over UDP; a larger one never does.
pub open spec fn begin(id: u16, query: Seq<u8>, attempts: u8, udp_payload_size: u16) -> (
    ExchangeView,
    ActionView,
) {
    let state = ExchangeView { id, query, attempts, phase: Phase::Udp, remaining: attempts };
    if query.len() <= udp_payload_size && attempts > 0 {
        (state, ActionView::SendUdp)
    } else {
        fall_back(state)
    }
}

/// One step of an exchange.
///
/// Over UDP a message with the query's ID is the response, unless it is
/// marked truncated, which sends the exchange to TCP. A message with
/// another ID, or too short for a header, is dropped and the attempt has
/// failed, as it has on a timeout. A socket failure sends the exchange to
/// TCP at once.
///
/// Over TCP a message with the query's ID is the response. Another message
/// and a timeout fail the attempt. A socket failure ends the exchange with
/// `Error::Transport`.
///
/// An exchange that is over stays over.
pub open spec fn step(state: ExchangeView, event: EventView) -> (ExchangeView, ActionView) {
    if state.remaining == 0 {
        (state, ActionView::Done(Ok(None)))
    } else {
        match (state.phase, event) {
            (Phase::Udp, EventView::Message(message)) => if !state.matches(message) {
                attempt_failed(state)
            } else if header_truncated(message) {
                fall_back(state)
            } else {
                (state.over(), ActionView::Done(Ok(Some(message))))
            },
            (Phase::Tcp, EventView::Message(message)) => if !state.matches(message) {
                attempt_failed(state)
            } else {
                (state.over(), ActionView::Done(Ok(Some(message))))
            },
            (_, EventView::Timeout) => attempt_failed(state),
            (Phase::Udp, EventView::Failure) => fall_back(state),
            (Phase::Tcp, EventView::Failure) => (state.over(), ActionView::Done(Err(Error::Transport))),
        }
    }
}

/// A message behind its length, as TCP carries it.
pub open spec fn framed(message: Seq<u8>) -> Seq<u8> {
    be16(message.len() as u16) + message
}

/// Puts a message behind its length in two octets, network order. `None`
/// for a message longer than the two octets can say.
pub fn tcp_frame(message: &[u8]) -> (frame: Option<Vec<u8>>)
    ensures
        match frame {
            Some(octets) => message@.len() <= MAX_FRAME_LEN && octets@ == framed(message@),
            None => message@.len() > MAX_FRAME_LEN,
        },
{
    let len = message.len();
    if len > MAX_FRAME_LEN {
        return None;
    }
    let mut octets: Vec<u8> = Vec::new();
    octets.push((len / 256) as u8);
    octets.push((len % 256) as u8);
    let mut at: usize = 0;
    while at < len
        invariant
            len == message@.len(),
            at <= len,
            octets@ == be16(len as u16) + message@.subrange(0, at as int),
        decreases len - at,
    {
        octets.push(message[at]);
        at = at + 1;
    }
    Some(octets)
}

/// The length that the two octets before a framed message give.
pub fn frame_length(prefix: [u8; 2]) -> (len: u16)
    ensures
        len == read16(prefix@, 0),
{
    let high: u16 = prefix[0] as u16;
    let low: u16 = prefix[1] as u16;
    high * 256 + low
}

/// The length in front of a frame is the length of the message behind it.
pub proof fn lemma_frame_round_trip(message: Seq<u8>)
    requires
        message.len() <= MAX_FRAME_LEN,
    ensures
        framed(message).len() == message.len() + 2,
        read16(framed(message), 0) == message.len(),
        framed(message).skip(2) == message,
{
}

/// One question's exchange with one nameserver.
#[derive(Debug)]
pub struct Exchange {
    id: u16,
    query: Vec<u8>,
    attempts: u8,
    phase: Phase,
    remaining: u8,
}

impl View for Exchange {
    type V = ExchangeView;

    closed spec fn view(&self) -> ExchangeView {
        ExchangeView {
            id: self.id,
            query: self.query@,
            attempts: self.attempts,
            phase: self.phase,
            remaining: self.remaining,
        }
    }
}

impl Exchange {
    #[verifier::type_invariant]
    spec fn frameable(self) -> bool {
        self.query@.len() <= MAX_FRAME_LEN
    }

    /// The transaction ID of the query.
    pub fn id(&self) -> (id: u16)
        ensures
            id == self@.id,
    {
        self.id
    }

    /// The query message, as it goes out in a datagram.
    pub fn query(&self) -> (query: &Vec<u8>)
        ensures
            query@ == self@.query,
    {
        &self.query
    }

    /// The query message behind its length, as it goes out over TCP.
    pub fn tcp_request(&self) -> (request: Vec<u8>)
        ensures
            request@ == framed(self@.query),
    {
        proof {
            use_type_invariant(self);
        }
        match tcp_frame(self.query.as_slice()) {
            Some(request) => request,
            None => Vec::new(),
        }
    }

    /// The transport in use.
    pub fn phase(&self) -> (phase: Phase)
        ensures
            phase == self@.phase,
    {
        self.phase
    }

    /// Whether the exchange is over.
    pub fn is_over(&self) -> (over: bool)
        ensures
            over == (self@.remaining == 0),
    {
        self.remaining == 0
    }

    /// Starts an exchange for a query that is built already. `query` is
    /// kept if it can be framed for TCP, which every query that
    /// `create_message` builds can be.
    fn start(id: u16, query: Vec<u8>, attempts: u8, udp_payload_size: u16) -> (started: (Exchange, Action))
        requires
            query@.len() <= MAX_FRAME_LEN,
        ensures
            (started.0@, started.1@) == begin(id, query@, attempts, udp_payload_size),
    {
        let fits = query.len() <= udp_payload_size as usize;
        let mut exchange = Exchange { id, query, attempts, phase: Phase::Udp, remaining: attempts };
        if fits && attempts > 0 {
            (exchange, Action::SendUdp)
        } else {
            let action = exchange.fall_back();
            (exchange, action)
        }
    }

    fn fall_back(&mut self) -> (action: Action)
        ensures
            (final(self)@, action@) == fall_back(old(self)@),
    {
        proof {
            use_type_invariant(&*self);
        }
        self.phase = Phase::Tcp;
        if self.attempts > 0 {
            self.remaining = self.attempts;
            Action::SendTcp
        } else {
            self.remaining = 0;
            Action::Done(Ok(None))
        }
    }

    fn attempt_failed(&mut self) -> (action: Action)
        ensures
            (final(self)@, action@) == attempt_failed(old(self)@),
    {
        proof {
            use_type_invariant(&*self);
        }
        if self.remaining > 1 {
            self.remaining = self.remaining - 1;
            match self.phase {
                Phase::Udp => Action::SendUdp,
                Phase::Tcp => Action::ReceiveTcp,
            }
        } else {
            match self.phase {
                Phase::Udp => self.fall_back(),
                Phase::Tcp => {
                    self.remaining = 0;
                    Action::Done(Ok(None))
                },
            }
        }
    }

    /// Takes what came of the last action and names the next one, as
    /// `step` says.
    pub fn on_event(&mut self, event: Event) -> (action: Action)
        ensures
            (final(self)@, action@) == step(old(self)@, event@),
    {
        proof {
            use_type_invariant(&*self);
        }
        if self.remaining == 0 {
            return Action::Done(Ok(None));
        }
        match event {
            Event::Message(message) => {
                let matched = match response_id(message.as_slice()) {
                    Some(id) => id == self.id,
                    None => false,
                };
                if !matched {
                    self.attempt_failed()
                } else {
                    let truncated = is_truncated(message.as_slice());
                    match self.phase {
                        Phase::Udp => {
                            if truncated {
                                self.fall_back()
                            } else {
                                self.remaining = 0;
                                Action::Done(Ok(Some(IpAddresses::from(message))))
                            }
                        },
                        Phase::Tcp => {
                            self.remaining = 0;
                            Action::Done(Ok(Some(IpAddresses::from(message))))
                        },
                    }
                }
            },
            Event::Timeout => self.attempt_failed(),
            Event::Failure => {
                match self.phase {
                    Phase::Udp => self.fall_back(),
                    Phase::Tcp => {
                        self.remaining = 0;
                        Action::Done(Err(Error::Transport))
                    },
                }
            },
        }
    }
}

/// Starts the exchange of `question` under the transaction ID `id`: builds
/// the query, once, and names the first action. The query goes out over UDP
/// if it is no longer than `udp_payload_size` (and an attempt is allowed),
/// and over TCP otherwise. The exchange always starts: the query is always
/// built.
pub fn start_exchange(id: u16, question: &Question, attempts: u8, udp_payload_size: u16) -> (started: Result<
    (Exchange, Action),
    Error,
>)
    ensures
        started matches Ok((exchange, action)) && (exchange@, action@) == begin(
            id,
            query_wire(id, question.name@, question.rtype.code(), udp_payload_size),
            attempts,
            udp_payload_size,
        ),
{
    match create_message(id, question, udp_payload_size) {
        Ok(query) => Ok(Exchange::start(id, query, attempts, udp_payload_size)),
        Err(e) => Err(e),
    }
}

/// `fastrand::u16` over the full range: a transaction ID from the
/// thread's random number generator. Nothing is promised of the number.
#[verifier::external_body]
fn random_id() -> u16 {
    fastrand::u16(..)
}

/// Starts the exchange of `question` with a nameserver under a freshly
/// drawn transaction ID. Whatever ID was drawn, the exchange starts, and
/// starts as `start_exchange` starts it with that ID.
pub fn query_question_and_nameserver(question: &Question, attempts: u8, udp_payload_size: u16) -> (started:
    Result<(Exchange, Action), Error>)
    ensures
        started matches Ok((exchange, action)) && (exchange@, action@) == begin(
            exchange@.id,
            query_wire(exchange@.id, question.name@, question.rtype.code(), udp_payload_size),
            attempts,
            udp_payload_size,
        ),
{
    let id = random_id();
    start_exchange(id, question, attempts, udp_payload_size)
}

/// The state that a run of events leaves an exchange in.
pub open spec fn state_after(state: ExchangeView, events: Seq<EventView>) -> ExchangeView
    decreases events.len(),
{
    if events.len() == 0 {
        state
    } else {
        state_after(step(state, events[0]).0, events.skip(1))
    }
}

/// The actions that an exchange names in answer to a run of events, one
/// for each event.
pub open spec fn actions_after(state: ExchangeView, events: Seq<EventView>) -> Seq<ActionView>
    decreases events.len(),
{
    if events.len() == 0 {
        Seq::empty()
    } else {
        seq![step(state, events[0]).1] + actions_after(step(state, events[0]).0, events.skip(1))
    }
}

/// An event that brings no response and no failure: a timeout, or a
/// message that does not carry the query's ID.
pub open spec fn fruitless(state: ExchangeView, event: EventView) -> bool {
    match event {
        EventView::Message(message) => !state.matches(message),
        EventView::Timeout => true,
        EventView::Failure => false,
    }
}

/// The attempts an exchange can still make, over both transports.
pub open spec fn attempts_left(state: ExchangeView) -> int {
    if state.remaining == 0 {
        0
    } else {
        match state.phase {
            Phase::Udp => state.remaining + state.attempts,
            Phase::Tcp => state.remaining as int,
        }
    }
}

/// An exchange names one action for each event.
pub proof fn lemma_actions_len(state: ExchangeView, events: Seq<EventView>)
    ensures
        actions_after(state, events).len() == events.len(),
    decreases events.len(),
{
    if events.len() > 0 {
        lemma_actions_len(step(state, events[0]).0, events.skip(1));
    }
}

/// The query of an exchange is built once: whatever happens, the ID, the
/// octets of the query and the number of attempts stay what they were.
pub proof fn lemma_query_is_kept(state: ExchangeView, events: Seq<EventView>)
    ensures
        state_after(state, events).id == state.id,
        state_after(state, events).query == state.query,
        state_after(state, events).attempts == state.attempts,
    decreases events.len(),
{
    if events.len() > 0 {
        lemma_query_is_kept(step(state, events[0]).0, events.skip(1));
    }
}

/// An exchange that is on TCP never goes back to UDP: it stays on TCP and
/// never asks for a datagram to be sent.
pub proof fn lemma_tcp_stays_tcp(state: ExchangeView, events: Seq<EventView>)
    requires
        state.phase is Tcp,
    ensures
        state_after(state, events).phase is Tcp,
        forall|i: int|
            0 <= i < events.len() ==> #[trigger] actions_after(state, events)[i] != ActionView::SendUdp,
    decreases events.len(),
{
    if events.len() > 0 {
        let next = step(state, events[0]).0;
        lemma_tcp_stays_tcp(next, events.skip(1));
        lemma_actions_len(next, events.skip(1));
    }
}

/// A query that is longer than the UDP payload size is never sent over
/// UDP: the exchange starts on TCP, and no event brings it to UDP.
pub proof fn lemma_oversized_query_goes_to_tcp(
    id: u16,
    query: Seq<u8>,
    attempts: u8,
    udp_payload_size: u16,
    events: Seq<EventView>,
)
    requires
        query.len() > udp_payload_size,
    ensures
        begin(id, query, attempts, udp_payload_size).0.phase is Tcp,
        begin(id, query, attempts, udp_payload_size).1 == if attempts > 0 {
            ActionView::SendTcp
        } else {
            ActionView::Done(Ok(None))
        },
        forall|i: int|
            0 <= i < events.len() ==> #[trigger] actions_after(
                begin(id, query, attempts, udp_payload_size).0,
                events,
            )[i] != ActionView::SendUdp,
{
    lemma_tcp_stays_tcp(begin(id, query, attempts, udp_payload_size).0, events);
}

/// A response over UDP that carries the query's ID and is marked truncated
/// is not handed out. The same question is asked again over TCP: the next
/// action is to send over TCP, with the ID and the query unchanged and the
/// full number of attempts.
pub proof fn lemma_truncated_response_goes_to_tcp(state: ExchangeView, message: Seq<u8>)
    requires
        state.remaining > 0,
        state.attempts > 0,
        state.phase is Udp,
        state.matches(message),
        header_truncated(message),
    ensures
        step(state, EventView::Message(message)) == (
            ExchangeView { phase: Phase::Tcp, remaining: state.attempts, ..state },
            ActionView::SendTcp,
        ),
{
}

/// A message whose ID is not the query's is dropped: it is never handed
/// out as the response, and the exchange goes on exactly as after a
/// timeout.
pub proof fn lemma_mismatched_message_is_dropped(state: ExchangeView, message: Seq<u8>)
    requires
        !state.matches(message),
    ensures
        step(state, EventView::Message(message)) == step(state, EventView::Timeout),
        !(step(state, EventView::Message(message)).1 matches ActionView::Done(Ok(Some(_)))),
{
}

/// Only a message with the query's ID becomes the response, and then it
/// is that message.
pub proof fn lemma_response_matches_query(state: ExchangeView, event: EventView, response: Seq<u8>)
    requires
        step(state, event).1 == ActionView::Done(Ok(Some(response))),
    ensures
        event == EventView::Message(response),
        state.matches(response),
        state.phase is Udp ==> !header_truncated(response),
{
}

/// Timeouts and messages with a wrong ID never make an exchange fail: as
/// long as nothing else happens, it asks for the next attempt or ends
/// without a response, and it has ended without a response once all
/// attempts on UDP and on TCP are used up.
pub proof fn lemma_fruitless_events_end_without_error(state: ExchangeView, events: Seq<EventView>)
    requires
        forall|i: int| 0 <= i < events.len() ==> fruitless(state, #[trigger] events[i]),
    ensures
        forall|i: int|
            0 <= i < events.len() ==> !(#[trigger] actions_after(state, events)[i] matches ActionView::Done(
                Err(_),
            )) && !(actions_after(state, events)[i] matches ActionView::Done(Ok(Some(_)))),
        attempts_left(state_after(state, events)) == if attempts_left(state) >= events.len() {
            attempts_left(state) - events.len()
        } else {
            0
        },
        events.len() >= attempts_left(state) && events.len() > 0 ==> actions_after(state, events).last()
            == ActionView::Done(Ok(None)),
    decreases events.len(),
{
    if events.len() > 0 {
        let next = step(state, events[0]).0;
        let rest = events.skip(1);
        lemma_fruitless_events_end_without_error(next, rest);
        lemma_actions_len(next, rest);
    }
}

} // verus!
