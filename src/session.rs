use vstd::prelude::*;

use crate::channel::BusEvent;
use crate::rush::messages::{frames_of, media_frames};
use crate::rush::{views, StreamReceiver, STREAM_PREAMBLE};
use crate::util::{channel_of, parse_channel, PathError};

verus! {

/// The protocol a connection speaks.
#[derive(Copy, Clone, Debug, PartialEq, Eq, Structural)]
pub enum TransportKind {
    /// HTTP/3 WebTransport: datagrams in both directions.
    WebTransport,
    /// WebSocket over TLS: binary frames in both directions.
    WebSocket,
    /// Rush framing on bidirectional QUIC streams.
    Rush,
}

#[derive(Copy, Clone, Debug, PartialEq, Eq, Structural)]
pub enum SessionState {
    Accepting,
    Negotiating,
    /// An HTTP/3 request was accepted; the session waits for its response to
    /// go out before it joins the channel.
    Responding,
    Relaying,
    Closed,
}

/// Kinds of WebSocket message.
#[derive(Copy, Clone, Debug, PartialEq, Eq, Structural)]
pub enum FrameKind {
    Binary,
    Text,
    Ping,
    Pong,
    Close,
}

/// Something that happened on a connection.
#[derive(Clone, Debug)]
pub enum Event {
    /// The transport's own handshake (TLS, QUIC, WebSocket upgrade) is done.
    HandshakeDone,
    /// The transport's own handshake failed.
    HandshakeFailed,
    /// The client asked for a path, with a method where the transport has
    /// one.
    Request { method: String, path: String },
    /// The answer to an accepted HTTP/3 request went out.
    ResponseSent,
    /// A WebTransport datagram came in.
    Datagram(Vec<u8>),
    /// A WebSocket message came in.
    WsFrame(FrameKind, Vec<u8>),
    /// A new Rush stream was accepted; what follows comes on it.
    StreamOpened,
    /// Data came in on the current Rush stream.
    StreamData(Vec<u8>),
    /// The peer will send nothing more.
    IngressEnd,
    /// Reading from the peer failed.
    IngressError,
    /// Writing to the peer failed.
    EgressError,
    /// The session's subscriber took this off the bus.
    Bus(BusEvent),
}

/// What the session asks its transport to do.
#[derive(Clone, Debug)]
pub enum Action {
    /// Answer the request with status 200 and the header
    /// `sec-webtransport-http3-draft: draft02`.
    Respond,
    /// Look the channel of this name up, creating it if need be, and take a
    /// publisher and a fresh subscriber on it.
    Join(String),
    /// Publish these bytes on the channel.
    Publish(Vec<u8>),
    /// Send these bytes to the peer.
    Send(Vec<u8>),
    /// Replace the subscriber with a fresh one at the bus's tail.
    Resubscribe,
    /// End the session and release what it holds.
    Close,
}

/// An event, as plain values.
pub enum Ev {
    HandshakeDone,
    HandshakeFailed,
    Request(Seq<char>, Seq<char>),
    ResponseSent,
    Datagram(Seq<u8>),
    WsFrame(FrameKind, Seq<u8>),
    StreamOpened,
    StreamData(Seq<u8>),
    IngressEnd,
    IngressError,
    EgressError,
    BusMessage(Seq<u8>),
    BusLagged(u64),
    BusClosed,
}

/// An action, as plain values.
pub enum Act {
    Respond,
    Join(Seq<char>),
    Publish(Seq<u8>),
    Send(Seq<u8>),
    Resubscribe,
    Close,
}

impl View for Event {
    type V = Ev;

    open spec fn view(&self) -> Ev {
        match self {
            Event::HandshakeDone => Ev::HandshakeDone,
            Event::HandshakeFailed => Ev::HandshakeFailed,
            Event::Request { method, path } => Ev::Request(method@, path@),
            Event::ResponseSent => Ev::ResponseSent,
            Event::Datagram(b) => Ev::Datagram(b@),
            Event::WsFrame(k, b) => Ev::WsFrame(*k, b@),
            Event::StreamOpened => Ev::StreamOpened,
            Event::StreamData(b) => Ev::StreamData(b@),
            Event::IngressEnd => Ev::IngressEnd,
            Event::IngressError => Ev::IngressError,
            Event::EgressError => Ev::EgressError,
            Event::Bus(BusEvent::Message(b)) => Ev::BusMessage(b@),
            Event::Bus(BusEvent::Lagged(n)) => Ev::BusLagged(*n),
            Event::Bus(BusEvent::Closed) => Ev::BusClosed,
        }
    }
}

impl View for Action {
    type V = Act;

    open spec fn view(&self) -> Act {
        match self {
            Action::Respond => Act::Respond,
            Action::Join(name) => Act::Join(name@),
            Action::Publish(b) => Act::Publish(b@),
            Action::Send(b) => Act::Send(b@),
            Action::Resubscribe => Act::Resubscribe,
            Action::Close => Act::Close,
        }
    }
}

/// The plain values of a sequence of actions.
pub open spec fn acts(v: Seq<Action>) -> Seq<Act> {
    v.map_values(|a: Action| a@)
}

/// Why a request does not open a session.
#[derive(Copy, Clone, Debug, PartialEq, Eq, Structural)]
pub enum NegotiateError {
    /// An HTTP/3 request whose method is not `CONNECT`.
    InvalidMethod,
    /// The path does not name a channel.
    InvalidPath,
}

/// Whether requests on this transport carry an HTTP/3 method to check.
pub open spec fn checks_method(t: TransportKind) -> bool {
    t != TransportKind::WebSocket
}

/// The channel a request joins, or why it joins none.
pub open spec fn negotiation(t: TransportKind, method: Seq<char>, path: Seq<char>) -> Result<
    Seq<char>,
    NegotiateError,
> {
    if checks_method(t) && method != "CONNECT"@ {
        Err(NegotiateError::InvalidMethod)
    } else {
        match channel_of(path) {
            Some(name) => Ok(name),
            None => Err(NegotiateError::InvalidPath),
        }
    }
}

/// The channel name that a request asks for. HTTP/3 transports
/// (WebTransport and Rush) accept only the `CONNECT` method.
pub fn negotiate(transport: TransportKind, method: &String, path: &str) -> (r: Result<
    String,
    NegotiateError,
>)
    ensures
        match negotiation(transport, method@, path@) {
            Ok(name) => r matches Ok(s) && s@ == name,
            Err(e) => r == Err::<String, NegotiateError>(e),
        },
{
    if transport != TransportKind::WebSocket {
        let connect = "CONNECT".to_owned();
        if *method != connect {
            return Err(NegotiateError::InvalidMethod);
        }
    }
    match parse_channel(path) {
        Ok(name) => Ok(name),
        Err(PathError::InvalidPath) => Err(NegotiateError::InvalidPath),
    }
}

/// A session, as plain values.
pub struct SessionView {
    pub transport: TransportKind,
    pub state: SessionState,
    /// The channel an accepted request asked for, while its response is
    /// on its way.
    pub pending: Seq<char>,
    pub buffer: Seq<u8>,
    pub started: bool,
}

/// Events that end a session in whatever state it is.
pub open spec fn is_terminal(e: Ev) -> bool {
    match e {
        Ev::HandshakeFailed | Ev::IngressEnd | Ev::IngressError | Ev::EgressError
        | Ev::BusClosed => true,
        _ => false,
    }
}

/// The session `s` with its state replaced.
pub open spec fn with_state(s: SessionView, state: SessionState) -> SessionView {
    SessionView { state, ..s }
}

/// One publish per frame.
pub open spec fn publishes(frames: Seq<Seq<u8>>) -> Seq<Act> {
    frames.map_values(|f: Seq<u8>| Act::Publish(f))
}

/// How a relaying session answers an event that does not end it.
pub open spec fn relay_step(s: SessionView, e: Ev) -> (SessionView, Seq<Act>) {
    match e {
        Ev::Datagram(b) => if s.transport == TransportKind::WebTransport {
            (s, seq![Act::Publish(b)])
        } else {
            (s, Seq::empty())
        },
        Ev::WsFrame(kind, b) => if s.transport == TransportKind::WebSocket && kind
            == FrameKind::Binary {
            (s, seq![Act::Publish(b)])
        } else {
            (s, Seq::empty())
        },
        Ev::StreamOpened => if s.transport == TransportKind::Rush {
            (SessionView { buffer: Seq::empty(), started: false, ..s }, seq![Act::Resubscribe])
        } else {
            (s, Seq::empty())
        },
        Ev::StreamData(c) => if s.transport == TransportKind::Rush {
            if !s.started && c.len() > 0 && c[0] == STREAM_PREAMBLE {
                (SessionView { started: true, ..s }, Seq::empty())
            } else {
                let (frames, rest) = frames_of(s.buffer + c);
                (SessionView { buffer: rest, started: true, ..s }, publishes(media_frames(frames)))
            }
        } else {
            (s, Seq::empty())
        },
        Ev::BusMessage(b) => (s, seq![Act::Send(b)]),
        Ev::BusLagged(_) => (s, seq![Act::Resubscribe]),
        _ => (s, Seq::empty()),
    }
}

/// The session's next state and what it asks for, on event `e` in `s`.
pub open spec fn next(s: SessionView, e: Ev) -> (SessionView, Seq<Act>) {
    if s.state == SessionState::Closed {
        (s, Seq::empty())
    } else if is_terminal(e) {
        (with_state(s, SessionState::Closed), seq![Act::Close])
    } else {
        match s.state {
            SessionState::Accepting => match e {
                Ev::HandshakeDone => (with_state(s, SessionState::Negotiating), Seq::empty()),
                _ => (s, Seq::empty()),
            },
            SessionState::Negotiating => match e {
                Ev::Request(method, path) => match negotiation(s.transport, method, path) {
                    // HTTP/3 requests are answered first; the channel is
                    // joined once the answer is out.
                    Ok(name) => if checks_method(s.transport) {
                        (
                            SessionView { state: SessionState::Responding, pending: name, ..s },
                            seq![Act::Respond],
                        )
                    } else {
                        (with_state(s, SessionState::Relaying), seq![Act::Join(name)])
                    },
                    Err(_) => (with_state(s, SessionState::Closed), seq![Act::Close]),
                },
                _ => (s, Seq::empty()),
            },
            SessionState::Responding => match e {
                Ev::ResponseSent => (
                    with_state(s, SessionState::Relaying),
                    seq![Act::Join(s.pending)],
                ),
                _ => (s, Seq::empty()),
            },
            _ => relay_step(s, e),
        }
    }
}

/// The per-connection state machine: it negotiates a channel, then relays
/// between the peer and the channel's bus until the connection ends.
pub struct Session {
    pub transport: TransportKind,
    pub state: SessionState,
    pub pending: String,
    pub stream: StreamReceiver,
}

impl View for Session {
    type V = SessionView;

    open spec fn view(&self) -> SessionView {
        SessionView {
            transport: self.transport,
            state: self.state,
            pending: self.pending@,
            buffer: self.stream.buffer@,
            started: self.stream.started,
        }
    }
}

impl Session {
    pub fn new(transport: TransportKind) -> (r: Self)
        ensures
            r@ == (SessionView {
                transport,
                state: SessionState::Accepting,
                pending: Seq::empty(),
                buffer: Seq::empty(),
                started: false,
            }),
    {
        Session {
            transport,
            state: SessionState::Accepting,
            pending: String::new(),
            stream: StreamReceiver::new(),
        }
    }

    /// Whether the session can take `e` in: data on a Rush stream must fit
    /// in memory beside what is buffered.
    pub open spec fn accepts(&self, e: Ev) -> bool {
        e matches Ev::StreamData(c) ==> self.stream.buffer@.len() + c.len() <= usize::MAX
    }

    /// Moves the session on by one event and returns what it asks of its
    /// transport, in order.
    pub fn handle(&mut self, event: Event) -> (r: Vec<Action>)
        requires
            old(self).accepts(event@),
        ensures
            (final(self)@, acts(r@)) == next(old(self)@, event@),
    {
        let ghost s = self@;
        let ghost e = event@;
        if self.state == SessionState::Closed {
            return Vec::new();
        }
        match event {
            Event::HandshakeFailed | Event::IngressEnd | Event::IngressError
            | Event::EgressError | Event::Bus(BusEvent::Closed) => {
                self.state = SessionState::Closed;
                return close();
            },
            _ => {},
        }
        assert(!is_terminal(e));
        match self.state {
            SessionState::Accepting => {
                if let Event::HandshakeDone = event {
                    self.state = SessionState::Negotiating;
                }
                Vec::new()
            },
            SessionState::Negotiating => {
                if let Event::Request { method, path } = event {
                    match negotiate(self.transport, &method, path.as_str()) {
                        Ok(name) => {
                            let mut r: Vec<Action> = Vec::new();
                            if self.transport != TransportKind::WebSocket {
                                self.state = SessionState::Responding;
                                self.pending = name;
                                r.push(Action::Respond);
                                assert(acts(r@) =~= seq![Act::Respond]);
                            } else {
                                self.state = SessionState::Relaying;
                                let ghost n = name@;
                                r.push(Action::Join(name));
                                assert(acts(r@) =~= seq![Act::Join(n)]);
                            }
                            r
                        },
                        Err(_) => {
                            self.state = SessionState::Closed;
                            close()
                        },
                    }
                } else {
                    Vec::new()
                }
            },
            SessionState::Responding => {
                let mut r: Vec<Action> = Vec::new();
                if let Event::ResponseSent = event {
                    self.state = SessionState::Relaying;
                    r.push(Action::Join(self.pending.clone()));
                    assert(acts(r@) =~= seq![Act::Join(s.pending)]);
                }
                r
            },
            _ => self.relay(event),
        }
    }

    fn relay(&mut self, event: Event) -> (r: Vec<Action>)
        requires
            old(self).state == SessionState::Relaying,
            old(self).accepts(event@),
            !is_terminal(event@),
        ensures
            (final(self)@, acts(r@)) == relay_step(old(self)@, event@),
    {
        let mut r: Vec<Action> = Vec::new();
        match event {
            Event::Datagram(b) => {
                if self.transport == TransportKind::WebTransport {
                    r.push(Action::Publish(b));
                }
            },
            Event::WsFrame(kind, b) => {
                if self.transport == TransportKind::WebSocket && kind == FrameKind::Binary {
                    r.push(Action::Publish(b));
                }
            },
            Event::StreamOpened => {
                if self.transport == TransportKind::Rush {
                    self.stream = StreamReceiver::new();
                    r.push(Action::Resubscribe);
                }
            },
            Event::StreamData(chunk) => {
                if self.transport == TransportKind::Rush {
                    let frames = self.stream.receive(chunk.as_slice());
                    r = publish_all(frames);
                }
            },
            Event::Bus(BusEvent::Message(b)) => {
                r.push(Action::Send(b));
            },
            Event::Bus(BusEvent::Lagged(_)) => {
                r.push(Action::Resubscribe);
            },
            _ => {},
        }
        proof {
            assert(acts(r@) =~= relay_step(old(self)@, event@).1);
        }
        r
    }
}

fn close() -> (r: Vec<Action>)
    ensures
        acts(r@) == seq![Act::Close],
{
    let mut r: Vec<Action> = Vec::new();
    r.push(Action::Close);
    assert(acts(r@) =~= seq![Act::Close]);
    r
}

/// One publish action per frame, in order.
fn publish_all(frames: Vec<Vec<u8>>) -> (r: Vec<Action>)
    ensures
        acts(r@) == publishes(views(frames@)),
{
    let ghost all = frames@;
    let mut r: Vec<Action> = Vec::new();
    for f in it: frames.into_iter()
        invariant
            it.seq() == all,
            r@.len() == it.index(),
            acts(r@) == publishes(views(all.take(it.index()))),
    {
        let ghost i = it.index();
        let ghost before = r@;
        assert(f == all[i]);
        r.push(Action::Publish(f));
        assert forall|k: int| 0 <= k < i + 1 implies #[trigger] acts(r@)[k] == publishes(
            views(all.take(i + 1)),
        )[k] by {
            if k < i {
                assert(acts(before)[k] == publishes(views(all.take(i)))[k]);
            }
        }
        assert(acts(r@) =~= publishes(views(all.take(i + 1))));
    }
    assert(all.take(all.len() as int) =~= all);
    r
}

/// On HTTP/3 transports no channel is joined before the answer to the
/// request has gone out: from negotiation or while the answer is pending,
/// only `ResponseSent` leads to a join, and a failed write closes instead.
pub proof fn lemma_join_waits_for_response(s: SessionView, e: Ev)
    requires
        checks_method(s.transport),
        s.state == SessionState::Negotiating || s.state == SessionState::Responding,
        !(e is ResponseSent),
    ensures
        forall|i: int| 0 <= i < next(s, e).1.len() ==> !(#[trigger] next(s, e).1[i] is Join),
        e is EgressError ==> next(s, e) == (with_state(s, SessionState::Closed), seq![Act::Close]),
{
}

} // verus!
