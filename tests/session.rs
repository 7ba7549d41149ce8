use prism::channel::BusEvent;
use prism::session::{Action, Event, FrameKind, Session, SessionState, TransportKind};

fn request(method: &str, path: &str) -> Event {
    Event::Request { method: method.to_string(), path: path.to_string() }
}

fn open(transport: TransportKind, method: &str, path: &str) -> (Session, Vec<Action>) {
    let mut s = Session::new(transport);
    assert!(s.handle(Event::HandshakeDone).is_empty());
    assert_eq!(s.state, SessionState::Negotiating);
    let actions = s.handle(request(method, path));
    (s, actions)
}

fn publishes(actions: &[Action]) -> Vec<Vec<u8>> {
    actions
        .iter()
        .filter_map(|a| match a {
            Action::Publish(b) => Some(b.clone()),
            _ => None,
        })
        .collect()
}

#[test]
fn webtransport_joins_and_relays_datagrams() {
    let (mut s, actions) = open(TransportKind::WebTransport, "CONNECT", "/channels/lobby");
    assert_eq!(s.state, SessionState::Responding);
    assert!(matches!(&actions[..], [Action::Respond]));
    let actions = s.handle(Event::ResponseSent);
    assert_eq!(s.state, SessionState::Relaying);
    assert!(matches!(&actions[..], [Action::Join(n)] if n == "lobby"));

    let out = s.handle(Event::Datagram(vec![0x01, 0x02, 0x03]));
    assert_eq!(publishes(&out), vec![vec![0x01, 0x02, 0x03]]);

    let out = s.handle(Event::Bus(BusEvent::Message(vec![0x01, 0x02, 0x03])));
    assert!(matches!(&out[..], [Action::Send(b)] if b == &vec![0x01, 0x02, 0x03]));
}

#[test]
fn websocket_relays_binary_frames_only() {
    let (mut s, actions) = open(TransportKind::WebSocket, "GET", "/channels/room");
    assert_eq!(actions.len(), 1);
    assert!(matches!(&actions[0], Action::Join(n) if n == "room"));
    assert!(s.handle(Event::WsFrame(FrameKind::Text, b"hello".to_vec())).is_empty());
    assert!(s.handle(Event::WsFrame(FrameKind::Ping, vec![])).is_empty());
    let out = s.handle(Event::WsFrame(FrameKind::Binary, vec![0xDE, 0xAD]));
    assert_eq!(publishes(&out), vec![vec![0xDE, 0xAD]]);
}

#[test]
fn invalid_path_closes_without_relay() {
    let (mut s, actions) = open(TransportKind::WebTransport, "CONNECT", "/rooms/lobby");
    assert_eq!(s.state, SessionState::Closed);
    assert!(matches!(&actions[..], [Action::Close]));
    assert!(s.handle(Event::Datagram(vec![1])).is_empty());
}

#[test]
fn wrong_method_closes() {
    let (s, actions) = open(TransportKind::Rush, "GET", "/channels/lobby");
    assert_eq!(s.state, SessionState::Closed);
    assert!(matches!(&actions[..], [Action::Close]));
}

#[test]
fn handshake_failure_closes() {
    let mut s = Session::new(TransportKind::WebSocket);
    let out = s.handle(Event::HandshakeFailed);
    assert_eq!(s.state, SessionState::Closed);
    assert!(matches!(&out[..], [Action::Close]));
}

#[test]
fn lag_resubscribes_and_continues() {
    let (mut s, _) = open(TransportKind::WebSocket, "GET", "/channels/lobby");
    let out = s.handle(Event::Bus(BusEvent::Lagged(136)));
    assert!(matches!(&out[..], [Action::Resubscribe]));
    assert_eq!(s.state, SessionState::Relaying);
}

#[test]
fn terminal_events_close() {
    for e in [
        Event::IngressEnd,
        Event::IngressError,
        Event::EgressError,
        Event::Bus(BusEvent::Closed),
    ] {
        let (mut s, _) = open(TransportKind::WebSocket, "GET", "/channels/lobby");
        let out = s.handle(e);
        assert_eq!(s.state, SessionState::Closed);
        assert!(matches!(&out[..], [Action::Close]));
    }
}

#[test]
fn rush_stream_skips_preamble_and_publishes_frames() {
    let (mut s, actions) = open(TransportKind::Rush, "CONNECT", "/channels/live");
    assert!(matches!(&actions[..], [Action::Respond]));
    let actions = s.handle(Event::ResponseSent);
    assert!(matches!(&actions[..], [Action::Join(n)] if n == "live"));
    let out = s.handle(Event::StreamOpened);
    assert!(matches!(&out[..], [Action::Resubscribe]));

    let mut frame = Vec::new();
    frame.extend_from_slice(&25u64.to_be_bytes());
    frame.extend_from_slice(&7u64.to_be_bytes());
    frame.push(0x14);
    frame.extend_from_slice(&[0, 1, 2, 3, 4, 5, 6, 7]);

    assert!(s.handle(Event::StreamData(vec![0x40])).is_empty());
    let out = s.handle(Event::StreamData(frame.clone()));
    assert_eq!(publishes(&out), vec![frame]);
}

#[test]
fn failed_response_closes_without_joining() {
    let (mut s, actions) = open(TransportKind::WebTransport, "CONNECT", "/channels/lobby");
    assert!(matches!(&actions[..], [Action::Respond]));
    // Nothing is relayed while the answer is pending.
    assert!(s.handle(Event::Datagram(vec![1])).is_empty());
    let out = s.handle(Event::EgressError);
    assert_eq!(s.state, SessionState::Closed);
    assert!(matches!(&out[..], [Action::Close]));
    assert!(s.handle(Event::ResponseSent).is_empty());
}
