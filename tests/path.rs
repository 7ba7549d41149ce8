use prism::session::{negotiate, NegotiateError, TransportKind};
use prism::util::{parse_channel, PathError};

#[test]
fn channel_path_names_channel() {
    assert_eq!(parse_channel("/channels/lobby").unwrap(), "lobby");
    assert_eq!(parse_channel("channels/room").unwrap(), "room");
    assert_eq!(parse_channel("//channels///lobby/").unwrap(), "lobby");
}

#[test]
fn invalid_paths_are_rejected() {
    assert_eq!(parse_channel("/lobby"), Err(PathError::InvalidPath));
    assert_eq!(parse_channel("/channels/"), Err(PathError::InvalidPath));
    assert_eq!(parse_channel("/channels/a/b"), Err(PathError::InvalidPath));
    assert_eq!(parse_channel("/rooms/lobby"), Err(PathError::InvalidPath));
    assert_eq!(parse_channel(""), Err(PathError::InvalidPath));
    assert_eq!(parse_channel("/channel/lobby"), Err(PathError::InvalidPath));
}

#[test]
fn non_ascii_channel_name() {
    assert_eq!(parse_channel("/channels/caf\u{e9}").unwrap(), "caf\u{e9}");
}

#[test]
fn http3_requests_need_connect() {
    let connect = "CONNECT".to_string();
    let get = "GET".to_string();
    assert_eq!(
        negotiate(TransportKind::WebTransport, &connect, "/channels/lobby").unwrap(),
        "lobby"
    );
    assert_eq!(
        negotiate(TransportKind::Rush, &get, "/channels/lobby"),
        Err(NegotiateError::InvalidMethod)
    );
    assert_eq!(
        negotiate(TransportKind::WebSocket, &get, "/channels/room").unwrap(),
        "room"
    );
    assert_eq!(
        negotiate(TransportKind::WebTransport, &connect, "/rooms/lobby"),
        Err(NegotiateError::InvalidPath)
    );
}
