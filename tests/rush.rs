use prism::rush::messages::{parse, MessageType, ParseError, RushMessages};
use prism::rush::StreamReceiver;

fn frame(length: u64, id: u64, kind: u8, payload: &[u8]) -> Vec<u8> {
    let mut f = Vec::new();
    f.extend_from_slice(&length.to_be_bytes());
    f.extend_from_slice(&id.to_be_bytes());
    f.push(kind);
    f.extend_from_slice(payload);
    f
}

#[test]
fn parse_test() {
    let data: Vec<u8> = vec![0x04, 0x02, 0x03, 0x08, 0x02, 0x28, 0x01, 0x03];
    let _ = parse(&data);
}

#[test]
fn short_buffer_needs_more() {
    let data: Vec<u8> = vec![0x04, 0x02, 0x03, 0x08, 0x02, 0x28, 0x01, 0x03];
    assert_eq!(parse(&data).unwrap_err(), ParseError::NeedMore);
}

#[test]
fn two_frames_parse_in_turn() {
    let payload1: Vec<u8> = (0x00..=0x07).collect();
    let payload2: Vec<u8> = vec![0xFF, 0xFE, 0xFD, 0xFC, 0xFB, 0xFA, 0xF9, 0xF8];
    let f1 = frame(25, 7, 0x14, &payload1);
    let f2 = frame(25, 8, 0x0D, &payload2);
    let mut data = f1.clone();
    data.extend_from_slice(&f2);

    let (msg, n) = parse(&data).unwrap();
    assert_eq!(n, 25);
    match msg {
        RushMessages::AudioFrame(m) => {
            assert_eq!(m.header.length, 25);
            assert_eq!(m.header.id, 7);
            assert_eq!(m.header.message_type, MessageType::AudioFrame);
        }
        other => panic!("expected an audio frame, got {:?}", other),
    }
    let rest = &data[n..];
    let (msg, n) = parse(rest).unwrap();
    assert_eq!(n, 25);
    match msg {
        RushMessages::VideoFrame(m) => {
            assert_eq!(m.header.id, 8);
            assert_eq!(m.header.message_type, MessageType::VideoFrame);
        }
        other => panic!("expected a video frame, got {:?}", other),
    }
    assert_eq!(parse(&rest[n..]).unwrap_err(), ParseError::NeedMore);
}

#[test]
fn connect_frame_parses() {
    let f = frame(20, 1, 0x00, &[1, 2, 3]);
    match parse(&f) {
        Ok((RushMessages::Connect(m), 20)) => assert_eq!(m.header.id, 1),
        other => panic!("unexpected {:?}", other),
    }
}

#[test]
fn parse_ignores_trailing_bytes() {
    let f = frame(21, 99, 0x14, &[9, 9, 9, 9]);
    let mut longer = f.clone();
    longer.extend_from_slice(&[0xAA; 30]);
    let a = parse(&f).unwrap();
    let b = parse(&longer).unwrap();
    assert_eq!(a, b);
}

#[test]
fn every_proper_prefix_needs_more() {
    let f = frame(30, 3, 0x0D, &[7; 13]);
    for k in 0..f.len() {
        assert_eq!(parse(&f[..k]).unwrap_err(), ParseError::NeedMore);
    }
    assert_eq!(parse(&f).unwrap().1, 30);
}

#[test]
fn unknown_and_connect_ack_are_malformed() {
    let ack = frame(20, 1, 0x01, &[0, 0, 0]);
    assert_eq!(parse(&ack).unwrap_err(), ParseError::Malformed(20));
    let unknown = frame(24, 1, 0x55, &[0; 7]);
    assert_eq!(parse(&unknown).unwrap_err(), ParseError::Malformed(24));
}

#[test]
fn header_shorter_than_itself_is_malformed() {
    let f = frame(5, 1, 0x14, &[0; 3]);
    assert_eq!(parse(&f).unwrap_err(), ParseError::Malformed(17));
}

#[test]
fn message_type_codes() {
    assert_eq!(MessageType::from(0x00), MessageType::Connect);
    assert_eq!(MessageType::from(0x01), MessageType::ConnectAck);
    assert_eq!(MessageType::from(0x0D), MessageType::VideoFrame);
    assert_eq!(MessageType::from(0x14), MessageType::AudioFrame);
    assert_eq!(MessageType::from(0x02), MessageType::Unknown);
    assert_eq!(u8::from(MessageType::AudioFrame), 0x14);
    assert_eq!(u8::from(MessageType::VideoFrame), 0x0D);
    assert_eq!(u8::from(MessageType::Unknown), 0xFF);
}

#[test]
fn stream_relays_media_frames_in_order() {
    let f1 = frame(20, 1, 0x00, &[0; 3]);
    let f2 = frame(22, 2, 0x14, &[1; 5]);
    let f3 = frame(21, 3, 0x0D, &[2; 4]);
    let mut all = f1.clone();
    all.extend_from_slice(&f2);
    all.extend_from_slice(&f3);

    let mut rx = StreamReceiver::new();
    // Fed in small pieces: frames come out exactly as written.
    let mut out: Vec<Vec<u8>> = Vec::new();
    for piece in all.chunks(7) {
        out.extend(rx.receive(piece));
    }
    assert_eq!(out, vec![f2, f3]);
    assert!(rx.buffer.is_empty());
}

#[test]
fn stream_keeps_partial_frame() {
    let f = frame(30, 3, 0x0D, &[7; 13]);
    let mut rx = StreamReceiver::new();
    let out = rx.receive(&f[..25]);
    assert!(out.is_empty());
    assert_eq!(rx.buffer, f[..25].to_vec());
    let out = rx.receive(&f[25..]);
    assert_eq!(out, vec![f]);
}

#[test]
fn leading_preamble_chunk_is_dropped() {
    let f = frame(20, 1, 0x14, &[5, 6, 7]);
    let mut rx = StreamReceiver::new();
    assert!(rx.receive(&[0x40]).is_empty());
    assert_eq!(rx.receive(&f), vec![f.clone()]);
    // Only the very first chunk of a stream is treated so.
    let mut later = vec![0x40];
    later.extend_from_slice(&f);
    assert!(rx.receive(&later).is_empty());
    assert_eq!(rx.buffer, later);
}

#[test]
fn malformed_frame_is_skipped() {
    let bad = frame(20, 1, 0x01, &[0; 3]);
    let good = frame(20, 2, 0x14, &[1; 3]);
    let mut all = bad.clone();
    all.extend_from_slice(&good);
    let mut rx = StreamReceiver::new();
    assert_eq!(rx.receive(&all), vec![good]);
    assert!(rx.buffer.is_empty());
}
