// 0       1       2       3       4       5       6       7
// +--------------------------------------------------------------+
// |                       Length (64)                            |
// +--------------------------------------------------------------+
// |                       ID (64)                                |
// +-------+------------------------------------------------------+
// |Type(8)| Payload ...                                          |
// +-------+------------------------------------------------------+
use vstd::prelude::*;

verus! {

/// Bytes in the fixed Rush header: length (8), id (8), type (1).
pub const HEADER_LEN: usize = 17;

/// Fewest buffered bytes on which a parse is attempted at all.
pub const MIN_PARSE_LEN: usize = 20;

/// Value of a big-endian byte string.
pub open spec fn be_value(s: Seq<u8>) -> nat
    decreases s.len(),
{
    if s.len() == 0 {
        0
    } else {
        (be_value(s.drop_last()) * 256 + s.last()) as nat
    }
}

/// `256^n`: one past the largest value of `n` big-endian bytes.
pub open spec fn byte_bound(n: nat) -> nat
    decreases n,
{
    if n == 0 {
        1
    } else {
        byte_bound((n - 1) as nat) * 256
    }
}

/// A big-endian value of `n` bytes is below `256^n`.
pub proof fn lemma_be_value_bound(s: Seq<u8>)
    ensures
        be_value(s) < byte_bound(s.len()),
    decreases s.len(),
{
    if s.len() > 0 {
        let p = s.drop_last();
        lemma_be_value_bound(p);
        let v = be_value(p);
        let b = byte_bound(p.len());
        let x = s.last() as nat;
        assert(v * 256 + x < b * 256) by (nonlinear_arith)
            requires
                v < b,
                x < 256,
        ;
    }
}

/// Reads the big-endian `u64` stored at `data[start..start + 8]`.
pub fn read_be_u64(data: &[u8], start: usize) -> (r: u64)
    requires
        start + 8 <= data@.len(),
    ensures
        r as nat == be_value(data@.subrange(start as int, start + 8)),
{
    let mut acc: u64 = 0;
    let mut i: usize = 0;
    while i < 8
        invariant
            i <= 8,
            start + 8 <= data.len(),
            acc as nat == be_value(data@.subrange(start as int, start + i)),
        decreases 8 - i,
    {
        let ghost prefix = data@.subrange(start as int, start + i);
        let ghost next = data@.subrange(start as int, start + i + 1);
        proof {
            lemma_be_value_bound(prefix);
            reveal_with_fuel(byte_bound, 8);
            assert(byte_bound(7) == 72057594037927936nat);
            assert(next.drop_last() == prefix);
            assert(next.last() == data@[start + i]);
            assert(byte_bound(prefix.len()) <= byte_bound(7)) by {
                lemma_byte_bound_monotonic(prefix.len(), 7);
            }
        }
        acc = acc * 256 + data[start + i] as u64;
        i = i + 1;
    }
    acc
}

proof fn lemma_byte_bound_monotonic(a: nat, b: nat)
    requires
        a <= b,
    ensures
        byte_bound(a) <= byte_bound(b),
    decreases b,
{
    if a < b {
        lemma_byte_bound_monotonic(a, (b - 1) as nat);
    }
}


#[derive(Copy, Clone, Debug, PartialEq, Eq, Structural)]
pub enum MessageType {
    Connect,
    ConnectAck,
    AudioFrame,
    VideoFrame,
    Unknown,
}

/// The message type that a type byte stands for.
pub open spec fn message_type_of(b: u8) -> MessageType {
    if b == 0x00 {
        MessageType::Connect
    } else if b == 0x01 {
        MessageType::ConnectAck
    } else if b == 0x0D {
        MessageType::VideoFrame
    } else if b == 0x14 {
        MessageType::AudioFrame
    } else {
        MessageType::Unknown
    }
}

/// The type byte written for a message type.
pub open spec fn message_type_code(t: MessageType) -> u8 {
    match t {
        MessageType::Connect => 0x00,
        MessageType::ConnectAck => 0x01,
        MessageType::AudioFrame => 0x14,
        MessageType::VideoFrame => 0x0D,
        MessageType::Unknown => 0xFF,
    }
}

impl From<u8> for MessageType {
    fn from(i: u8) -> Self {
        match i {
            0x00 => MessageType::Connect,
            0x01 => MessageType::ConnectAck,
            0x0D => MessageType::VideoFrame,
            0x14 => MessageType::AudioFrame,
            _ => MessageType::Unknown,
        }
    }
}

impl vstd::std_specs::convert::FromSpecImpl<u8> for MessageType {
    open spec fn obeys_from_spec() -> bool {
        true
    }

    open spec fn from_spec(v: u8) -> Self {
        message_type_of(v)
    }
}

impl From<MessageType> for u8 {
    fn from(t: MessageType) -> Self {
        match t {
            MessageType::Connect => 0x00,
            MessageType::ConnectAck => 0x01,
            MessageType::AudioFrame => 0x14,
            MessageType::VideoFrame => 0x0D,
            MessageType::Unknown => 0xFF,
        }
    }
}

impl vstd::std_specs::convert::FromSpecImpl<MessageType> for u8 {
    open spec fn obeys_from_spec() -> bool {
        true
    }

    open spec fn from_spec(v: MessageType) -> Self {
        message_type_code(v)
    }
}

#[derive(Copy, Clone, Debug, PartialEq, Eq, Structural)]
pub struct RushHeader {
    pub length: u64,
    pub id: u64,
    pub message_type: MessageType,
}

#[derive(Copy, Clone, Debug, PartialEq, Eq, Structural)]
pub struct ConnectMessage {
    pub header: RushHeader,
}

#[derive(Copy, Clone, Debug, PartialEq, Eq, Structural)]
pub struct AudioFrameMessage {
    pub header: RushHeader,
}

#[derive(Copy, Clone, Debug, PartialEq, Eq, Structural)]
pub struct VideoFrameMessage {
    pub header: RushHeader,
}

#[derive(Copy, Clone, Debug, PartialEq, Eq, Structural)]
pub enum RushMessages {
    Connect(ConnectMessage),
    AudioFrame(AudioFrameMessage),
    VideoFrame(VideoFrameMessage),
}

/// Why a buffer did not yield a frame.
#[derive(Copy, Clone, Debug, PartialEq, Eq, Structural)]
pub enum ParseError {
    /// The buffer holds no complete frame yet; nothing may be consumed.
    NeedMore,
    /// The frame at the front cannot be used; the given number of bytes is
    /// to be dropped before the next attempt.
    Malformed(usize),
}

/// The length field of the header at the front of `s`.
pub open spec fn declared_length(s: Seq<u8>) -> nat {
    be_value(s.subrange(0, 8))
}

/// The id field of the header at the front of `s`.
pub open spec fn declared_id(s: Seq<u8>) -> nat {
    be_value(s.subrange(8, 16))
}

/// The header at the front of `s` (which holds at least the header's bytes).
pub open spec fn header_of(s: Seq<u8>) -> RushHeader {
    RushHeader {
        length: declared_length(s) as u64,
        id: declared_id(s) as u64,
        message_type: message_type_of(s[16]),
    }
}

/// What parsing the front of `s` yields: the frame and the bytes it spans,
/// or why there is none.
pub open spec fn parse_spec(s: Seq<u8>) -> Result<(RushMessages, usize), ParseError> {
    if s.len() < MIN_PARSE_LEN || s.len() < declared_length(s) {
        Err(ParseError::NeedMore)
    } else {
        let header = header_of(s);
        let length = declared_length(s);
        if length < HEADER_LEN {
            // A header that claims to be shorter than itself: drop that header.
            Err(ParseError::Malformed(HEADER_LEN))
        } else {
            match header.message_type {
                MessageType::Connect => Ok(
                    (RushMessages::Connect(ConnectMessage { header }), length as usize),
                ),
                MessageType::AudioFrame => Ok(
                    (RushMessages::AudioFrame(AudioFrameMessage { header }), length as usize),
                ),
                MessageType::VideoFrame => Ok(
                    (RushMessages::VideoFrame(VideoFrameMessage { header }), length as usize),
                ),
                _ => Err(ParseError::Malformed(length as usize)),
            }
        }
    }
}

/// Parses the Rush frame at the front of `data`.
///
/// Returns the frame with the number of bytes it spans (its declared
/// length), `NeedMore` while fewer than `MIN_PARSE_LEN` or fewer than the
/// declared length are buffered, and `Malformed` with the number of bytes to
/// drop for a frame of a type that is never relayed or a length below the
/// header's own size.
pub fn parse(data: &[u8]) -> (r: Result<(RushMessages, usize), ParseError>)
    ensures
        r == parse_spec(data@),
        r matches Ok((_, n)) ==> HEADER_LEN <= n <= data@.len(),
        r matches Err(ParseError::Malformed(n)) ==> HEADER_LEN <= n <= data@.len(),
{
    let data_length = data.len();
    if data_length < MIN_PARSE_LEN {
        return Err(ParseError::NeedMore);
    }
    let length = read_be_u64(data, 0);
    if (data_length as u64) < length {
        return Err(ParseError::NeedMore);
    }
    let id = read_be_u64(data, 8);
    let message_type = MessageType::from(data[16]);
    let header = RushHeader { length, id, message_type };
    let consumed = length as usize;
    if consumed < HEADER_LEN {
        return Err(ParseError::Malformed(HEADER_LEN));
    }
    match message_type {
        MessageType::Connect => Ok((RushMessages::Connect(ConnectMessage { header }), consumed)),
        MessageType::AudioFrame => Ok(
            (RushMessages::AudioFrame(AudioFrameMessage { header }), consumed),
        ),
        MessageType::VideoFrame => Ok(
            (RushMessages::VideoFrame(VideoFrameMessage { header }), consumed),
        ),
        _ => Err(ParseError::Malformed(consumed)),
    }
}


/// The frames that repeated parse-and-consume takes off the front of `s`,
/// and the bytes left once it needs more. Dropped malformed bytes are in
/// neither.
pub open spec fn frames_of(s: Seq<u8>) -> (Seq<Seq<u8>>, Seq<u8>)
    decreases s.len(),
{
    match parse_spec(s) {
        Ok((_, n)) => {
            if 0 < n <= s.len() {
                let rest = frames_of(s.subrange(n as int, s.len() as int));
                (seq![s.subrange(0, n as int)] + rest.0, rest.1)
            } else {
                (Seq::empty(), s)
            }
        },
        Err(ParseError::Malformed(n)) => {
            if 0 < n <= s.len() {
                frames_of(s.subrange(n as int, s.len() as int))
            } else {
                (Seq::empty(), s)
            }
        },
        Err(ParseError::NeedMore) => (Seq::empty(), s),
    }
}

/// A well-formed Rush frame of a type that parses: its length field is its
/// own length, and it is long enough to be parsed on its own.
pub open spec fn is_frame(f: Seq<u8>) -> bool {
    &&& MIN_PARSE_LEN <= f.len() <= usize::MAX
    &&& declared_length(f) == f.len()
    &&& (f[16] == 0x00 || f[16] == 0x0D || f[16] == 0x14)
}

/// The frames `fs` written one after another.
pub open spec fn join_frames(fs: Seq<Seq<u8>>) -> Seq<u8>
    decreases fs.len(),
{
    if fs.len() == 0 {
        Seq::empty()
    } else {
        fs[0] + join_frames(fs.drop_first())
    }
}

/// A frame that carries media (audio or video) and so is relayed.
pub open spec fn is_media_frame(f: Seq<u8>) -> bool {
    f.len() > 16 && (f[16] == 0x0D || f[16] == 0x14)
}

/// The media frames among `fs`, in order.
pub open spec fn media_frames(fs: Seq<Seq<u8>>) -> Seq<Seq<u8>>
    decreases fs.len(),
{
    if fs.len() == 0 {
        Seq::empty()
    } else if is_media_frame(fs[0]) {
        seq![fs[0]] + media_frames(fs.drop_first())
    } else {
        media_frames(fs.drop_first())
    }
}

/// Parsing depends only on the front of the buffer: once a buffer yields a
/// frame or a malformed verdict, bytes appended after it change nothing.
pub proof fn lemma_parse_prefix(x: Seq<u8>, y: Seq<u8>)
    requires
        parse_spec(x) != Err::<(RushMessages, usize), ParseError>(ParseError::NeedMore),
    ensures
        parse_spec(x + y) == parse_spec(x),
{
    let s = x + y;
    assert(s.subrange(0, 8) =~= x.subrange(0, 8));
    assert(s.subrange(8, 16) =~= x.subrange(8, 16));
    assert(s[16] == x[16]);
}

/// A buffer holding fewer bytes than the length its header declares is
/// never parsed: it needs more. In particular every proper prefix of a frame
/// needs more.
pub proof fn lemma_short_prefix_needs_more(f: Seq<u8>, k: int)
    requires
        f.len() >= 8,
        0 <= k <= f.len(),
        k < declared_length(f),
    ensures
        parse_spec(f.subrange(0, k)) == Err::<(RushMessages, usize), ParseError>(
            ParseError::NeedMore,
        ),
        frames_of(f.subrange(0, k)) == (Seq::<Seq<u8>>::empty(), f.subrange(0, k)),
{
    let p = f.subrange(0, k);
    if k >= MIN_PARSE_LEN {
        assert(p.subrange(0, 8) =~= f.subrange(0, 8));
    }
}

/// Well-formed frames written back to back are taken apart again exactly,
/// in order, with nothing left over.
pub proof fn lemma_frames_round_trip(fs: Seq<Seq<u8>>)
    requires
        forall|i: int| 0 <= i < fs.len() ==> is_frame(#[trigger] fs[i]),
    ensures
        frames_of(join_frames(fs)) == (fs, Seq::<u8>::empty()),
    decreases fs.len(),
{
    if fs.len() == 0 {
        assert(frames_of(Seq::<u8>::empty()) == (Seq::<Seq<u8>>::empty(), Seq::<u8>::empty()));
    } else {
        let x = fs[0];
        let tail = fs.drop_first();
        let rest = join_frames(tail);
        let s = x + rest;
        assert(is_frame(x));
        assert(forall|i: int| 0 <= i < tail.len() ==> is_frame(#[trigger] tail[i])) by {
            assert forall|i: int| 0 <= i < tail.len() implies is_frame(#[trigger] tail[i]) by {
                assert(tail[i] == fs[i + 1]);
            }
        }
        lemma_frames_round_trip(tail);
        lemma_parse_prefix(x, rest);
        let n = x.len();
        assert(parse_spec(x) matches Ok((_, m)) && m == n);
        assert(s.subrange(n as int, s.len() as int) =~= rest);
        assert(s.subrange(0, n as int) =~= x);
        assert(seq![x] + tail =~= fs);
    }
}

} // verus!
