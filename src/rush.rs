pub mod messages;

use vstd::prelude::*;

use crate::rush::messages::{
    frames_of, is_media_frame, media_frames, parse, ParseError, RushMessages,
};
use crate::server::ServerPtr;

verus! {

/// The byte contents of each buffer in `vs`.
pub open spec fn views(vs: Seq<Vec<u8>>) -> Seq<Seq<u8>> {
    vs.map_values(|v: Vec<u8>| v@)
}

proof fn lemma_media_cons(f: Seq<u8>, xs: Seq<Seq<u8>>)
    ensures
        media_frames(seq![f] + xs) == if is_media_frame(f) {
            seq![f] + media_frames(xs)
        } else {
            media_frames(xs)
        },
{
    let s = seq![f] + xs;
    assert(s[0] == f);
    assert(s.drop_first() =~= xs);
}

/// The Rush module: publishers connect over QUIC and send Rush frames.
pub struct RushModule {
    pub name: String,
    pub server: ServerPtr,
}

impl RushModule {
    pub fn new(server: ServerPtr) -> (r: Self)
        ensures
            r.name@ == "rush"@,
            r.server == server,
    {
        RushModule { name: "rush".to_owned(), server }
    }
}

/// First byte of an HTTP/3 framing artifact that may open a Rush stream.
pub const STREAM_PREAMBLE: u8 = 0x40;

/// Receive state of one Rush stream: the bytes that do not yet form a
/// frame, and whether a data chunk has arrived on the stream yet.
pub struct StreamReceiver {
    pub buffer: Vec<u8>,
    pub started: bool,
}

impl StreamReceiver {
    pub fn new() -> (r: Self)
        ensures
            r.buffer@ == Seq::<u8>::empty(),
            !r.started,
    {
        StreamReceiver { buffer: Vec::new(), started: false }
    }

    /// Whether `chunk`, arriving next, is the stream's leading framing
    /// artifact and is dropped whole.
    pub open spec fn skips(&self, chunk: Seq<u8>) -> bool {
        !self.started && chunk.len() > 0 && chunk[0] == STREAM_PREAMBLE
    }

    /// Takes in the next data chunk of the stream and returns the bytes of
    /// each media frame that is now complete, in order, to be relayed.
    /// Connect frames are consumed without being relayed; malformed frames
    /// are dropped. What does not yet form a frame stays buffered.
    pub fn receive(&mut self, chunk: &[u8]) -> (published: Vec<Vec<u8>>)
        requires
            old(self).buffer@.len() + chunk@.len() <= usize::MAX,
        ensures
            final(self).started,
            old(self).skips(chunk@) ==> final(self).buffer@ == old(self).buffer@
                && published@.len() == 0,
            !old(self).skips(chunk@) ==> final(self).buffer@ == frames_of(
                old(self).buffer@ + chunk@,
            ).1 && views(published@) == media_frames(
                frames_of(old(self).buffer@ + chunk@).0,
            ),
    {
        let first = !self.started;
        self.started = true;
        if first && chunk.len() > 0 && chunk[0] == STREAM_PREAMBLE {
            return Vec::new();
        }
        let ghost all = old(self).buffer@ + chunk@;
        let mut buf: Vec<u8> = Vec::new();
        std::mem::swap(&mut buf, &mut self.buffer);
        buf.extend_from_slice(chunk);
        assert(buf@ =~= all);
        let mut published: Vec<Vec<u8>> = Vec::new();
        loop
            invariant
                views(published@) + media_frames(frames_of(buf@).0) == media_frames(
                    frames_of(all).0,
                ),
                frames_of(buf@).1 == frames_of(all).1,
            ensures
                frames_of(buf@) == (Seq::<Seq<u8>>::empty(), buf@),
            decreases buf@.len(),
        {
            let ghost before = buf@;
            match parse(buf.as_slice()) {
                Ok((msg, n)) => {
                    let rest = buf.split_off(n);
                    let frame = buf;
                    buf = rest;
                    proof {
                        assert(frame@ == before.subrange(0, n as int));
                        assert(buf@ == before.subrange(n as int, before.len() as int));
                    }
                    match msg {
                        RushMessages::Connect(_) => {
                            proof {
                                lemma_media_cons(frame@, frames_of(buf@).0);
                            }
                            assert(views(published@) + media_frames(frames_of(buf@).0)
                                =~= views(published@) + media_frames(frames_of(before).0));
                        },
                        _ => {
                            let ghost old_pub = views(published@);
                            let ghost old_vec = published@;
                            published.push(frame);
                            assert(published@ == old_vec.push(frame));
                            assert(views(published@) =~= old_pub.push(frame@));
                            proof {
                                lemma_media_cons(frame@, frames_of(buf@).0);
                            }
                            assert(views(published@) + media_frames(frames_of(buf@).0)
                                =~= old_pub + media_frames(frames_of(before).0));
                        },
                    }
                },
                Err(ParseError::Malformed(n)) => {
                    buf = buf.split_off(n);
                },
                Err(ParseError::NeedMore) => {
                    assert(frames_of(buf@) == (Seq::<Seq<u8>>::empty(), buf@));
                    break;
                },
            }
        }
        assert(views(published@) + Seq::<Seq<u8>>::empty() =~= views(published@));
        self.buffer = buf;
        published
    }
}

} // verus!
