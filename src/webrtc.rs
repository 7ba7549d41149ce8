pub mod rpc;

use vstd::prelude::*;

use crate::server::ServerPtr;

verus! {

/// The WebRTC module: ICE agents created on request from the signalling
/// side.
pub struct WebRtcModule {
    pub name: String,
    pub server: ServerPtr,
}

impl WebRtcModule {
    pub fn new(server: ServerPtr) -> (r: Self)
        ensures
            r.name@ == "webrtc"@,
            r.server == server,
    {
        WebRtcModule { name: "webrtc".to_owned(), server }
    }
}

/// A WebRTC connection to a peer.
pub struct WebRtcTransport {
    pub server: ServerPtr,
}

impl WebRtcTransport {
    pub fn new(server: ServerPtr) -> (r: Self)
        ensures
            r.server == server,
    {
        WebRtcTransport { server }
    }
}

} // verus!
