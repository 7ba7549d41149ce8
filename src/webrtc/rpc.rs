use vstd::prelude::*;

verus! {

/// Requests that the signalling side sends to the WebRTC module.
#[derive(Debug, Clone)]
pub enum Message {
    CreateTransport(CreateTransportRequest),
    DestroyTransport(DestroyTransportRequest),
}

#[derive(Debug, Clone)]
pub struct CreateTransportRequest {}

#[derive(Debug, Clone)]
pub struct DestroyTransportRequest {}

} // verus!
