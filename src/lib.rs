//! Channel-based media relay: the Rush framing and its incremental parser,
//! the channel registry, the channels' broadcast buses, and the
//! per-connection session state machine that bridges a transport and a bus.
pub mod channel;
pub mod module;
pub mod rush;
pub mod server;
pub mod session;
pub mod util;
pub mod webrtc;
pub mod whip;
