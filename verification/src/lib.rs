//! Verified core of the Wisp multiplexing protocol and of the epoxy proxy that
//! speaks it: the wire codec, the protocol extensions, the multiplexor state
//! machine with its flow control, and the decisions the proxy server and the
//! browser client take around it.
use vstd::prelude::*;

pub mod error;
pub mod extensions;
pub mod locked_sink;
pub mod mux;
pub mod client;
pub mod packet;
pub mod server;
pub mod text;
pub mod unfair_select;
pub mod wire;
pub mod ws;

verus! {

/// The version of the Wisp protocol implemented here.
pub const WISP_VERSION_MAJOR: u8 = 2;
pub const WISP_VERSION_MINOR: u8 = 0;

/// Which side of a Wisp connection the caller is on.
#[derive(Copy, Clone, Debug, PartialEq, Eq, Structural)]
pub enum Role {
    Server,
    Client,
}

} // verus!
