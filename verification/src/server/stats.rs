//! The per-stream lines of the server's statistics.
use vstd::prelude::*;

use crate::packet::{ConnectPacket, StreamType};
use crate::text::{push_decimal, spec_decimal};

verus! {

/// The name of a stream type in the statistics.
pub open spec fn spec_stream_type_name(t: StreamType) -> Seq<char> {
    if t == StreamType::Tcp {
        "tcp"@
    } else {
        "udp"@
    }
}

/// The name of a stream type; only TCP and UDP streams are ever opened.
pub fn format_stream_type(stream_type: StreamType) -> (r: &'static str)
    requires
        !(stream_type is Other),
    ensures
        r@ == spec_stream_type_name(stream_type),
{
    match stream_type {
        StreamType::Tcp => "tcp",
        _ => "udp",
    }
}

/// `host:port`.
pub open spec fn spec_host_port(host: Seq<char>, port: u16) -> Seq<char> {
    host.push(':') + spec_decimal(port as nat)
}

/// One stream in the statistics: its type, what the client asked for and
/// what the server connected to.
pub struct StreamStats {
    pub stream_type: String,
    pub requested: String,
    pub resolved: String,
}

fn host_port(p: &ConnectPacket) -> (r: String)
    ensures
        r@ == spec_host_port(p.host@, p.port),
{
    let mut out = p.host.clone();
    out.push(':');
    push_decimal(&mut out, p.port as u64);
    out
}

impl StreamStats {
    /// The statistics line of a stream, from the packet the client sent and
    /// the one the server resolved it to.
    pub fn from(value: (ConnectPacket, ConnectPacket)) -> (r: StreamStats)
        requires
            !(value.0.stream_type is Other),
        ensures
            r.stream_type@ == spec_stream_type_name(value.0.stream_type),
            r.requested@ == spec_host_port(value.0.host@, value.0.port),
            r.resolved@ == spec_host_port(value.1.host@, value.1.port),
    {
        let name = format_stream_type(value.0.stream_type);
        StreamStats {
            stream_type: name.to_owned(),
            requested: host_port(&value.0),
            resolved: host_port(&value.1),
        }
    }
}

} // verus!
