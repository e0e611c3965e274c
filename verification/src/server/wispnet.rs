//! Wispnet: a Wisp client of this server can take streams for others.
//!
//! The client, acting as a Wisp server, announces whether it is private; the
//! server, acting as its Wisp client, announces the client's number. A probe
//! (packet type `0xF1` on stream 0, with no body) is answered with the
//! numbers of every public client.
use vstd::prelude::*;

use crate::error::WispError;
use crate::wire::{get_u32_le, le_u32, put_u32_le, u32_le_bytes};

verus! {

/// The id of the wispnet extension, and the type of its probe packets.
pub const WISPNET_EXTENSION_ID: u8 = 0xF1;

/// The server's side of the wispnet extension, before the client's INFO:
/// the number the client gets.
pub struct WispnetServerProtocolExtensionBuilder(pub u32);

/// The wispnet extension: the client's number, and whether it is private.
#[derive(Clone, Copy, Debug, PartialEq, Eq, Structural)]
pub struct WispnetServerProtocolExtension(pub u32, pub bool);

impl WispnetServerProtocolExtensionBuilder {
    /// The client's announcement: its first byte says whether it is private.
    pub fn build_from_bytes(&mut self, bytes: &[u8]) -> (r: Result<
        WispnetServerProtocolExtension,
        WispError,
    >)
        ensures
            *final(self) == *old(self),
            bytes@.len() < 1 ==> r == Err::<WispnetServerProtocolExtension, WispError>(
                WispError::PacketTooSmall,
            ),
            bytes@.len() >= 1 ==> r == Ok::<WispnetServerProtocolExtension, WispError>(
                WispnetServerProtocolExtension(old(self).0, bytes@[0] != 0),
            ),
    {
        if bytes.len() < 1 {
            return Err(WispError::PacketTooSmall);
        }
        Ok(WispnetServerProtocolExtension(self.0, bytes[0] != 0))
    }

    /// What the server announces: the client's number.
    pub fn build_to_extension(&mut self) -> (r: WispnetServerProtocolExtension)
        ensures
            *final(self) == *old(self),
            r == WispnetServerProtocolExtension(old(self).0, false),
    {
        WispnetServerProtocolExtension(self.0, false)
    }
}

/// The numbers of the public clients, little-endian, in the order given.
pub open spec fn public_ids_bytes(clients: Seq<(u32, bool)>) -> Seq<u8>
    decreases clients.len(),
{
    if clients.len() == 0 {
        seq![]
    } else {
        let prev = public_ids_bytes(clients.drop_last());
        if clients.last().1 {
            prev
        } else {
            prev + u32_le_bytes(clients.last().0)
        }
    }
}

/// The answer to a probe: type `0xF1`, stream id 0, the public numbers.
pub open spec fn spec_probe_reply(clients: Seq<(u32, bool)>) -> Seq<u8> {
    seq![WISPNET_EXTENSION_ID] + u32_le_bytes(0) + public_ids_bytes(clients)
}

impl WispnetServerProtocolExtension {
    /// The payload announced: the client's number.
    pub fn encode(&self) -> (r: Vec<u8>)
        ensures
            r@ == u32_le_bytes(self.0),
    {
        let mut out: Vec<u8> = Vec::new();
        put_u32_le(&mut out, self.0);
        out
    }

    /// The packet types the extension handles: its probe.
    pub fn get_supported_packets(&self) -> (r: Vec<u8>)
        ensures
            r@ == seq![WISPNET_EXTENSION_ID],
    {
        let mut v: Vec<u8> = Vec::new();
        v.push(WISPNET_EXTENSION_ID);
        v
    }

    /// The extension asks no stream type to get flow control.
    pub fn get_congestion_stream_types(&self) -> (r: Vec<u8>)
        ensures
            r@.len() == 0,
    {
        Vec::new()
    }

    /// Handles an extension packet: a probe (whose body is the stream id,
    /// which must be 0) is answered with the public clients, given as
    /// (number, private) in the order they are listed; other packet types
    /// are ignored.
    pub fn handle_packet(packet_type: u8, packet: &[u8], clients: &Vec<(u32, bool)>) -> (r: Result<
        Option<Vec<u8>>,
        WispError,
    >)
        ensures
            packet_type != WISPNET_EXTENSION_ID ==> r matches Ok(None),
            packet_type == WISPNET_EXTENSION_ID ==> {
                if packet@.len() < 4 {
                    r == Err::<Option<Vec<u8>>, WispError>(WispError::PacketTooSmall)
                } else if le_u32(packet@.subrange(0, 4)) != 0 {
                    r == Err::<Option<Vec<u8>>, WispError>(
                        WispError::InvalidStreamId(le_u32(packet@.subrange(0, 4))),
                    )
                } else {
                    r matches Ok(Some(v)) && v@ == spec_probe_reply(clients@)
                }
            },
    {
        if packet_type != WISPNET_EXTENSION_ID {
            return Ok(None);
        }
        if packet.len() < 4 {
            return Err(WispError::PacketTooSmall);
        }
        let id = get_u32_le(packet, 0);
        if id != 0 {
            return Err(WispError::InvalidStreamId(id));
        }
        let mut out: Vec<u8> = Vec::new();
        out.push(WISPNET_EXTENSION_ID);
        put_u32_le(&mut out, 0);
        let ghost head = out@;
        let mut i: usize = 0;
        assert(clients@.take(0) =~= Seq::<(u32, bool)>::empty());
        while i < clients.len()
            invariant
                0 <= i <= clients@.len(),
                out@ == head + public_ids_bytes(clients@.take(i as int)),
            decreases clients@.len() - i,
        {
            let (n, private) = clients[i];
            assert(clients@.take(i + 1).drop_last() =~= clients@.take(i as int));
            assert(clients@.take(i + 1).last() == (n, private));
            if !private {
                put_u32_le(&mut out, n);
            }
            assert(out@ =~= head + public_ids_bytes(clients@.take(i + 1)));
            i += 1;
        }
        assert(clients@.take(i as int) =~= clients@);
        assert(out@ =~= spec_probe_reply(clients@));
        Ok(Some(out))
    }
}

} // verus!
