//! Wisp packets and their wire encoding.
//!
//! Every packet is a type byte, a little-endian stream id and a body whose
//! layout depends on the type. Decoding is specified by `spec_decode_packet`
//! and encoding by `PacketSpec::spec_encode`; the two are inverse on every
//! packet whose enum fields are canonical.
use vstd::prelude::*;
use vstd::std_specs::convert::FromSpecImpl;
use vstd::utf8::*;

use crate::error::WispError;
use crate::extensions::{
    builders_view, extensions_view, AnyBuilderSpec, AnyExtensionSpec, AnyProtocolExtension,
    AnyProtocolExtensionBuilder,
};
use crate::Role;
use crate::text::{string_as_bytes, string_from_utf8};
use crate::wire::{lemma_u16_bytes_of_le, lemma_u32_bytes_of_le, get_u16_le, get_u32_le, le_u16, le_u32, put_u16_le, put_u32_le, u16_le_bytes, u32_le_bytes};

verus! {

broadcast use vstd::utf8::group_utf8_lib;

// ---------------------------------------------------------------------------
// Stream types
// ---------------------------------------------------------------------------
/// The kind of a stream: TCP, UDP or a type introduced by an extension.
#[derive(Copy, Clone, Debug, PartialEq, Eq, Structural)]
pub enum StreamType {
    Tcp,
    Udp,
    Other(u8),
}

impl StreamType {
    /// The stream type that a wire byte stands for.
    pub open spec fn spec_from_byte(b: u8) -> StreamType {
        if b == 0x01 {
            StreamType::Tcp
        } else if b == 0x02 {
            StreamType::Udp
        } else {
            StreamType::Other(b)
        }
    }

    /// The wire byte of a stream type.
    pub open spec fn spec_byte(self) -> u8 {
        match self {
            StreamType::Tcp => 0x01,
            StreamType::Udp => 0x02,
            StreamType::Other(x) => x,
        }
    }

    /// A stream type is canonical when it is the one its own byte decodes to.
    pub open spec fn is_canonical(self) -> bool {
        Self::spec_from_byte(self.spec_byte()) == self
    }

    pub fn from_byte(b: u8) -> (r: StreamType)
        ensures
            r == Self::spec_from_byte(b),
            r.is_canonical(),
    {
        if b == 0x01 {
            StreamType::Tcp
        } else if b == 0x02 {
            StreamType::Udp
        } else {
            StreamType::Other(b)
        }
    }

    pub fn to_byte(self) -> (r: u8)
        ensures
            r == self.spec_byte(),
    {
        match self {
            StreamType::Tcp => 0x01,
            StreamType::Udp => 0x02,
            StreamType::Other(x) => x,
        }
    }
}

impl From<u8> for StreamType {
    fn from(v: u8) -> (r: Self) {
        StreamType::from_byte(v)
    }
}

impl FromSpecImpl<u8> for StreamType {
    open spec fn obeys_from_spec() -> bool {
        true
    }

    open spec fn from_spec(v: u8) -> Self {
        StreamType::spec_from_byte(v)
    }
}

impl From<StreamType> for u8 {
    fn from(v: StreamType) -> (r: Self) {
        v.to_byte()
    }
}

impl FromSpecImpl<StreamType> for u8 {
    open spec fn obeys_from_spec() -> bool {
        true
    }

    open spec fn from_spec(v: StreamType) -> Self {
        v.spec_byte()
    }
}

// ---------------------------------------------------------------------------
// Close reasons
// ---------------------------------------------------------------------------
/// Why a stream, or the whole connection, was closed.
#[derive(Copy, Clone, Debug, PartialEq, Eq, Structural)]
pub enum CloseReason {
    /// Reason unspecified or unknown.
    Unknown,
    /// Voluntary stream closure.
    Voluntary,
    /// Unexpected stream closure due to a network error.
    Unexpected,
    /// Incompatible extensions.
    ExtensionsIncompatible,
    /// Stream creation failed due to invalid information.
    ServerStreamInvalidInfo,
    /// Stream creation failed due to an unreachable destination host.
    ServerStreamUnreachable,
    /// Stream creation timed out due to the destination server not responding.
    ServerStreamConnectionTimedOut,
    /// Stream creation failed due to the destination server refusing the connection.
    ServerStreamConnectionRefused,
    /// TCP data transfer timed out.
    ServerStreamTimedOut,
    /// Stream destination address/domain is intentionally blocked by the proxy server.
    ServerStreamBlockedAddress,
    /// Connection throttled by the server.
    ServerStreamThrottled,
    /// The client has encountered an unexpected error and is unable to recieve any more data.
    ClientUnexpected,
    /// Authentication failed due to invalid username/password.
    ExtensionsPasswordAuthFailed,
    /// Authentication failed due to invalid signature.
    ExtensionsCertAuthFailed,
    /// Authentication required but the client did not provide credentials.
    ExtensionsAuthRequired,
    /// Any other reason byte.
    Other(u8),
}

impl CloseReason {
    /// The close reason that a wire byte stands for.
    pub open spec fn spec_from_byte(b: u8) -> CloseReason {
        if b == 0x01 {
            CloseReason::Unknown
        } else if b == 0x02 {
            CloseReason::Voluntary
        } else if b == 0x03 {
            CloseReason::Unexpected
        } else if b == 0x04 {
            CloseReason::ExtensionsIncompatible
        } else if b == 0x41 {
            CloseReason::ServerStreamInvalidInfo
        } else if b == 0x42 {
            CloseReason::ServerStreamUnreachable
        } else if b == 0x43 {
            CloseReason::ServerStreamConnectionTimedOut
        } else if b == 0x44 {
            CloseReason::ServerStreamConnectionRefused
        } else if b == 0x47 {
            CloseReason::ServerStreamTimedOut
        } else if b == 0x48 {
            CloseReason::ServerStreamBlockedAddress
        } else if b == 0x49 {
            CloseReason::ServerStreamThrottled
        } else if b == 0x81 {
            CloseReason::ClientUnexpected
        } else if b == 0xc0 {
            CloseReason::ExtensionsPasswordAuthFailed
        } else if b == 0xc1 {
            CloseReason::ExtensionsCertAuthFailed
        } else if b == 0xc2 {
            CloseReason::ExtensionsAuthRequired
        } else {
            CloseReason::Other(b)
        }
    }

    /// The wire byte of a close reason.
    pub open spec fn spec_byte(self) -> u8 {
        match self {
            CloseReason::Unknown => 0x01,
            CloseReason::Voluntary => 0x02,
            CloseReason::Unexpected => 0x03,
            CloseReason::ExtensionsIncompatible => 0x04,
            CloseReason::ServerStreamInvalidInfo => 0x41,
            CloseReason::ServerStreamUnreachable => 0x42,
            CloseReason::ServerStreamConnectionTimedOut => 0x43,
            CloseReason::ServerStreamConnectionRefused => 0x44,
            CloseReason::ServerStreamTimedOut => 0x47,
            CloseReason::ServerStreamBlockedAddress => 0x48,
            CloseReason::ServerStreamThrottled => 0x49,
            CloseReason::ClientUnexpected => 0x81,
            CloseReason::ExtensionsPasswordAuthFailed => 0xc0,
            CloseReason::ExtensionsCertAuthFailed => 0xc1,
            CloseReason::ExtensionsAuthRequired => 0xc2,
            CloseReason::Other(x) => x,
        }
    }

    /// A close reason is canonical when it is the one its own byte decodes to.
    pub open spec fn is_canonical(self) -> bool {
        Self::spec_from_byte(self.spec_byte()) == self
    }

    pub fn from_byte(b: u8) -> (r: CloseReason)
        ensures
            r == Self::spec_from_byte(b),
    {
        if b == 0x01 {
            CloseReason::Unknown
        } else if b == 0x02 {
            CloseReason::Voluntary
        } else if b == 0x03 {
            CloseReason::Unexpected
        } else if b == 0x04 {
            CloseReason::ExtensionsIncompatible
        } else if b == 0x41 {
            CloseReason::ServerStreamInvalidInfo
        } else if b == 0x42 {
            CloseReason::ServerStreamUnreachable
        } else if b == 0x43 {
            CloseReason::ServerStreamConnectionTimedOut
        } else if b == 0x44 {
            CloseReason::ServerStreamConnectionRefused
        } else if b == 0x47 {
            CloseReason::ServerStreamTimedOut
        } else if b == 0x48 {
            CloseReason::ServerStreamBlockedAddress
        } else if b == 0x49 {
            CloseReason::ServerStreamThrottled
        } else if b == 0x81 {
            CloseReason::ClientUnexpected
        } else if b == 0xc0 {
            CloseReason::ExtensionsPasswordAuthFailed
        } else if b == 0xc1 {
            CloseReason::ExtensionsCertAuthFailed
        } else if b == 0xc2 {
            CloseReason::ExtensionsAuthRequired
        } else {
            CloseReason::Other(b)
        }
    }

    pub fn to_byte(self) -> (r: u8)
        ensures
            r == self.spec_byte(),
    {
        match self {
            CloseReason::Unknown => 0x01,
            CloseReason::Voluntary => 0x02,
            CloseReason::Unexpected => 0x03,
            CloseReason::ExtensionsIncompatible => 0x04,
            CloseReason::ServerStreamInvalidInfo => 0x41,
            CloseReason::ServerStreamUnreachable => 0x42,
            CloseReason::ServerStreamConnectionTimedOut => 0x43,
            CloseReason::ServerStreamConnectionRefused => 0x44,
            CloseReason::ServerStreamTimedOut => 0x47,
            CloseReason::ServerStreamBlockedAddress => 0x48,
            CloseReason::ServerStreamThrottled => 0x49,
            CloseReason::ClientUnexpected => 0x81,
            CloseReason::ExtensionsPasswordAuthFailed => 0xc0,
            CloseReason::ExtensionsCertAuthFailed => 0xc1,
            CloseReason::ExtensionsAuthRequired => 0xc2,
            CloseReason::Other(x) => x,
        }
    }
}

impl From<u8> for CloseReason {
    fn from(v: u8) -> (r: Self) {
        CloseReason::from_byte(v)
    }
}

impl FromSpecImpl<u8> for CloseReason {
    open spec fn obeys_from_spec() -> bool {
        true
    }

    open spec fn from_spec(v: u8) -> Self {
        CloseReason::spec_from_byte(v)
    }
}

impl From<CloseReason> for u8 {
    fn from(v: CloseReason) -> (r: Self) {
        v.to_byte()
    }
}

impl FromSpecImpl<CloseReason> for u8 {
    open spec fn obeys_from_spec() -> bool {
        true
    }

    open spec fn from_spec(v: CloseReason) -> Self {
        v.spec_byte()
    }
}

/// Decoding a byte and encoding the result gives the byte back, for stream
/// types and close reasons alike.
pub proof fn lemma_byte_enums_roundtrip(b: u8)
    ensures
        StreamType::spec_from_byte(b).spec_byte() == b,
        CloseReason::spec_from_byte(b).spec_byte() == b,
        StreamType::spec_from_byte(b).is_canonical(),
        CloseReason::spec_from_byte(b).is_canonical(),
{
}

// ---------------------------------------------------------------------------
// Packet bodies
// ---------------------------------------------------------------------------
/// Request to open a stream to `host:port`.
#[derive(Clone, Debug)]
pub struct ConnectPacket {
    pub stream_type: StreamType,
    pub host: String,
    pub port: u16,
}

/// Flow control update: how many more packets the sender may buffer.
#[derive(Copy, Clone, Debug, PartialEq, Eq, Structural)]
pub struct ContinuePacket {
    pub buffer_remaining: u32,
}

/// Closes a stream, or the whole connection on stream id 0.
#[derive(Copy, Clone, Debug, PartialEq, Eq, Structural)]
pub struct ClosePacket {
    pub reason: CloseReason,
}

/// A Wisp protocol version.
#[derive(Copy, Clone, Debug, PartialEq, Eq, Structural)]
pub struct WispVersion {
    pub major: u8,
    pub minor: u8,
}

/// The abstract content of a connect packet.
pub struct ConnectSpec {
    pub stream_type: StreamType,
    pub host: Seq<char>,
    pub port: u16,
}

impl View for ConnectPacket {
    type V = ConnectSpec;

    open spec fn view(&self) -> ConnectSpec {
        ConnectSpec { stream_type: self.stream_type, host: self.host@, port: self.port }
    }
}

impl ConnectSpec {
    pub open spec fn spec_encode(self) -> Seq<u8> {
        seq![self.stream_type.spec_byte()] + u16_le_bytes(self.port) + encode_utf8(self.host)
    }
}

/// What decoding a connect packet body yields.
pub open spec fn spec_decode_connect(b: Seq<u8>) -> Result<ConnectSpec, WispError> {
    if b.len() < 3 {
        Err(WispError::PacketTooSmall)
    } else if !valid_utf8(b.skip(3)) {
        Err(WispError::Utf8)
    } else {
        Ok(
            ConnectSpec {
                stream_type: StreamType::spec_from_byte(b[0]),
                port: le_u16(b.subrange(1, 3)),
                host: decode_utf8(b.skip(3)),
            },
        )
    }
}

/// What decoding a continue packet body yields; trailing bytes are ignored.
pub open spec fn spec_decode_continue(b: Seq<u8>) -> Result<ContinuePacket, WispError> {
    if b.len() < 4 {
        Err(WispError::PacketTooSmall)
    } else {
        Ok(ContinuePacket { buffer_remaining: le_u32(b.subrange(0, 4)) })
    }
}

/// What decoding a close packet body yields; trailing bytes are ignored.
pub open spec fn spec_decode_close(b: Seq<u8>) -> Result<ClosePacket, WispError> {
    if b.len() < 1 {
        Err(WispError::PacketTooSmall)
    } else {
        Ok(ClosePacket { reason: CloseReason::spec_from_byte(b[0]) })
    }
}

/// What decoding a version yields; trailing bytes are ignored.
pub open spec fn spec_decode_version(b: Seq<u8>) -> Result<WispVersion, WispError> {
    if b.len() < 2 {
        Err(WispError::PacketTooSmall)
    } else {
        Ok(WispVersion { major: b[0], minor: b[1] })
    }
}

impl ContinuePacket {
    pub open spec fn spec_encode(self) -> Seq<u8> {
        u32_le_bytes(self.buffer_remaining)
    }
}

impl ClosePacket {
    pub open spec fn spec_encode(self) -> Seq<u8> {
        seq![self.reason.spec_byte()]
    }
}

impl WispVersion {
    pub open spec fn spec_encode(self) -> Seq<u8> {
        seq![self.major, self.minor]
    }

    pub fn encode_into(&self, out: &mut Vec<u8>)
        ensures
            final(out)@ == old(out)@ + self.spec_encode(),
    {
        out.push(self.major);
        out.push(self.minor);
        assert(final(out)@ =~= old(out)@ + self.spec_encode());
    }

    pub fn decode(b: &[u8]) -> (r: Result<WispVersion, WispError>)
        ensures
            r == spec_decode_version(b@),
    {
        if b.len() < 2 {
            Err(WispError::PacketTooSmall)
        } else {
            Ok(WispVersion { major: b[0], minor: b[1] })
        }
    }
}

impl ConnectPacket {
    /// Number of bytes the encoded body takes.
    pub fn size_hint(&self) -> (r: usize)
        requires
            encode_utf8(self.host@).len() + 3 <= usize::MAX,
        ensures
            r == self@.spec_encode().len(),
    {
        let h = string_as_bytes(&self.host);
        1 + h.len() + 2
    }

    pub fn encode_into(&self, out: &mut Vec<u8>)
        ensures
            final(out)@ == old(out)@ + self@.spec_encode(),
    {
        out.push(self.stream_type.to_byte());
        put_u16_le(out, self.port);
        let h = string_as_bytes(&self.host);
        out.extend_from_slice(h);
        assert(final(out)@ =~= old(out)@ + self@.spec_encode());
    }

    pub fn decode(b: &[u8]) -> (r: Result<ConnectPacket, WispError>)
        ensures
            r matches Ok(p) ==> spec_decode_connect(b@) == Ok::<ConnectSpec, WispError>(p@),
            r matches Err(e) ==> spec_decode_connect(b@) == Err::<ConnectSpec, WispError>(e),
    {
        if b.len() < 3 {
            return Err(WispError::PacketTooSmall);
        }
        let stream_type = StreamType::from_byte(b[0]);
        let port = get_u16_le(b, 1);
        let rest = vstd::slice::slice_to_vec(&b[3..b.len()]);
        assert(rest@ =~= b@.skip(3));
        match string_from_utf8(rest) {
            Some(host) => {
                let p = ConnectPacket { stream_type, host, port };
                assert(p@ == spec_decode_connect(b@).unwrap());
                Ok(p)
            },
            None => Err(WispError::Utf8),
        }
    }
}

impl ContinuePacket {
    pub fn encode_into(&self, out: &mut Vec<u8>)
        ensures
            final(out)@ == old(out)@ + self.spec_encode(),
    {
        put_u32_le(out, self.buffer_remaining);
    }

    pub fn decode(b: &[u8]) -> (r: Result<ContinuePacket, WispError>)
        ensures
            r == spec_decode_continue(b@),
    {
        if b.len() < 4 {
            Err(WispError::PacketTooSmall)
        } else {
            Ok(ContinuePacket { buffer_remaining: get_u32_le(b, 0) })
        }
    }
}

impl ClosePacket {
    pub fn encode_into(&self, out: &mut Vec<u8>)
        ensures
            final(out)@ == old(out)@ + self.spec_encode(),
    {
        out.push(self.reason.to_byte());
        assert(final(out)@ =~= old(out)@ + self.spec_encode());
    }

    pub fn decode(b: &[u8]) -> (r: Result<ClosePacket, WispError>)
        ensures
            r == spec_decode_close(b@),
    {
        if b.len() < 1 {
            Err(WispError::PacketTooSmall)
        } else {
            Ok(ClosePacket { reason: CloseReason::from_byte(b[0]) })
        }
    }
}


// ---------------------------------------------------------------------------
// Whole packets
// ---------------------------------------------------------------------------
/// The body of a packet, by packet type.
#[derive(Clone, Debug)]
pub enum PacketType {
    Connect(ConnectPacket),
    Data(Vec<u8>),
    Continue(ContinuePacket),
    Close(ClosePacket),
}

/// A packet addressed to one stream (or to the connection, on stream id 0).
#[derive(Clone, Debug)]
pub struct Packet {
    pub stream_id: u32,
    pub packet_type: PacketType,
}

/// The abstract content of a packet body.
pub enum PacketTypeSpec {
    Connect(ConnectSpec),
    Data(Seq<u8>),
    Continue(ContinuePacket),
    Close(ClosePacket),
}

/// The abstract content of a packet.
pub struct PacketSpec {
    pub stream_id: u32,
    pub packet_type: PacketTypeSpec,
}

impl View for PacketType {
    type V = PacketTypeSpec;

    open spec fn view(&self) -> PacketTypeSpec {
        match self {
            PacketType::Connect(c) => PacketTypeSpec::Connect(c@),
            PacketType::Data(d) => PacketTypeSpec::Data(d@),
            PacketType::Continue(c) => PacketTypeSpec::Continue(*c),
            PacketType::Close(c) => PacketTypeSpec::Close(*c),
        }
    }
}

impl View for Packet {
    type V = PacketSpec;

    open spec fn view(&self) -> PacketSpec {
        PacketSpec { stream_id: self.stream_id, packet_type: self.packet_type@ }
    }
}

impl PacketTypeSpec {
    /// The packet type byte.
    pub open spec fn type_byte(self) -> u8 {
        match self {
            PacketTypeSpec::Connect(_) => 0x01,
            PacketTypeSpec::Data(_) => 0x02,
            PacketTypeSpec::Continue(_) => 0x03,
            PacketTypeSpec::Close(_) => 0x04,
        }
    }

    /// The encoded body.
    pub open spec fn spec_encode(self) -> Seq<u8> {
        match self {
            PacketTypeSpec::Connect(c) => c.spec_encode(),
            PacketTypeSpec::Data(d) => d,
            PacketTypeSpec::Continue(c) => c.spec_encode(),
            PacketTypeSpec::Close(c) => c.spec_encode(),
        }
    }

    /// The enum fields are the ones their bytes decode to.
    pub open spec fn is_canonical(self) -> bool {
        match self {
            PacketTypeSpec::Connect(c) => c.stream_type.is_canonical(),
            PacketTypeSpec::Close(c) => c.reason.is_canonical(),
            _ => true,
        }
    }
}

impl PacketSpec {
    /// The whole packet on the wire: type byte, little-endian stream id, body.
    pub open spec fn spec_encode(self) -> Seq<u8> {
        seq![self.packet_type.type_byte()] + u32_le_bytes(self.stream_id)
            + self.packet_type.spec_encode()
    }

    pub open spec fn is_canonical(self) -> bool {
        self.packet_type.is_canonical()
    }
}

/// What decoding the body of a packet of type `ty` yields.
pub open spec fn spec_decode_packet_type(ty: u8, b: Seq<u8>) -> Result<PacketTypeSpec, WispError> {
    if ty == 0x01 {
        match spec_decode_connect(b) {
            Ok(c) => Ok(PacketTypeSpec::Connect(c)),
            Err(e) => Err(e),
        }
    } else if ty == 0x02 {
        Ok(PacketTypeSpec::Data(b))
    } else if ty == 0x03 {
        match spec_decode_continue(b) {
            Ok(c) => Ok(PacketTypeSpec::Continue(c)),
            Err(e) => Err(e),
        }
    } else if ty == 0x04 {
        match spec_decode_close(b) {
            Ok(c) => Ok(PacketTypeSpec::Close(c)),
            Err(e) => Err(e),
        }
    } else {
        Err(WispError::InvalidPacketType(ty))
    }
}

/// What decoding a whole packet yields.
pub open spec fn spec_decode_packet(b: Seq<u8>) -> Result<PacketSpec, WispError> {
    if b.len() < 5 {
        Err(WispError::PacketTooSmall)
    } else {
        match spec_decode_packet_type(b[0], b.skip(5)) {
            Ok(t) => Ok(PacketSpec { stream_id: le_u32(b.subrange(1, 5)), packet_type: t }),
            Err(e) => Err(e),
        }
    }
}

/// Decoding an encoded packet gives the packet back.
#[verifier::spinoff_prover]
#[verifier::rlimit(40)]
pub proof fn lemma_packet_roundtrip(p: PacketSpec)
    requires
        p.is_canonical(),
    ensures
        spec_decode_packet(p.spec_encode()) == Ok::<PacketSpec, WispError>(p),
{
    let e = p.spec_encode();
    let body = p.packet_type.spec_encode();
    assert(e.skip(5) =~= body);
    assert(e.subrange(1, 5) =~= u32_le_bytes(p.stream_id));
    match p.packet_type {
        PacketTypeSpec::Connect(c) => {
            assert(body.skip(3) =~= encode_utf8(c.host));
            assert(body.subrange(1, 3) =~= u16_le_bytes(c.port));
            encode_utf8_decode_utf8(c.host);
            encode_utf8_valid_utf8(c.host);
        },
        PacketTypeSpec::Continue(c) => {
            assert(body.subrange(0, 4) =~= u32_le_bytes(c.buffer_remaining));
        },
        _ => {},
    }
}

#[verifier::spinoff_prover]
#[verifier::rlimit(40)]
/// Whatever decodes re-encodes to a prefix of the input (the whole input for
/// connect and data packets), and decodes to canonical values.
pub proof fn lemma_decode_then_encode(b: Seq<u8>)
    requires
        spec_decode_packet(b) is Ok,
    ensures
        spec_decode_packet(b)->Ok_0.is_canonical(),
        spec_decode_packet(b)->Ok_0.spec_encode().is_prefix_of(b),
        (spec_decode_packet(b)->Ok_0.packet_type is Connect || spec_decode_packet(b)->Ok_0.packet_type is Data)
            ==> spec_decode_packet(b)->Ok_0.spec_encode() == b,
{
    let p = spec_decode_packet(b)->Ok_0;
    let e = p.spec_encode();
    lemma_byte_enums_roundtrip(b[0]);
    assert(u32_le_bytes(le_u32(b.subrange(1, 5))) =~= b.subrange(1, 5)) by {
        lemma_u32_bytes_of_le(b.subrange(1, 5));
    }
    let body = b.skip(5);
    match p.packet_type {
        PacketTypeSpec::Connect(c) => {
            lemma_byte_enums_roundtrip(body[0]);
            lemma_u16_bytes_of_le(body.subrange(1, 3));
            decode_utf8_encode_utf8(body.skip(3));
            assert(c.spec_encode() =~= body);
            assert(e =~= b);
        },
        PacketTypeSpec::Data(d) => {
            assert(e =~= b);
        },
        PacketTypeSpec::Continue(c) => {
            lemma_u32_bytes_of_le(body.subrange(0, 4));
            assert(e =~= b.subrange(0, 9));
        },
        PacketTypeSpec::Close(c) => {
            lemma_byte_enums_roundtrip(body[0]);
            assert(e =~= b.subrange(0, 6));
        },
    }
}

impl PacketType {
    pub fn get_type(&self) -> (r: u8)
        ensures
            r == self@.type_byte(),
    {
        match self {
            PacketType::Connect(_) => 0x01,
            PacketType::Data(_) => 0x02,
            PacketType::Continue(_) => 0x03,
            PacketType::Close(_) => 0x04,
        }
    }

    /// Number of bytes the encoded body takes.
    pub fn size_hint(&self) -> (r: usize)
        requires
            self@.spec_encode().len() <= usize::MAX,
        ensures
            r == self@.spec_encode().len(),
    {
        match self {
            PacketType::Connect(c) => c.size_hint(),
            PacketType::Data(d) => d.len(),
            PacketType::Continue(_) => 4,
            PacketType::Close(_) => 1,
        }
    }

    pub fn encode_into(&self, out: &mut Vec<u8>)
        ensures
            final(out)@ == old(out)@ + self@.spec_encode(),
    {
        match self {
            PacketType::Connect(c) => c.encode_into(out),
            PacketType::Data(d) => {
                out.extend_from_slice(d.as_slice());
                assert(final(out)@ =~= old(out)@ + self@.spec_encode());
            },
            PacketType::Continue(c) => c.encode_into(out),
            PacketType::Close(c) => c.encode_into(out),
        }
    }

    pub fn decode(b: &[u8], ty: u8) -> (r: Result<PacketType, WispError>)
        ensures
            r matches Ok(t) ==> spec_decode_packet_type(ty, b@) == Ok::<PacketTypeSpec, WispError>(t@),
            r matches Err(e) ==> spec_decode_packet_type(ty, b@) == Err::<PacketTypeSpec, WispError>(e),
    {
        if ty == 0x01 {
            match ConnectPacket::decode(b) {
                Ok(c) => Ok(PacketType::Connect(c)),
                Err(e) => Err(e),
            }
        } else if ty == 0x02 {
            Ok(PacketType::Data(vstd::slice::slice_to_vec(b)))
        } else if ty == 0x03 {
            match ContinuePacket::decode(b) {
                Ok(c) => Ok(PacketType::Continue(c)),
                Err(e) => Err(e),
            }
        } else if ty == 0x04 {
            match ClosePacket::decode(b) {
                Ok(c) => Ok(PacketType::Close(c)),
                Err(e) => Err(e),
            }
        } else {
            Err(WispError::InvalidPacketType(ty))
        }
    }
}

impl Packet {
    /// Number of bytes the encoded packet takes.
    pub fn size_hint(&self) -> (r: usize)
        requires
            self@.spec_encode().len() <= usize::MAX,
        ensures
            r == self@.spec_encode().len(),
    {
        5 + self.packet_type.size_hint()
    }

    pub fn encode_into(&self, out: &mut Vec<u8>)
        ensures
            final(out)@ == old(out)@ + self@.spec_encode(),
    {
        out.push(self.packet_type.get_type());
        put_u32_le(out, self.stream_id);
        self.packet_type.encode_into(out);
        assert(final(out)@ =~= old(out)@ + self@.spec_encode());
    }

    /// The packet on the wire.
    pub fn encode(&self) -> (r: Vec<u8>)
        ensures
            r@ == self@.spec_encode(),
    {
        let mut out: Vec<u8> = Vec::new();
        self.encode_into(&mut out);
        assert(out@ =~= self@.spec_encode());
        out
    }

    /// Reads a packet off the wire.
    pub fn decode(b: &[u8]) -> (r: Result<Packet, WispError>)
        ensures
            r matches Ok(p) ==> spec_decode_packet(b@) == Ok::<PacketSpec, WispError>(p@),
            r matches Err(e) ==> spec_decode_packet(b@) == Err::<PacketSpec, WispError>(e),
    {
        if b.len() < 5 {
            return Err(WispError::PacketTooSmall);
        }
        let ty = b[0];
        let stream_id = get_u32_le(b, 1);
        let body = &b[5..b.len()];
        assert(body@ =~= b@.skip(5));
        match PacketType::decode(body, ty) {
            Ok(packet_type) => Ok(Packet { stream_id, packet_type }),
            Err(e) => Err(e),
        }
    }

    pub fn new_data(stream_id: u32, data: Vec<u8>) -> (r: Packet)
        ensures
            r@ == (PacketSpec { stream_id, packet_type: PacketTypeSpec::Data(data@) }),
    {
        Packet { stream_id, packet_type: PacketType::Data(data) }
    }

    pub fn new_continue(stream_id: u32, buffer_remaining: u32) -> (r: Packet)
        ensures
            r@ == (PacketSpec {
                stream_id,
                packet_type: PacketTypeSpec::Continue(ContinuePacket { buffer_remaining }),
            }),
    {
        Packet {
            stream_id,
            packet_type: PacketType::Continue(ContinuePacket { buffer_remaining }),
        }
    }

    pub fn new_close(stream_id: u32, reason: CloseReason) -> (r: Packet)
        ensures
            r@ == (PacketSpec {
                stream_id,
                packet_type: PacketTypeSpec::Close(ClosePacket { reason }),
            }),
    {
        Packet { stream_id, packet_type: PacketType::Close(ClosePacket { reason }) }
    }
}

} // verus!

verus! {

// ---------------------------------------------------------------------------
// INFO packets
// ---------------------------------------------------------------------------
/// The type byte of an INFO packet.
pub const INFO_PACKET_TYPE: u8 = 0x05;

/// The handshake packet of Wisp v2: the protocol version and the extensions
/// the sender supports.
#[derive(Clone, Debug)]
pub struct InfoPacket {
    pub version: WispVersion,
    pub extensions: Vec<AnyProtocolExtension>,
}

/// An extension record as read off the wire: id and payload.
pub type RecordSpec = (u8, Seq<u8>);

pub open spec fn records_view(v: Seq<(u8, Vec<u8>)>) -> Seq<RecordSpec> {
    v.map_values(|r: (u8, Vec<u8>)| (r.0, r.1@))
}

/// The extension records of an INFO body, in order, and whether the last one
/// ran past the end of the bytes. Fewer than five trailing bytes are ignored.
pub open spec fn spec_info_records(b: Seq<u8>) -> (Seq<RecordSpec>, bool)
    decreases b.len(),
{
    if b.len() < 5 {
        (seq![], false)
    } else {
        let len = le_u32(b.subrange(1, 5)) as int;
        if b.len() - 5 < len {
            (seq![], true)
        } else {
            let rest = spec_info_records(b.skip(5 + len));
            (seq![(b[0], b.subrange(5, 5 + len))] + rest.0, rest.1)
        }
    }
}

/// The records announcing a list of extensions, concatenated.
pub open spec fn records_concat(exts: Seq<AnyExtensionSpec>) -> Seq<u8>
    decreases exts.len(),
{
    if exts.len() == 0 {
        seq![]
    } else {
        exts[0].spec_record() + records_concat(exts.drop_first())
    }
}

/// The (id, payload) pairs a list of extensions announces.
pub open spec fn announced(exts: Seq<AnyExtensionSpec>) -> Seq<RecordSpec> {
    exts.map_values(|e: AnyExtensionSpec| (e.id(), e.spec_encode()))
}

pub open spec fn all_encodable(exts: Seq<AnyExtensionSpec>) -> bool {
    forall|i: int| 0 <= i < exts.len() ==> #[trigger] exts[i].encodable()
}

/// An INFO packet on the wire: type 5, stream id 0, version, records.
pub open spec fn spec_info_encode(version: WispVersion, exts: Seq<AnyExtensionSpec>) -> Seq<u8> {
    seq![INFO_PACKET_TYPE, 0u8, 0u8, 0u8, 0u8] + version.spec_encode() + records_concat(exts)
}

/// Index of the first builder with the given id, searching from `start`.
pub open spec fn find_builder(builders: Seq<AnyBuilderSpec>, id: u8, start: int) -> Option<int>
    decreases builders.len() - start,
{
    if start < 0 || start >= builders.len() {
        None
    } else if builders[start].id() == id {
        Some(start)
    } else {
        find_builder(builders, id, start + 1)
    }
}

/// Feeding the peer's records to the builders, in order: each record goes to
/// the first builder with its id (records with no builder are skipped), the
/// first error stops the process. Gives the builders after, and the
/// extensions built or the error.
pub open spec fn spec_build_all(
    builders: Seq<AnyBuilderSpec>,
    records: Seq<RecordSpec>,
    role: Role,
) -> (Seq<AnyBuilderSpec>, Result<Seq<AnyExtensionSpec>, WispError>)
    decreases records.len(),
{
    if records.len() == 0 {
        (builders, Ok(seq![]))
    } else {
        match find_builder(builders, records[0].0, 0) {
            None => spec_build_all(builders, records.drop_first(), role),
            Some(i) => {
                let (nb, r) = builders[i].from_bytes(records[0].1, role);
                let builders2 = builders.update(i, nb);
                match r {
                    Err(e) => (builders2, Err(e)),
                    Ok(ext) => {
                        let (b3, rest) = spec_build_all(builders2, records.drop_first(), role);
                        (
                            b3,
                            match rest {
                                Ok(es) => Ok(seq![ext] + es),
                                Err(e) => Err(e),
                            },
                        )
                    },
                }
            },
        }
    }
}

/// Every record that reaches a builder is one that builder can be fed.
pub open spec fn spec_build_all_accepts(
    builders: Seq<AnyBuilderSpec>,
    records: Seq<RecordSpec>,
    role: Role,
) -> bool
    decreases records.len(),
{
    if records.len() == 0 {
        true
    } else {
        match find_builder(builders, records[0].0, 0) {
            None => spec_build_all_accepts(builders, records.drop_first(), role),
            Some(i) => {
                &&& builders[i].accepts(records[0].1)
                &&& {
                    let (nb, r) = builders[i].from_bytes(records[0].1, role);
                    r is Ok ==> spec_build_all_accepts(
                        builders.update(i, nb),
                        records.drop_first(),
                        role,
                    )
                }
            },
        }
    }
}

/// The abstract content of an INFO packet.
pub struct InfoSpec {
    pub version: WispVersion,
    pub extensions: Seq<AnyExtensionSpec>,
}

/// What decoding an INFO body (after type and stream id) yields, and the
/// builders after.
pub open spec fn spec_decode_info(b: Seq<u8>, builders: Seq<AnyBuilderSpec>, role: Role) -> (
    Seq<AnyBuilderSpec>,
    Result<InfoSpec, WispError>,
) {
    if b.len() < 2 {
        (builders, Err(WispError::PacketTooSmall))
    } else if b[0] != crate::WISP_VERSION_MAJOR {
        (
            builders,
            Err(
                WispError::IncompatibleProtocolVersion(
                    WispVersion { major: b[0], minor: b[1] },
                    WispVersion { major: crate::WISP_VERSION_MAJOR, minor: crate::WISP_VERSION_MINOR },
                ),
            ),
        )
    } else {
        let (records, truncated) = spec_info_records(b.skip(2));
        let (nb, r) = spec_build_all(builders, records, role);
        (
            nb,
            match r {
                Err(e) => Err(e),
                Ok(exts) => if truncated {
                    Err(WispError::PacketTooSmall)
                } else {
                    Ok(InfoSpec { version: WispVersion { major: b[0], minor: b[1] }, extensions: exts })
                },
            },
        )
    }
}

/// Decoding an INFO body never feeds a builder bytes it cannot take.
pub open spec fn spec_decode_info_accepts(b: Seq<u8>, builders: Seq<AnyBuilderSpec>, role: Role) -> bool {
    b.len() >= 2 && b[0] == crate::WISP_VERSION_MAJOR ==> spec_build_all_accepts(
        builders,
        spec_info_records(b.skip(2)).0,
        role,
    )
}

proof fn lemma_records_step(b: Seq<u8>, pos: int, len: int)
    requires
        0 <= pos,
        pos + 5 <= b.len(),
        len == le_u32(b.subrange(pos + 1, pos + 5)) as int,
        b.len() - pos - 5 >= len,
    ensures
        spec_info_records(b.skip(pos)) == (
            seq![(b[pos], b.subrange(pos + 5, pos + 5 + len))] + spec_info_records(
                b.skip(pos + 5 + len),
            ).0,
            spec_info_records(b.skip(pos + 5 + len)).1,
        ),
{
    let s = b.skip(pos);
    assert(s.subrange(1, 5) =~= b.subrange(pos + 1, pos + 5));
    assert(s.skip(5 + len) =~= b.skip(pos + 5 + len));
    assert(s.subrange(5, 5 + len) =~= b.subrange(pos + 5, pos + 5 + len));
}

/// Splits an INFO body's extension part into records.
pub fn decode_records(b: &[u8]) -> (r: (Vec<(u8, Vec<u8>)>, bool))
    ensures
        (records_view(r.0@), r.1) == spec_info_records(b@),
{
    let mut out: Vec<(u8, Vec<u8>)> = Vec::new();
    let mut pos: usize = 0;
    let n = b.len();
    assert(b@.skip(0) =~= b@);
    assert(records_view(out@) + spec_info_records(b@).0 =~= spec_info_records(b@).0);
    while n - pos >= 5
        invariant
            n == b@.len(),
            pos <= n,
            spec_info_records(b@) == (
                records_view(out@) + spec_info_records(b@.skip(pos as int)).0,
                spec_info_records(b@.skip(pos as int)).1,
            ),
        decreases n - pos,
    {
        let id = b[pos];
        let len = get_u32_le(b, pos + 1) as usize;
        assert(b@.subrange(pos + 1, pos + 1 + 4) == b@.subrange(pos + 1, pos + 5));
        if n - pos - 5 < len {
            assert(spec_info_records(b@.skip(pos as int)) == (Seq::<RecordSpec>::empty(), true)) by {
                assert(b@.skip(pos as int).subrange(1, 5) =~= b@.subrange(pos + 1, pos + 5));
            }
            assert(records_view(out@) + Seq::<RecordSpec>::empty() =~= records_view(out@));
            return (out, true);
        }
        let payload = vstd::slice::slice_to_vec(&b[pos + 5..pos + 5 + len]);
        proof {
            lemma_records_step(b@, pos as int, len as int);
        }
        let ghost old_out = out@;
        out.push((id, payload));
        assert(records_view(out@) =~= records_view(old_out) + seq![(id, payload@)]);
        assert(records_view(out@) + spec_info_records(b@.skip(pos + 5 + len)).0 =~= records_view(
            old_out,
        ) + (seq![(id, payload@)] + spec_info_records(b@.skip(pos + 5 + len)).0));
        pos = pos + 5 + len;
    }
    assert(spec_info_records(b@.skip(pos as int)) == (Seq::<RecordSpec>::empty(), false));
    assert(records_view(out@) + Seq::<RecordSpec>::empty() =~= records_view(out@));
    (out, false)
}

/// The extensions built so far in front of what the remaining records give.
pub open spec fn prepend_exts(
    acc: Seq<AnyExtensionSpec>,
    r: Result<Seq<AnyExtensionSpec>, WispError>,
) -> Result<Seq<AnyExtensionSpec>, WispError> {
    match r {
        Ok(es) => Ok(acc + es),
        Err(e) => Err(e),
    }
}

proof fn lemma_find_builder_found(builders: Seq<AnyBuilderSpec>, id: u8, start: int)
    ensures
        find_builder(builders, id, start) matches Some(i) ==> start <= i < builders.len()
            && builders[i].id() == id,
    decreases builders.len() - start,
{
    if start >= 0 && start < builders.len() && builders[start].id() != id {
        lemma_find_builder_found(builders, id, start + 1);
    }
}

proof fn lemma_find_builder_skip(builders: Seq<AnyBuilderSpec>, id: u8, i: int)
    requires
        0 <= i < builders.len(),
        builders[i].id() != id,
    ensures
        find_builder(builders, id, i) == find_builder(builders, id, i + 1),
{
}

/// Index of the first builder with the given id.
pub fn find_builder_index(builders: &Vec<AnyProtocolExtensionBuilder>, id: u8) -> (r: Option<
    usize,
>)
    ensures
        match r {
            Some(i) => find_builder(builders_view(builders@), id, 0) == Some(i as int),
            None => find_builder(builders_view(builders@), id, 0) is None,
        },
{
    let mut i: usize = 0;
    while i < builders.len()
        invariant
            0 <= i <= builders@.len(),
            find_builder(builders_view(builders@), id, 0) == find_builder(
                builders_view(builders@),
                id,
                i as int,
            ),
        decreases builders@.len() - i,
    {
        if builders[i].get_id() == id {
            return Some(i);
        }
        proof {
            lemma_find_builder_skip(builders_view(builders@), id, i as int);
        }
        i += 1;
    }
    None
}

/// Feeds the peer's records to the builders in order (see `spec_build_all`).
pub fn build_extensions(
    builders: &mut Vec<AnyProtocolExtensionBuilder>,
    records: &Vec<(u8, Vec<u8>)>,
    role: Role,
) -> (r: Result<Vec<AnyProtocolExtension>, WispError>)
    requires
        spec_build_all_accepts(builders_view(old(builders)@), records_view(records@), role),
    ensures
        builders_view(final(builders)@) == spec_build_all(
            builders_view(old(builders)@),
            records_view(records@),
            role,
        ).0,
        match r {
            Ok(v) => spec_build_all(builders_view(old(builders)@), records_view(records@), role).1
                == Ok::<Seq<AnyExtensionSpec>, WispError>(extensions_view(v@)),
            Err(e) => spec_build_all(builders_view(old(builders)@), records_view(records@), role).1
                == Err::<Seq<AnyExtensionSpec>, WispError>(e),
        },
{
    let ghost orig = builders_view(builders@);
    let ghost recs = records_view(records@);
    let mut acc: Vec<AnyProtocolExtension> = Vec::new();
    let mut k: usize = 0;
    assert(recs.skip(0) =~= recs);
    assert(extensions_view(acc@) =~= Seq::<AnyExtensionSpec>::empty());
    proof {
        let rest = spec_build_all(orig, recs, role);
        assert(prepend_exts(Seq::<AnyExtensionSpec>::empty(), rest.1) == rest.1) by {
            match rest.1 {
                Ok(es) => assert(Seq::<AnyExtensionSpec>::empty() + es =~= es),
                Err(_) => {},
            }
        }
    }
    while k < records.len()
        invariant
            0 <= k <= records@.len(),
            recs == records_view(records@),
            orig == builders_view(old(builders)@),
            spec_build_all(orig, recs, role) == (
                spec_build_all(builders_view(builders@), recs.skip(k as int), role).0,
                prepend_exts(
                    extensions_view(acc@),
                    spec_build_all(builders_view(builders@), recs.skip(k as int), role).1,
                ),
            ),
            spec_build_all_accepts(builders_view(builders@), recs.skip(k as int), role),
        decreases records@.len() - k,
    {
        let ghost bv = builders_view(builders@);
        let ghost tail = recs.skip(k as int);
        assert(tail[0] == recs[k as int]);
        assert(tail.drop_first() =~= recs.skip(k + 1));
        let id = records[k].0;
        match find_builder_index(builders, id) {
            None => {},
            Some(i) => {
                proof {
                    lemma_find_builder_found(bv, id, 0);
                }
                let data = records[k].1.as_slice();
                let res = builders[i].build_from_bytes(data, role);
                assert(builders_view(builders@) =~= bv.update(
                    i as int,
                    bv[i as int].from_bytes(tail[0].1, role).0,
                ));
                assert(tail[0].0 == id);
                match res {
                    Err(e) => {
                        assert(spec_build_all(bv, tail, role) == (
                            builders_view(builders@),
                            Err::<Seq<AnyExtensionSpec>, WispError>(e),
                        ));
                        return Err(e);
                    },
                    Ok(ext) => {
                        let ghost old_acc = extensions_view(acc@);
                        acc.push(ext);
                        assert(extensions_view(acc@) =~= old_acc.push(ext@));
                        proof {
                            let rest = spec_build_all(
                                builders_view(builders@),
                                recs.skip(k + 1),
                                role,
                            ).1;
                            match rest {
                                Ok(es) => {
                                    assert(old_acc + (seq![ext@] + es) =~= extensions_view(acc@)
                                        + es);
                                },
                                Err(_) => {},
                            }
                        }
                    },
                }
            },
        }
        k += 1;
    }
    assert(recs.skip(k as int) =~= Seq::<RecordSpec>::empty());
    assert(extensions_view(acc@) + Seq::<AnyExtensionSpec>::empty() =~= extensions_view(acc@));
    Ok(acc)
}

proof fn lemma_records_concat_append(a: Seq<AnyExtensionSpec>, b: Seq<AnyExtensionSpec>)
    ensures
        records_concat(a + b) == records_concat(a) + records_concat(b),
    decreases a.len(),
{
    if a.len() == 0 {
        assert(a + b =~= b);
        assert(records_concat(a) + records_concat(b) =~= records_concat(b));
    } else {
        assert((a + b).drop_first() =~= a.drop_first() + b);
        lemma_records_concat_append(a.drop_first(), b);
        assert(records_concat(a) + records_concat(b) =~= a[0].spec_record() + (records_concat(
            a.drop_first(),
        ) + records_concat(b)));
    }
}

/// The records a list of extensions announces are read back as exactly the
/// (id, payload) pairs announced, none of them cut short.
pub proof fn lemma_info_records_roundtrip(exts: Seq<AnyExtensionSpec>)
    requires
        all_encodable(exts),
    ensures
        spec_info_records(records_concat(exts)) == (announced(exts), false),
    decreases exts.len(),
{
    if exts.len() == 0 {
        assert(announced(exts) =~= Seq::<RecordSpec>::empty());
    } else {
        let e = exts[0];
        assert(e.encodable());
        let payload = e.spec_encode();
        let rest = exts.drop_first();
        assert(all_encodable(rest)) by {
            assert forall|i: int| 0 <= i < rest.len() implies #[trigger] rest[i].encodable() by {
                assert(rest[i] == exts[i + 1]);
            }
        }
        lemma_info_records_roundtrip(rest);
        let b = records_concat(exts);
        assert(b.subrange(1, 5) =~= u32_le_bytes(payload.len() as u32));
        crate::wire::lemma_le_u32_roundtrip(payload.len() as u32);
        assert(b.skip(5 + payload.len() as int) =~= records_concat(rest));
        assert(b.subrange(5, 5 + payload.len() as int) =~= payload);
        assert(announced(exts) =~= seq![(e.id(), payload)] + announced(rest));
    }
}

/// What an INFO packet announces is what the peer reads from it: the version
/// and, record by record, the id and payload of every extension announced.
pub proof fn lemma_info_roundtrip(version: WispVersion, exts: Seq<AnyExtensionSpec>)
    requires
        all_encodable(exts),
    ensures
        spec_info_encode(version, exts).len() >= 7,
        spec_info_encode(version, exts)[0] == INFO_PACKET_TYPE,
        le_u32(spec_info_encode(version, exts).subrange(1, 5)) == 0,
        spec_decode_version(spec_info_encode(version, exts).skip(5)) == Ok::<WispVersion, WispError>(version),
        spec_info_records(spec_info_encode(version, exts).skip(7)) == (announced(exts), false),
{
    let b = spec_info_encode(version, exts);
    assert(b.skip(7) =~= records_concat(exts));
    assert(b.skip(5).subrange(0, 2) =~= version.spec_encode());
    lemma_info_records_roundtrip(exts);
}

impl View for InfoPacket {
    type V = InfoSpec;

    open spec fn view(&self) -> InfoSpec {
        InfoSpec { version: self.version, extensions: extensions_view(self.extensions@) }
    }
}

impl InfoPacket {
    /// Whether every extension's record can be written.
    pub fn is_encodable(&self) -> (r: bool)
        ensures
            r == all_encodable(extensions_view(self.extensions@)),
    {
        let ghost exts = extensions_view(self.extensions@);
        let mut k: usize = 0;
        while k < self.extensions.len()
            invariant
                0 <= k <= self.extensions@.len(),
                exts == extensions_view(self.extensions@),
                forall|i: int| 0 <= i < k ==> #[trigger] exts[i].encodable(),
            decreases self.extensions@.len() - k,
        {
            if !self.extensions[k].is_encodable() {
                assert(!exts[k as int].encodable());
                return false;
            }
            k += 1;
        }
        true
    }

    /// The INFO packet on the wire.
    pub fn encode(&self) -> (r: Vec<u8>)
        requires
            all_encodable(extensions_view(self.extensions@)),
        ensures
            r@ == spec_info_encode(self.version, extensions_view(self.extensions@)),
    {
        let ghost exts = extensions_view(self.extensions@);
        let mut out: Vec<u8> = Vec::new();
        out.push(INFO_PACKET_TYPE);
        put_u32_le(&mut out, 0);
        self.version.encode_into(&mut out);
        let ghost header = out@;
        assert(header =~= seq![INFO_PACKET_TYPE, 0u8, 0u8, 0u8, 0u8] + self.version.spec_encode());
        let mut k: usize = 0;
        assert(exts.take(0) =~= Seq::<AnyExtensionSpec>::empty());
        assert(out@ =~= header + records_concat(exts.take(0)));
        while k < self.extensions.len()
            invariant
                0 <= k <= self.extensions@.len(),
                exts == extensions_view(self.extensions@),
                all_encodable(exts),
                out@ == header + records_concat(exts.take(k as int)),
            decreases self.extensions@.len() - k,
        {
            assert(exts[k as int].encodable());
            self.extensions[k].encode_into(&mut out);
            proof {
                assert(exts.take(k + 1) =~= exts.take(k as int) + seq![exts[k as int]]);
                lemma_records_concat_append(exts.take(k as int), seq![exts[k as int]]);
                let single = seq![exts[k as int]];
                assert(single.drop_first() =~= Seq::<AnyExtensionSpec>::empty());
                assert(records_concat(Seq::<AnyExtensionSpec>::empty()) == Seq::<u8>::empty());
                assert(records_concat(single) == single[0].spec_record() + records_concat(
                    single.drop_first(),
                ));
                assert(records_concat(single) =~= exts[k as int].spec_record());
                assert(out@ =~= header + records_concat(exts.take(k + 1)));
            }
            k += 1;
        }
        assert(exts.take(k as int) =~= exts);
        out
    }

    /// Reads an INFO body (what follows type and stream id), feeding the
    /// announced extensions to the builders.
    pub fn decode(
        b: &[u8],
        builders: &mut Vec<AnyProtocolExtensionBuilder>,
        role: Role,
    ) -> (r: Result<InfoPacket, WispError>)
        requires
            spec_decode_info_accepts(b@, builders_view(old(builders)@), role),
        ensures
            builders_view(final(builders)@) == spec_decode_info(
                b@,
                builders_view(old(builders)@),
                role,
            ).0,
            match r {
                Ok(p) => spec_decode_info(b@, builders_view(old(builders)@), role).1 == Ok::<
                    InfoSpec,
                    WispError,
                >(p@),
                Err(e) => spec_decode_info(b@, builders_view(old(builders)@), role).1 == Err::<
                    InfoSpec,
                    WispError,
                >(e),
            },
    {
        if b.len() < 2 {
            return Err(WispError::PacketTooSmall);
        }
        let version = WispVersion { major: b[0], minor: b[1] };
        if version.major != crate::WISP_VERSION_MAJOR {
            return Err(
                WispError::IncompatibleProtocolVersion(
                    version,
                    WispVersion { major: crate::WISP_VERSION_MAJOR, minor: crate::WISP_VERSION_MINOR },
                ),
            );
        }
        let rest = &b[2..b.len()];
        assert(rest@ =~= b@.skip(2));
        let (records, truncated) = decode_records(rest);
        let extensions = match build_extensions(builders, &records, role) {
            Ok(x) => x,
            Err(e) => {
                return Err(e);
            },
        };
        if truncated {
            return Err(WispError::PacketTooSmall);
        }
        Ok(InfoPacket { version, extensions })
    }
}

/// A packet that may be an INFO packet.
#[derive(Clone, Debug)]
pub enum MaybeInfoPacket {
    Packet(Packet),
    Info(InfoPacket),
}

/// The abstract content of a packet that may be an INFO packet.
pub enum MaybeInfoSpec {
    Packet(PacketSpec),
    Info(InfoSpec),
}

impl View for MaybeInfoPacket {
    type V = MaybeInfoSpec;

    open spec fn view(&self) -> MaybeInfoSpec {
        match self {
            MaybeInfoPacket::Packet(p) => MaybeInfoSpec::Packet(p@),
            MaybeInfoPacket::Info(i) => MaybeInfoSpec::Info(i@),
        }
    }
}

/// What decoding the first packet of a handshake yields: an INFO packet
/// when its type is 5, any other packet otherwise.
pub open spec fn spec_decode_maybe_info(b: Seq<u8>, builders: Seq<AnyBuilderSpec>, role: Role) -> (
    Seq<AnyBuilderSpec>,
    Result<MaybeInfoSpec, WispError>,
) {
    if b.len() < 5 {
        (builders, Err(WispError::PacketTooSmall))
    } else if b[0] == INFO_PACKET_TYPE {
        let (nb, r) = spec_decode_info(b.skip(5), builders, role);
        (
            nb,
            match r {
                Ok(i) => Ok(MaybeInfoSpec::Info(i)),
                Err(e) => Err(e),
            },
        )
    } else {
        (
            builders,
            match spec_decode_packet(b) {
                Ok(p) => Ok(MaybeInfoSpec::Packet(p)),
                Err(e) => Err(e),
            },
        )
    }
}

/// Decoding never feeds a builder bytes it cannot take.
pub open spec fn spec_decode_maybe_info_accepts(
    b: Seq<u8>,
    builders: Seq<AnyBuilderSpec>,
    role: Role,
) -> bool {
    b.len() >= 5 && b[0] == INFO_PACKET_TYPE ==> spec_decode_info_accepts(b.skip(5), builders, role)
}

impl MaybeInfoPacket {
    pub fn decode(
        b: &[u8],
        builders: &mut Vec<AnyProtocolExtensionBuilder>,
        role: Role,
    ) -> (r: Result<MaybeInfoPacket, WispError>)
        requires
            spec_decode_maybe_info_accepts(b@, builders_view(old(builders)@), role),
        ensures
            builders_view(final(builders)@) == spec_decode_maybe_info(
                b@,
                builders_view(old(builders)@),
                role,
            ).0,
            match r {
                Ok(p) => spec_decode_maybe_info(b@, builders_view(old(builders)@), role).1 == Ok::<
                    MaybeInfoSpec,
                    WispError,
                >(p@),
                Err(e) => spec_decode_maybe_info(b@, builders_view(old(builders)@), role).1
                    == Err::<MaybeInfoSpec, WispError>(e),
            },
    {
        if b.len() < 5 {
            return Err(WispError::PacketTooSmall);
        }
        if b[0] == INFO_PACKET_TYPE {
            let rest = &b[5..b.len()];
            assert(rest@ =~= b@.skip(5));
            match InfoPacket::decode(rest, builders, role) {
                Ok(i) => Ok(MaybeInfoPacket::Info(i)),
                Err(e) => Err(e),
            }
        } else {
            match Packet::decode(b) {
                Ok(p) => Ok(MaybeInfoPacket::Packet(p)),
                Err(e) => Err(e),
            }
        }
    }

    /// Whether decoding these bytes feeds every builder only bytes it can take.
    pub fn decode_accepts(
        b: &[u8],
        builders: &Vec<AnyProtocolExtensionBuilder>,
        role: Role,
    ) -> (r: bool)
        ensures
            r == spec_decode_maybe_info_accepts(b@, builders_view(builders@), role),
    {
        if b.len() < 5 || b[0] != INFO_PACKET_TYPE || b.len() < 7 || b[5] != crate::WISP_VERSION_MAJOR {
            assert(b@.len() >= 7 ==> b@.skip(5)[0] == b@[5]);
            return true;
        }
        let rest = &b[7..b.len()];
        assert(rest@ =~= b@.skip(5).skip(2));
        let (records, _) = decode_records(rest);
        build_all_accepts(builders, &records, role)
    }
}

/// Whether feeding these records to the builders, in order, ever hands a
/// builder bytes it cannot take. Runs the feeding on copies of the builders.
pub fn build_all_accepts(
    builders: &Vec<AnyProtocolExtensionBuilder>,
    records: &Vec<(u8, Vec<u8>)>,
    role: Role,
) -> (r: bool)
    ensures
        r == spec_build_all_accepts(builders_view(builders@), records_view(records@), role),
{
    let mut scratch: Vec<AnyProtocolExtensionBuilder> = Vec::new();
    let mut j: usize = 0;
    while j < builders.len()
        invariant
            0 <= j <= builders@.len(),
            builders_view(scratch@) =~= builders_view(builders@).take(j as int),
        decreases builders@.len() - j,
    {
        let d = builders[j].duplicate();
        let ghost old_scratch = scratch@;
        scratch.push(d);
        assert(builders_view(scratch@) =~= builders_view(old_scratch).push(builders@[j as int]@));
        assert(builders_view(builders@).take(j + 1) =~= builders_view(builders@).take(j as int).push(
            builders@[j as int]@,
        ));
        j += 1;
    }
    assert(builders_view(builders@).take(j as int) =~= builders_view(builders@));
    let ghost recs = records_view(records@);
    let mut k: usize = 0;
    assert(recs.skip(0) =~= recs);
    while k < records.len()
        invariant
            0 <= k <= records@.len(),
            recs == records_view(records@),
            spec_build_all_accepts(builders_view(builders@), recs, role)
                == spec_build_all_accepts(builders_view(scratch@), recs.skip(k as int), role),
        decreases records@.len() - k,
    {
        let ghost bv = builders_view(scratch@);
        let ghost tail = recs.skip(k as int);
        assert(tail[0] == recs[k as int]);
        assert(tail.drop_first() =~= recs.skip(k + 1));
        let id = records[k].0;
        match find_builder_index(&scratch, id) {
            None => {},
            Some(i) => {
                proof {
                    lemma_find_builder_found(bv, id, 0);
                }
                assert(tail[0].0 == id);
                let data = records[k].1.as_slice();
                if !scratch[i].accepts(data) {
                    return false;
                }
                let res = scratch[i].build_from_bytes(data, role);
                assert(builders_view(scratch@) =~= bv.update(
                    i as int,
                    bv[i as int].from_bytes(tail[0].1, role).0,
                ));
                if res.is_err() {
                    return true;
                }
            },
        }
        k += 1;
    }
    true
}


// ---------------------------------------------------------------------------
// Packets that an extension handles
// ---------------------------------------------------------------------------
/// Whether extension `i` is the first in `exts` that handles packet type `ty`.
pub open spec fn is_first_handler(exts: Seq<AnyExtensionSpec>, ty: u8, i: int) -> bool {
    &&& 0 <= i < exts.len()
    &&& exts[i].supported_packets().contains(ty)
    &&& forall|j: int| 0 <= j < i ==> !(#[trigger] exts[j].supported_packets()).contains(ty)
}

/// Whether some extension in `exts` handles packet type `ty`.
pub open spec fn has_handler(exts: Seq<AnyExtensionSpec>, ty: u8) -> bool {
    exists|i: int| 0 <= i < exts.len() && (#[trigger] exts[i].supported_packets()).contains(ty)
}

/// A packet off the wire once it has been routed: a core packet, or the
/// body of a packet that the extension at `index` handles.
#[derive(Clone, Debug)]
pub enum MaybeExtensionPacket {
    Packet(Packet),
    Extension { index: usize, packet_type: u8, body: Vec<u8> },
}

/// The abstract content of a routed packet.
pub enum MaybeExtensionSpec {
    Packet(PacketSpec),
    Extension { index: int, packet_type: u8, body: Seq<u8> },
}

impl View for MaybeExtensionPacket {
    type V = MaybeExtensionSpec;

    open spec fn view(&self) -> MaybeExtensionSpec {
        match self {
            MaybeExtensionPacket::Packet(p) => MaybeExtensionSpec::Packet(p@),
            MaybeExtensionPacket::Extension { index, packet_type, body } => {
                MaybeExtensionSpec::Extension {
                    index: *index as int,
                    packet_type: *packet_type,
                    body: body@,
                }
            },
        }
    }
}

/// Routing a packet: types 1 to 4 are decoded as core packets; any other
/// type goes, with its body, to the first extension that lists it, and is
/// refused as an invalid packet type when none does.
pub open spec fn spec_route_packet(b: Seq<u8>, exts: Seq<AnyExtensionSpec>) -> Result<
    MaybeExtensionSpec,
    WispError,
> {
    if b.len() < 5 {
        Err(WispError::PacketTooSmall)
    } else if 0x01 <= b[0] <= 0x04 {
        match spec_decode_packet(b) {
            Ok(p) => Ok(MaybeExtensionSpec::Packet(p)),
            Err(e) => Err(e),
        }
    } else if has_handler(exts, b[0]) {
        Ok(
            MaybeExtensionSpec::Extension {
                index: choose|i: int| is_first_handler(exts, b[0], i),
                packet_type: b[0],
                body: b.skip(5),
            },
        )
    } else {
        Err(WispError::InvalidPacketType(b[0]))
    }
}

/// At most one extension is the first to handle a packet type.
pub proof fn lemma_first_handler_unique(exts: Seq<AnyExtensionSpec>, ty: u8, i: int, k: int)
    requires
        is_first_handler(exts, ty, i),
        is_first_handler(exts, ty, k),
    ensures
        i == k,
{
    if i < k {
        assert(!exts[i].supported_packets().contains(ty));
    } else if k < i {
        assert(!exts[k].supported_packets().contains(ty));
    }
}

/// Routing never hands a core packet to an extension: an encoded packet is
/// routed back as that packet, whatever extensions are in use. A packet of a
/// type an extension lists reaches the first such extension with its body
/// intact.
pub proof fn lemma_route_packet(p: PacketSpec, exts: Seq<AnyExtensionSpec>, ty: u8, id: u32, body: Seq<u8>)
    requires
        p.is_canonical(),
    ensures
        spec_route_packet(p.spec_encode(), exts) == Ok::<MaybeExtensionSpec, WispError>(
            MaybeExtensionSpec::Packet(p),
        ),
        !(0x01 <= ty <= 0x04) && has_handler(exts, ty) ==> ({
            let b = seq![ty] + u32_le_bytes(id) + body;
            &&& spec_route_packet(b, exts) matches Ok(MaybeExtensionSpec::Extension { index, packet_type, body: rb })
            &&& is_first_handler(exts, ty, index)
            &&& packet_type == ty
            &&& rb == body
        }),
{
    lemma_packet_roundtrip(p);
    let e = p.spec_encode();
    assert(e[0] == p.packet_type.type_byte());
    let b = seq![ty] + u32_le_bytes(id) + body;
    assert(b[0] == ty);
    assert(b.skip(5) =~= body);
    if !(0x01 <= ty <= 0x04) && has_handler(exts, ty) {
        let i = choose|i: int| 0 <= i < exts.len() && (#[trigger] exts[i].supported_packets()).contains(ty);
        lemma_first_handler_exists(exts, ty, i);
    }
}

/// When some extension handles a packet type, a first one does.
proof fn lemma_first_handler_exists(exts: Seq<AnyExtensionSpec>, ty: u8, i: int)
    requires
        0 <= i < exts.len(),
        exts[i].supported_packets().contains(ty),
    ensures
        exists|k: int| is_first_handler(exts, ty, k),
    decreases i,
{
    if forall|j: int| 0 <= j < i ==> !(#[trigger] exts[j].supported_packets()).contains(ty) {
        assert(is_first_handler(exts, ty, i));
    } else {
        let j = choose|j: int| 0 <= j < i && (#[trigger] exts[j].supported_packets()).contains(ty);
        lemma_first_handler_exists(exts, ty, j);
    }
}

fn bytes_contain(v: &Vec<u8>, x: u8) -> (r: bool)
    ensures
        r == v@.contains(x),
{
    let mut i: usize = 0;
    while i < v.len()
        invariant
            i <= v.len(),
            forall|j: int| 0 <= j < i ==> v@[j] != x,
        decreases v.len() - i,
    {
        if v[i] == x {
            assert(v@[i as int] == x);
            return true;
        }
        i = i + 1;
    }
    false
}

impl MaybeExtensionPacket {
    /// Routes a packet off the wire to the core protocol or to an extension.
    pub fn decode(b: &[u8], extensions: &Vec<AnyProtocolExtension>) -> (r: Result<
        MaybeExtensionPacket,
        WispError,
    >)
        ensures
            match r {
                Ok(p) => spec_route_packet(b@, extensions_view(extensions@)) == Ok::<
                    MaybeExtensionSpec,
                    WispError,
                >(p@),
                Err(e) => spec_route_packet(b@, extensions_view(extensions@)) == Err::<
                    MaybeExtensionSpec,
                    WispError,
                >(e),
            },
    {
        if b.len() < 5 {
            return Err(WispError::PacketTooSmall);
        }
        let ty = b[0];
        if 0x01 <= ty && ty <= 0x04 {
            return match Packet::decode(b) {
                Ok(p) => Ok(MaybeExtensionPacket::Packet(p)),
                Err(e) => Err(e),
            };
        }
        let ghost exts = extensions_view(extensions@);
        let mut i: usize = 0;
        while i < extensions.len()
            invariant
                i <= extensions.len(),
                exts == extensions_view(extensions@),
                exts.len() == extensions@.len(),
                b.len() >= 5,
                ty == b@[0],
                !(0x01 <= ty <= 0x04),
                forall|j: int| 0 <= j < i ==> !(#[trigger] exts[j].supported_packets()).contains(ty),
            decreases extensions.len() - i,
        {
            let supported = extensions[i].get_supported_packets();
            assert(exts[i as int] == extensions@[i as int]@);
            if bytes_contain(&supported, ty) {
                let body = vstd::slice::slice_to_vec(&b[5..b.len()]);
                proof {
                    assert(body@ =~= b@.skip(5));
                    assert(is_first_handler(exts, ty, i as int));
                    assert(has_handler(exts, ty));
                    let c = choose|k: int| is_first_handler(exts, ty, k);
                    lemma_first_handler_unique(exts, ty, i as int, c);
                }
                return Ok(MaybeExtensionPacket::Extension { index: i, packet_type: ty, body });
            }
            i = i + 1;
        }
        assert(!has_handler(exts, ty));
        Err(WispError::InvalidPacketType(ty))
    }
}

} // verus!
