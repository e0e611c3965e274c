//! Setting up a multiplexor: what each side decides during the Wisp v2
//! handshake, and what a multiplexor knows once the handshake is over.
//!
//! The driver reads and writes the transport; at each step it hands the
//! packet it read to one of the functions here and performs what they ask.
pub mod inner;

use vstd::prelude::*;

use crate::error::WispError;
use crate::extensions::udp::{UdpProtocolExtension, UDP_PROTOCOL_EXTENSION_ID};
use crate::extensions::{
    builders_view, extensions_view, AnyBuilderSpec, AnyExtensionSpec, AnyProtocolExtension,
    AnyProtocolExtensionBuilder,
};
use crate::packet::{
    lemma_packet_roundtrip, spec_decode_packet, CloseReason, ClosePacket, ContinuePacket,
    InfoPacket, MaybeInfoPacket, MaybeInfoSpec, Packet, PacketSpec, PacketTypeSpec, PacketType,
    StreamType, WispVersion,
};
use crate::{Role, WISP_VERSION_MAJOR, WISP_VERSION_MINOR};

verus! {

// ---------------------------------------------------------------------------
// Extension ids
// ---------------------------------------------------------------------------
/// The ids of a list of extensions, in order.
pub open spec fn ext_ids(exts: Seq<AnyExtensionSpec>) -> Seq<u8> {
    exts.map_values(|e: AnyExtensionSpec| e.id())
}

/// The ids of a list of builders, in order.
pub open spec fn builder_ids(builders: Seq<AnyBuilderSpec>) -> Seq<u8> {
    builders.map_values(|b: AnyBuilderSpec| b.id())
}

/// The extensions whose id is among `ids`, in their order.
pub open spec fn keep_supported(exts: Seq<AnyExtensionSpec>, ids: Seq<u8>) -> Seq<AnyExtensionSpec>
    decreases exts.len(),
{
    if exts.len() == 0 {
        seq![]
    } else {
        let prev = keep_supported(exts.drop_last(), ids);
        if ids.contains(exts.last().id()) {
            prev.push(exts.last())
        } else {
            prev
        }
    }
}

/// The required ids that are not among `ids`, in their order.
pub open spec fn missing_ids(required: Seq<u8>, ids: Seq<u8>) -> Seq<u8>
    decreases required.len(),
{
    if required.len() == 0 {
        seq![]
    } else {
        let prev = missing_ids(required.drop_last(), ids);
        if ids.contains(required.last()) {
            prev
        } else {
            prev.push(required.last())
        }
    }
}

/// Whether some builder has the given id.
fn has_builder_id(builders: &Vec<AnyProtocolExtensionBuilder>, id: u8) -> (r: bool)
    ensures
        r == builder_ids(builders_view(builders@)).contains(id),
{
    let ghost ids = builder_ids(builders_view(builders@));
    let mut i: usize = 0;
    while i < builders.len()
        invariant
            0 <= i <= builders@.len(),
            ids == builder_ids(builders_view(builders@)),
            ids.len() == builders@.len(),
            forall|k: int| 0 <= k < i ==> ids[k] != id,
        decreases builders@.len() - i,
    {
        if builders[i].get_id() == id {
            assert(ids[i as int] == id);
            return true;
        }
        i += 1;
    }
    false
}

/// Whether some extension has the given id.
fn has_extension_id(exts: &Vec<AnyProtocolExtension>, id: u8) -> (r: bool)
    ensures
        r == ext_ids(extensions_view(exts@)).contains(id),
{
    let ghost ids = ext_ids(extensions_view(exts@));
    let mut i: usize = 0;
    while i < exts.len()
        invariant
            0 <= i <= exts@.len(),
            ids == ext_ids(extensions_view(exts@)),
            ids.len() == exts@.len(),
            forall|k: int| 0 <= k < i ==> ids[k] != id,
        decreases exts@.len() - i,
    {
        if exts[i].get_id() == id {
            assert(ids[i as int] == id);
            return true;
        }
        i += 1;
    }
    false
}

/// The peer's extensions that some local builder knows, in the peer's order.
pub fn get_supported_extensions(
    extensions: Vec<AnyProtocolExtension>,
    builders: &Vec<AnyProtocolExtensionBuilder>,
) -> (r: Vec<AnyProtocolExtension>)
    ensures
        extensions_view(r@) == keep_supported(
            extensions_view(extensions@),
            builder_ids(builders_view(builders@)),
        ),
{
    let ghost all = extensions_view(extensions@);
    let ghost ids = builder_ids(builders_view(builders@));
    let mut rest = extensions;
    let mut out: Vec<AnyProtocolExtension> = Vec::new();
    assert(all.take(0) =~= Seq::<AnyExtensionSpec>::empty());
    assert(all.skip(0) =~= all);
    while rest.len() > 0
        invariant
            rest@.len() <= all.len(),
            extensions_view(rest@) == all.skip(all.len() - rest@.len()),
            extensions_view(out@) == keep_supported(all.take(all.len() - rest@.len()), ids),
            ids == builder_ids(builders_view(builders@)),
        decreases rest@.len(),
    {
        let ghost i = all.len() - rest@.len();
        let ghost old_rest = rest@;
        let e = rest.remove(0);
        assert(extensions_view(old_rest)[0] == all.skip(i)[0]);
        assert(e@ == all[i]);
        assert(extensions_view(rest@) =~= all.skip(i + 1)) by {
            assert(rest@ =~= old_rest.subrange(1, old_rest.len() as int));
            assert forall|j: int| 0 <= j < rest@.len() implies #[trigger] extensions_view(rest@)[j]
                == all.skip(i + 1)[j] by {
                assert(extensions_view(old_rest)[j + 1] == all.skip(i)[j + 1]);
            }
        }
        assert(all.take(i + 1).drop_last() =~= all.take(i));
        assert(all.take(i + 1).last() == all[i]);
        if has_builder_id(builders, e.get_id()) {
            let ghost prev = extensions_view(out@);
            out.push(e);
            assert(extensions_view(out@) =~= prev.push(all[i]));
        }
    }
    assert(all.take(all.len() as int) =~= all);
    out
}

/// The required extension ids the peer did not announce, or `None` when it
/// announced them all.
pub fn missing_required_extensions(
    extensions: &Vec<AnyProtocolExtension>,
    required: Vec<u8>,
) -> (r: Option<Vec<u8>>)
    ensures
        ({
            let m = missing_ids(required@, ext_ids(extensions_view(extensions@)));
            if m.len() == 0 {
                r is None
            } else {
                r matches Some(v) && v@ == m
            }
        }),
{
    let ghost ids = ext_ids(extensions_view(extensions@));
    let mut missing: Vec<u8> = Vec::new();
    let mut i: usize = 0;
    assert(required@.take(0) =~= Seq::<u8>::empty());
    while i < required.len()
        invariant
            0 <= i <= required@.len(),
            ids == ext_ids(extensions_view(extensions@)),
            missing@ == missing_ids(required@.take(i as int), ids),
        decreases required@.len() - i,
    {
        assert(required@.take(i + 1).drop_last() =~= required@.take(i as int));
        assert(required@.take(i + 1).last() == required@[i as int]);
        if !has_extension_id(extensions, required[i]) {
            missing.push(required[i]);
        }
        i += 1;
    }
    assert(required@.take(i as int) =~= required@);
    if missing.len() == 0 {
        None
    } else {
        Some(missing)
    }
}

// ---------------------------------------------------------------------------
// Handshake settings and results
// ---------------------------------------------------------------------------
/// Wisp v2 handshake settings: the extension builders, the ids of the
/// extensions the peer must support, and middleware run on the builders
/// before the INFO packet is answered.
pub struct WispV2Handshake<M> {
    pub builders: Vec<AnyProtocolExtensionBuilder>,
    pub required: Vec<u8>,
    pub closure: Option<M>,
}

impl<M> WispV2Handshake<M> {
    /// Settings with no extensions.
    pub fn empty() -> (r: Self)
        ensures
            r.builders@.len() == 0,
            r.required@.len() == 0,
            r.closure is None,
    {
        WispV2Handshake { builders: Vec::new(), required: Vec::new(), closure: None }
    }

    /// Settings with some extensions.
    pub fn new(builders: Vec<AnyProtocolExtensionBuilder>, required: Vec<u8>) -> (r: Self)
        ensures
            r.builders == builders,
            r.required == required,
            r.closure is None,
    {
        WispV2Handshake { builders, required, closure: None }
    }

    /// Adds middleware, replacing any given before.
    pub fn with_middleware(self, closure: M) -> (r: Self)
        ensures
            r.builders == self.builders,
            r.required == self.required,
            r.closure == Some(closure),
    {
        WispV2Handshake { builders: self.builders, required: self.required, closure: Some(closure) }
    }

    /// Adds an extension builder.
    pub fn with_extension(self, extension: AnyProtocolExtensionBuilder) -> (r: Self)
        ensures
            r.builders@ == self.builders@.push(extension),
            r.required == self.required,
            r.closure == self.closure,
    {
        let mut s = self;
        s.builders.push(extension);
        s
    }

    /// Adds an extension id that the peer must support.
    pub fn with_required_extension(self, extension: u8) -> (r: Self)
        ensures
            r.builders == self.builders,
            r.required@ == self.required@.push(extension),
            r.closure == self.closure,
    {
        let mut s = self;
        s.required.push(extension);
        s
    }

    /// Requires the peer to support the UDP extension.
    pub fn with_udp_required_extension(self) -> (r: Self)
        ensures
            r.builders == self.builders,
            r.required@ == self.required@.push(UDP_PROTOCOL_EXTENSION_ID),
            r.closure == self.closure,
    {
        self.with_required_extension(UdpProtocolExtension::id())
    }
}

/// How a handshake ended: with the extensions both sides support (v2), or
/// as Wisp v1, possibly with the peer's first packet still to be handled.
#[derive(Debug)]
pub enum WispHandshakeResultKind {
    V2 { extensions: Vec<AnyProtocolExtension> },
    V1 { packet: Option<Packet> },
}

impl WispHandshakeResultKind {
    /// The extensions in use (Wisp v1 always has UDP) and the packet still
    /// to be handled.
    pub fn into_parts(self) -> (r: (Vec<AnyProtocolExtension>, Option<Packet>))
        ensures
            match self {
                WispHandshakeResultKind::V2 { extensions } => {
                    &&& extensions_view(r.0@) == extensions_view(extensions@)
                    &&& r.1 is None
                },
                WispHandshakeResultKind::V1 { packet } => {
                    &&& extensions_view(r.0@) == seq![AnyExtensionSpec::Udp]
                    &&& r.1 == packet
                },
            },
    {
        match self {
            WispHandshakeResultKind::V2 { extensions } => (extensions, None),
            WispHandshakeResultKind::V1 { packet } => {
                let mut v: Vec<AnyProtocolExtension> = Vec::new();
                v.push(AnyProtocolExtension::Udp(UdpProtocolExtension));
                assert(extensions_view(v@) =~= seq![AnyExtensionSpec::Udp]);
                (v, packet)
            },
        }
    }
}

/// The outcome of a handshake.
#[derive(Debug)]
pub struct WispHandshakeResult {
    pub kind: WispHandshakeResultKind,
    /// The peer only spoke Wisp v1 though v2 was offered.
    pub downgraded: bool,
    /// How many packets a stream may have in flight.
    pub buffer_size: u32,
}

/// The abstract content of a handshake's outcome.
pub enum HandshakeSpec {
    V2 { extensions: Seq<AnyExtensionSpec>, downgraded: bool, buffer_size: u32 },
    V1 { packet: Option<PacketSpec>, downgraded: bool, buffer_size: u32 },
}

impl View for WispHandshakeResult {
    type V = HandshakeSpec;

    open spec fn view(&self) -> HandshakeSpec {
        match &self.kind {
            WispHandshakeResultKind::V2 { extensions } => HandshakeSpec::V2 {
                extensions: extensions_view(extensions@),
                downgraded: self.downgraded,
                buffer_size: self.buffer_size,
            },
            WispHandshakeResultKind::V1 { packet } => HandshakeSpec::V1 {
                packet: match packet {
                    Some(p) => Some(p@),
                    None => None,
                },
                downgraded: self.downgraded,
                buffer_size: self.buffer_size,
            },
        }
    }
}

/// The CONTINUE packet, on stream 0, that tells the client the buffer size.
pub open spec fn spec_continue_bytes(buffer_size: u32) -> Seq<u8> {
    (PacketSpec {
        stream_id: 0,
        packet_type: PacketTypeSpec::Continue(ContinuePacket { buffer_remaining: buffer_size }),
    }).spec_encode()
}

/// The CLOSE packet, on stream 0, that ends a connection.
pub open spec fn spec_close_bytes(reason: CloseReason) -> Seq<u8> {
    (PacketSpec { stream_id: 0, packet_type: PacketTypeSpec::Close(ClosePacket { reason }) }).spec_encode()
}

/// What the last packet of a client's handshake must be: a CONTINUE on
/// stream 0; its value is the buffer size.
pub open spec fn spec_validate_continue(p: PacketSpec) -> Result<u32, WispError> {
    if p.stream_id != 0 {
        Err(WispError::InvalidStreamId(p.stream_id))
    } else {
        match p.packet_type {
            PacketTypeSpec::Continue(c) => Ok(c.buffer_remaining),
            t => Err(WispError::InvalidPacketType(t.type_byte())),
        }
    }
}

/// The buffer size a CONTINUE packet on stream 0 announces.
pub fn validate_continue_packet(packet: &Packet) -> (r: Result<u32, WispError>)
    ensures
        r == spec_validate_continue(packet@),
{
    if packet.stream_id != 0 {
        return Err(WispError::InvalidStreamId(packet.stream_id));
    }
    match &packet.packet_type {
        PacketType::Continue(c) => Ok(c.buffer_remaining),
        t => Err(WispError::InvalidPacketType(t.get_type())),
    }
}

// ---------------------------------------------------------------------------
// The INFO packet each side sends
// ---------------------------------------------------------------------------
/// Every builder, in order, produced its extension.
pub open spec fn built_all(
    before: Seq<AnyBuilderSpec>,
    after: Seq<AnyBuilderSpec>,
    role: Role,
    exts: Seq<AnyExtensionSpec>,
) -> bool {
    &&& after.len() == before.len()
    &&& exts.len() == before.len()
    &&& forall|i: int|
        0 <= i < before.len() ==> #[trigger] before[i].to_extension(
            role,
            after[i],
            Ok::<AnyExtensionSpec, WispError>(exts[i]),
        )
}

/// The builder produced some extension and became `next`.
pub open spec fn builds_some(b: AnyBuilderSpec, next: AnyBuilderSpec, role: Role) -> bool {
    exists|x: AnyExtensionSpec| #[trigger] b.to_extension(role, next, Ok::<AnyExtensionSpec, WispError>(x))
}

/// The builders before `k` produced their extensions, builder `k` failed
/// with `e`, and the builders after it were not asked.
pub open spec fn built_until_error(
    before: Seq<AnyBuilderSpec>,
    after: Seq<AnyBuilderSpec>,
    role: Role,
    k: int,
    e: WispError,
) -> bool {
    &&& after.len() == before.len()
    &&& 0 <= k < before.len()
    &&& forall|i: int| 0 <= i < k ==> #[trigger] builds_some(before[i], after[i], role)
    &&& before[k].to_extension(role, after[k], Err::<AnyExtensionSpec, WispError>(e))
    &&& forall|i: int| k < i < before.len() ==> after[i] == before[i]
}

/// The version of the protocol spoken here.
pub open spec fn wisp_version() -> WispVersion {
    WispVersion { major: WISP_VERSION_MAJOR, minor: WISP_VERSION_MINOR }
}

/// Builds, in order, the extensions to announce, and the INFO packet that
/// announces them; the first builder that fails stops it.
pub fn build_info_packet(builders: &mut Vec<AnyProtocolExtensionBuilder>, role: Role) -> (r: Result<
    InfoPacket,
    WispError,
>)
    ensures
        match r {
            Ok(info) => {
                &&& info.version == wisp_version()
                &&& built_all(
                    builders_view(old(builders)@),
                    builders_view(final(builders)@),
                    role,
                    extensions_view(info.extensions@),
                )
            },
            Err(e) => exists|k: int|
                built_until_error(
                    builders_view(old(builders)@),
                    builders_view(final(builders)@),
                    role,
                    k,
                    e,
                ),
        },
{
    let ghost before = builders_view(builders@);
    let mut exts: Vec<AnyProtocolExtension> = Vec::new();
    let mut i: usize = 0;
    while i < builders.len()
        invariant
            0 <= i <= builders@.len(),
            before == builders_view(old(builders)@),
            builders@.len() == before.len(),
            exts@.len() == i,
            forall|k: int|
                0 <= k < i ==> #[trigger] before[k].to_extension(
                    role,
                    builders_view(builders@)[k],
                    Ok::<AnyExtensionSpec, WispError>(exts@[k]@),
                ),
            forall|k: int| i <= k < before.len() ==> builders_view(builders@)[k] == before[k],
        decreases builders@.len() - i,
    {
        let ghost prev = builders_view(builders@);
        let res = builders[i].build_to_extension(role);
        assert(builders_view(builders@) =~= prev.update(i as int, builders@[i as int]@));
        match res {
            Ok(e) => {
                exts.push(e);
            },
            Err(e) => {
                proof {
                    let after = builders_view(builders@);
                    assert forall|k: int| 0 <= k < i implies #[trigger] builds_some(
                        before[k],
                        after[k],
                        role,
                    ) by {
                        assert(before[k].to_extension(
                            role,
                            after[k],
                            Ok::<AnyExtensionSpec, WispError>(exts@[k]@),
                        ));
                    }
                    assert(before[i as int] == prev[i as int]);
                    assert(after[i as int] == builders@[i as int]@);
                    assert(before[i as int].to_extension(
                        role,
                        after[i as int],
                        Err::<AnyExtensionSpec, WispError>(e),
                    ));
                    assert forall|k: int| i < k < before.len() implies after[k] == before[k] by {
                        assert(after[k] == prev[k]);
                    }
                    assert(after.len() == before.len());
                    assert(0 <= i < before.len());
                    assert(built_until_error(before, after, role, i as int, e));
                }
                return Err(e);
            },
        }
        i += 1;
    }
    proof {
        let after = builders_view(builders@);
        let ev = extensions_view(exts@);
        assert forall|k: int| 0 <= k < before.len() implies #[trigger] before[k].to_extension(
            role,
            after[k],
            Ok::<AnyExtensionSpec, WispError>(ev[k]),
        ) by {
            assert(ev[k] == exts@[k]@);
        }
    }
    Ok(
        InfoPacket {
            version: WispVersion { major: WISP_VERSION_MAJOR, minor: WISP_VERSION_MINOR },
            extensions: exts,
        },
    )
}

// ---------------------------------------------------------------------------
// The server's side
// ---------------------------------------------------------------------------
/// What the server does once it has read the client's first packet.
#[derive(Debug)]
pub enum ServerHandshakeReply {
    /// The client speaks Wisp v1: the handshake is over, and the packet it
    /// sent is the multiplexor's first.
    Downgrade(WispHandshakeResult),
    /// The client lacks a required extension: send this CLOSE packet,
    /// close the transport and fail with the error.
    Reject(Vec<u8>, WispError),
    /// Run the handshakes of these extensions, then finish with
    /// `server_handshake_finish`.
    Negotiated(Vec<AnyProtocolExtension>),
}

/// A server that offers no Wisp v2 only tells the client the buffer size.
pub fn server_handshake_v1(buffer_size: u32) -> (r: (Vec<u8>, WispHandshakeResult))
    ensures
        r.0@ == spec_continue_bytes(buffer_size),
        r.1@ == (HandshakeSpec::V1 { packet: None, downgraded: false, buffer_size }),
{
    let bytes = Packet::new_continue(0, buffer_size).encode();
    (
        bytes,
        WispHandshakeResult {
            kind: WispHandshakeResultKind::V1 { packet: None },
            downgraded: false,
            buffer_size,
        },
    )
}

/// The server's answer to the client's first packet: a client that sends
/// an INFO packet must announce every required extension; the extensions
/// it announced that the server has builders for are kept.
pub fn server_handshake_reply(
    first: MaybeInfoPacket,
    builders: &Vec<AnyProtocolExtensionBuilder>,
    required: Vec<u8>,
    buffer_size: u32,
) -> (r: ServerHandshakeReply)
    ensures
        match first@ {
            MaybeInfoSpec::Packet(p) => r matches ServerHandshakeReply::Downgrade(res) && res@
                == (HandshakeSpec::V1 { packet: Some(p), downgraded: true, buffer_size }),
            MaybeInfoSpec::Info(info) => {
                let m = missing_ids(required@, ext_ids(info.extensions));
                if m.len() > 0 {
                    &&& r matches ServerHandshakeReply::Reject(bytes, e)
                    &&& bytes@ == spec_close_bytes(CloseReason::ExtensionsIncompatible)
                    &&& e matches WispError::ExtensionsNotSupported(v)
                    &&& v@ == m
                } else {
                    &&& r matches ServerHandshakeReply::Negotiated(exts)
                    &&& extensions_view(exts@) == keep_supported(
                        info.extensions,
                        builder_ids(builders_view(builders@)),
                    )
                }
            },
        },
{
    match first {
        MaybeInfoPacket::Packet(packet) => ServerHandshakeReply::Downgrade(
            WispHandshakeResult {
                kind: WispHandshakeResultKind::V1 { packet: Some(packet) },
                downgraded: true,
                buffer_size,
            },
        ),
        MaybeInfoPacket::Info(info) => {
            match missing_required_extensions(&info.extensions, required) {
                Some(missing) => ServerHandshakeReply::Reject(
                    Packet::new_close(0, CloseReason::ExtensionsIncompatible).encode(),
                    WispError::ExtensionsNotSupported(missing),
                ),
                None => ServerHandshakeReply::Negotiated(
                    get_supported_extensions(info.extensions, builders),
                ),
            }
        },
    }
}

/// Once the extensions' handshakes passed, the server tells the client the
/// buffer size and the connection is Wisp v2.
pub fn server_handshake_finish(extensions: Vec<AnyProtocolExtension>, buffer_size: u32) -> (r: (
    Vec<u8>,
    WispHandshakeResult,
))
    ensures
        r.0@ == spec_continue_bytes(buffer_size),
        r.1@ == (HandshakeSpec::V2 {
            extensions: extensions_view(extensions@),
            downgraded: false,
            buffer_size,
        }),
{
    let bytes = Packet::new_continue(0, buffer_size).encode();
    (
        bytes,
        WispHandshakeResult {
            kind: WispHandshakeResultKind::V2 { extensions },
            downgraded: false,
            buffer_size,
        },
    )
}

// ---------------------------------------------------------------------------
// The client's side
// ---------------------------------------------------------------------------
/// What the client does once it has read the server's first packet.
#[derive(Debug)]
pub enum ClientHandshakeReply {
    /// The server speaks Wisp v1: the handshake is over.
    Downgrade(WispHandshakeResult),
    /// The server sent its INFO packet: run the middleware, send our own
    /// INFO packet, keep the extensions both support, run their handshakes
    /// and finish with `client_handshake_finish`.
    Negotiate(InfoPacket),
}

/// A client that offers no Wisp v2 reads the buffer size from the server's
/// first packet.
pub fn client_handshake_v1(first: &Packet) -> (r: Result<WispHandshakeResult, WispError>)
    ensures
        match spec_validate_continue(first@) {
            Ok(n) => r matches Ok(res) && res@ == (HandshakeSpec::V1 {
                packet: None,
                downgraded: false,
                buffer_size: n,
            }),
            Err(e) => r == Err::<WispHandshakeResult, WispError>(e),
        },
{
    let buffer_size = match validate_continue_packet(first) {
        Ok(n) => n,
        Err(e) => {
            return Err(e);
        },
    };
    Ok(
        WispHandshakeResult {
            kind: WispHandshakeResultKind::V1 { packet: None },
            downgraded: false,
            buffer_size,
        },
    )
}

/// The client's answer to the server's first packet: an INFO packet starts
/// the v2 handshake, anything else must be the CONTINUE of a v1 server.
pub fn client_handshake_reply(first: MaybeInfoPacket) -> (r: Result<ClientHandshakeReply, WispError>)
    ensures
        match first@ {
            MaybeInfoSpec::Info(info) => r matches Ok(ClientHandshakeReply::Negotiate(i)) && i@
                == info,
            MaybeInfoSpec::Packet(p) => match spec_validate_continue(p) {
                Ok(n) => r matches Ok(ClientHandshakeReply::Downgrade(res)) && res@
                    == (HandshakeSpec::V1 { packet: None, downgraded: true, buffer_size: n }),
                Err(e) => r == Err::<ClientHandshakeReply, WispError>(e),
            },
        },
{
    match first {
        MaybeInfoPacket::Info(info) => Ok(ClientHandshakeReply::Negotiate(info)),
        MaybeInfoPacket::Packet(packet) => {
            let buffer_size = match validate_continue_packet(&packet) {
                Ok(n) => n,
                Err(e) => {
                    return Err(e);
                },
            };
            Ok(
                ClientHandshakeReply::Downgrade(
                    WispHandshakeResult {
                        kind: WispHandshakeResultKind::V1 { packet: None },
                        downgraded: true,
                        buffer_size,
                    },
                ),
            )
        },
    }
}

/// The v2 handshake ends with the server's CONTINUE packet, which gives the
/// buffer size.
pub fn client_handshake_finish(extensions: Vec<AnyProtocolExtension>, last: &Packet) -> (r: Result<
    WispHandshakeResult,
    WispError,
>)
    ensures
        match spec_validate_continue(last@) {
            Ok(n) => r matches Ok(res) && res@ == (HandshakeSpec::V2 {
                extensions: extensions_view(extensions@),
                downgraded: false,
                buffer_size: n,
            }),
            Err(e) => r == Err::<WispHandshakeResult, WispError>(e),
        },
{
    let buffer_size = match validate_continue_packet(last) {
        Ok(n) => n,
        Err(e) => {
            return Err(e);
        },
    };
    Ok(
        WispHandshakeResult {
            kind: WispHandshakeResultKind::V2 { extensions },
            downgraded: false,
            buffer_size,
        },
    )
}

// ---------------------------------------------------------------------------
// Laws of the handshake
// ---------------------------------------------------------------------------
/// The buffer size a server announces is the one its client reads: the
/// CONTINUE packet the server sends decodes to a packet that ends the
/// client's handshake with that size.
pub proof fn lemma_handshake_buffer_size(n: u32)
    ensures
        spec_decode_packet(spec_continue_bytes(n)) matches Ok(p) && spec_validate_continue(p)
            == Ok::<u32, WispError>(n),
{
    let p = PacketSpec {
        stream_id: 0,
        packet_type: PacketTypeSpec::Continue(ContinuePacket { buffer_remaining: n }),
    };
    lemma_packet_roundtrip(p);
}

/// Every extension kept has an id some builder knows, and every extension
/// of the peer with such an id is kept.
pub proof fn lemma_keep_supported(exts: Seq<AnyExtensionSpec>, ids: Seq<u8>)
    ensures
        forall|e: AnyExtensionSpec|
            #[trigger] keep_supported(exts, ids).contains(e) ==> ids.contains(e.id())
                && exts.contains(e),
        forall|e: AnyExtensionSpec|
            exts.contains(e) && ids.contains(e.id()) ==> #[trigger] keep_supported(
                exts,
                ids,
            ).contains(e),
    decreases exts.len(),
{
    if exts.len() > 0 {
        let prev = exts.drop_last();
        lemma_keep_supported(prev, ids);
        assert forall|e: AnyExtensionSpec| #[trigger]
            keep_supported(exts, ids).contains(e) implies ids.contains(e.id()) && exts.contains(
            e,
        ) by {
            if keep_supported(prev, ids).contains(e) {
                let i = choose|i: int| 0 <= i < prev.len() && prev[i] == e;
                assert(exts[i] == e);
            } else {
                assert(e == exts.last());
            }
        }
        assert forall|e: AnyExtensionSpec|
            exts.contains(e) && ids.contains(e.id()) implies #[trigger] keep_supported(
            exts,
            ids,
        ).contains(e) by {
            let i = choose|i: int| 0 <= i < exts.len() && exts[i] == e;
            if i < exts.len() - 1 {
                assert(prev[i] == e);
                assert(prev.contains(e));
                assert(keep_supported(prev, ids).contains(e));
                let pk = keep_supported(prev, ids);
                let k = choose|k: int| 0 <= k < pk.len() && pk[k] == e;
                if ids.contains(exts.last().id()) {
                    assert(keep_supported(exts, ids) == pk.push(exts.last()));
                    assert(keep_supported(exts, ids)[k] == e);
                } else {
                    assert(keep_supported(exts, ids) == pk);
                }
            } else {
                let kept = keep_supported(exts, ids);
                assert(kept[kept.len() - 1] == e);
            }
        }
    }
}

/// No required id is missing exactly when the peer announced all of them.
pub proof fn lemma_missing_ids_empty(required: Seq<u8>, ids: Seq<u8>)
    ensures
        missing_ids(required, ids).len() == 0 <==> forall|i: int|
            0 <= i < required.len() ==> ids.contains(#[trigger] required[i]),
    decreases required.len(),
{
    if required.len() > 0 {
        let prev = required.drop_last();
        lemma_missing_ids_empty(prev, ids);
        if missing_ids(required, ids).len() == 0 {
            assert forall|i: int| 0 <= i < required.len() implies ids.contains(
                #[trigger] required[i],
            ) by {
                if i < required.len() - 1 {
                    assert(prev[i] == required[i]);
                }
            }
        } else if ids.contains(required.last()) {
            let k = choose|k: int| 0 <= k < prev.len() && !ids.contains(#[trigger] prev[k]);
            assert(required[k] == prev[k]);
        }
    }
}

// ---------------------------------------------------------------------------
// After the handshake
// ---------------------------------------------------------------------------
/// Marker for the client side of a multiplexor.
pub struct ClientImpl;

/// What a multiplexor knows once its handshake is over.
pub struct Multiplexor {
    pub role: Role,
    pub downgraded: bool,
    pub supported_extensions: Vec<AnyProtocolExtension>,
}

impl Multiplexor {
    /// Sets up a multiplexor from its handshake: the state shared with the
    /// streams, the multiplexor's own state, and the packet the peer already
    /// sent, if any, to be handled first.
    pub fn create(role: Role, result: WispHandshakeResult) -> (r: (Multiplexor, inner::MuxInner, Option<Packet>))
        ensures
            r.0.role == role,
            r.0.downgraded == result.downgraded,
            r.1@.role == role,
            r.1@.buffer_size == result.buffer_size,
            r.1@.current_id == 0,
            r.1@.streams.len() == 0,
            !r.1@.started,
            r.1@.wf(),
            r.1@.ids_allocated(),
            r.1@.flow_stream_types == inner::spec_flow_stream_types(
                extensions_view(r.0.supported_extensions@),
            ),
            match result.kind {
                WispHandshakeResultKind::V2 { extensions } => {
                    &&& extensions_view(r.0.supported_extensions@) == extensions_view(extensions@)
                    &&& r.2 is None
                },
                WispHandshakeResultKind::V1 { packet } => {
                    &&& extensions_view(r.0.supported_extensions@) == seq![AnyExtensionSpec::Udp]
                    &&& r.2 == packet
                },
            },
    {
        let downgraded = result.downgraded;
        let buffer_size = result.buffer_size;
        let (extensions, extra) = result.kind.into_parts();
        let mux = inner::MuxInner::new(role, buffer_size, &extensions);
        (Multiplexor { role, downgraded, supported_extensions: extensions }, mux, extra)
    }

    /// Whether the connection was downgraded to Wisp v1.
    pub fn was_downgraded(&self) -> (r: bool)
        ensures
            r == self.downgraded,
    {
        self.downgraded
    }

    /// The extensions both sides support.
    pub fn get_extensions(&self) -> (r: &Vec<AnyProtocolExtension>)
        ensures
            r == &self.supported_extensions,
    {
        &self.supported_extensions
    }

    /// The ids of the extensions both sides support.
    pub fn get_extension_ids(&self) -> (r: Vec<u8>)
        ensures
            r@ == ext_ids(extensions_view(self.supported_extensions@)),
    {
        let ghost exts = extensions_view(self.supported_extensions@);
        let mut ids: Vec<u8> = Vec::new();
        let mut i: usize = 0;
        while i < self.supported_extensions.len()
            invariant
                0 <= i <= self.supported_extensions@.len(),
                exts == extensions_view(self.supported_extensions@),
                ids@ == ext_ids(exts).take(i as int),
            decreases self.supported_extensions@.len() - i,
        {
            let ghost prev = ids@;
            ids.push(self.supported_extensions[i].get_id());
            assert(ids@ =~= ext_ids(exts).take(i + 1));
            i += 1;
        }
        assert(ext_ids(exts).take(i as int) =~= ext_ids(exts));
        ids
    }

    /// Whether the client may open a stream of this type: UDP streams need
    /// the UDP extension.
    pub fn check_new_stream(&self, stream_type: StreamType) -> (r: Result<(), WispError>)
        ensures
            (stream_type == StreamType::Udp && !ext_ids(
                extensions_view(self.supported_extensions@),
            ).contains(UDP_PROTOCOL_EXTENSION_ID)) ==> (r matches Err(
                WispError::ExtensionsNotSupported(v),
            ) && v@ == seq![UDP_PROTOCOL_EXTENSION_ID]),
            !(stream_type == StreamType::Udp && !ext_ids(
                extensions_view(self.supported_extensions@),
            ).contains(UDP_PROTOCOL_EXTENSION_ID)) ==> r is Ok,
    {
        if stream_type == StreamType::Udp && !has_extension_id(
            &self.supported_extensions,
            UDP_PROTOCOL_EXTENSION_ID,
        ) {
            let mut v: Vec<u8> = Vec::new();
            v.push(UDP_PROTOCOL_EXTENSION_ID);
            assert(v@ =~= seq![UDP_PROTOCOL_EXTENSION_ID]);
            return Err(WispError::ExtensionsNotSupported(v));
        }
        Ok(())
    }
}

} // verus!
