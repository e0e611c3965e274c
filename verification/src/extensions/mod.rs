//! Wisp protocol extensions.
//!
//! An extension is announced in an INFO packet as a record: its id, the
//! little-endian length of its payload, and the payload. Builders turn the
//! peer's records into extensions and produce the records announced locally.
pub mod cert;
pub mod motd;
pub mod password;
pub mod udp;

use vstd::prelude::*;

use crate::error::WispError;
use crate::wire::{put_u32_le, u32_le_bytes};
use crate::Role;

use cert::{
    spec_cert_answer, spec_cert_from_bytes, spec_cert_issue_challenge, CertAuthBuilderSpec,
    CertAuthProtocolExtension, CertAuthProtocolExtensionBuilder, CertAuthSpec,
    CERT_AUTH_PROTOCOL_EXTENSION_ID, CHALLENGE_LENGTH,
};
use motd::{
    spec_motd_from_bytes, spec_motd_to_extension, MotdBuilderSpec, MotdProtocolExtension,
    MotdProtocolExtensionBuilder, MotdSpec, MOTD_PROTOCOL_EXTENSION_ID,
};
use password::{
    spec_password_from_bytes, spec_password_to_extension, PasswordBuilderSpec,
    PasswordProtocolExtension, PasswordProtocolExtensionBuilder, PasswordSpec,
    PASSWORD_PROTOCOL_EXTENSION_ID,
};
use udp::{UdpProtocolExtension, UdpProtocolExtensionBuilder, UDP_PROTOCOL_EXTENSION_ID};

verus! {

/// An extension implemented outside this crate, carried as the record it
/// announces and the packet and stream types it claims.
#[derive(Clone, Debug)]
pub struct CustomProtocolExtension {
    pub id: u8,
    pub payload: Vec<u8>,
    pub supported_packets: Vec<u8>,
    pub congestion_stream_types: Vec<u8>,
}

/// Any protocol extension.
#[derive(Clone, Debug)]
pub enum AnyProtocolExtension {
    Udp(UdpProtocolExtension),
    Motd(MotdProtocolExtension),
    Password(PasswordProtocolExtension),
    Cert(CertAuthProtocolExtension),
    Custom(CustomProtocolExtension),
}

/// Any protocol extension builder implemented in this crate.
#[derive(Debug)]
pub enum AnyProtocolExtensionBuilder {
    Udp(UdpProtocolExtensionBuilder),
    Motd(MotdProtocolExtensionBuilder),
    Password(PasswordProtocolExtensionBuilder),
    Cert(CertAuthProtocolExtensionBuilder),
}

/// The abstract content of an extension.
pub enum AnyExtensionSpec {
    Udp,
    Motd(MotdSpec),
    Password(PasswordSpec),
    Cert(CertAuthSpec),
    Custom {
        id: u8,
        payload: Seq<u8>,
        supported_packets: Seq<u8>,
        congestion_stream_types: Seq<u8>,
    },
}

/// The abstract content of a builder.
pub enum AnyBuilderSpec {
    Udp,
    Motd(MotdBuilderSpec),
    Password(PasswordBuilderSpec),
    Cert(CertAuthBuilderSpec),
}

impl View for AnyProtocolExtension {
    type V = AnyExtensionSpec;

    open spec fn view(&self) -> AnyExtensionSpec {
        match self {
            AnyProtocolExtension::Udp(_) => AnyExtensionSpec::Udp,
            AnyProtocolExtension::Motd(m) => AnyExtensionSpec::Motd(m@),
            AnyProtocolExtension::Password(p) => AnyExtensionSpec::Password(p@),
            AnyProtocolExtension::Cert(c) => AnyExtensionSpec::Cert(c@),
            AnyProtocolExtension::Custom(c) => AnyExtensionSpec::Custom {
                id: c.id,
                payload: c.payload@,
                supported_packets: c.supported_packets@,
                congestion_stream_types: c.congestion_stream_types@,
            },
        }
    }
}

impl View for AnyProtocolExtensionBuilder {
    type V = AnyBuilderSpec;

    open spec fn view(&self) -> AnyBuilderSpec {
        match self {
            AnyProtocolExtensionBuilder::Udp(_) => AnyBuilderSpec::Udp,
            AnyProtocolExtensionBuilder::Motd(m) => AnyBuilderSpec::Motd(m@),
            AnyProtocolExtensionBuilder::Password(p) => AnyBuilderSpec::Password(p@),
            AnyProtocolExtensionBuilder::Cert(c) => AnyBuilderSpec::Cert(c@),
        }
    }
}

/// The views of a list of extensions.
pub open spec fn extensions_view(v: Seq<AnyProtocolExtension>) -> Seq<AnyExtensionSpec> {
    v.map_values(|e: AnyProtocolExtension| e@)
}

/// The views of a list of builders.
pub open spec fn builders_view(v: Seq<AnyProtocolExtensionBuilder>) -> Seq<AnyBuilderSpec> {
    v.map_values(|b: AnyProtocolExtensionBuilder| b@)
}

/// One extension record as announced: its id and its payload.
pub open spec fn spec_record(id: u8, payload: Seq<u8>) -> Seq<u8> {
    seq![id] + u32_le_bytes(payload.len() as u32) + payload
}

impl AnyExtensionSpec {
    pub open spec fn id(self) -> u8 {
        match self {
            AnyExtensionSpec::Udp => UDP_PROTOCOL_EXTENSION_ID,
            AnyExtensionSpec::Motd(_) => MOTD_PROTOCOL_EXTENSION_ID,
            AnyExtensionSpec::Password(_) => PASSWORD_PROTOCOL_EXTENSION_ID,
            AnyExtensionSpec::Cert(_) => CERT_AUTH_PROTOCOL_EXTENSION_ID,
            AnyExtensionSpec::Custom { id, .. } => id,
        }
    }

    /// The payload the extension announces.
    pub open spec fn spec_encode(self) -> Seq<u8> {
        match self {
            AnyExtensionSpec::Udp => seq![],
            AnyExtensionSpec::Motd(m) => m.spec_encode(),
            AnyExtensionSpec::Password(p) => p.spec_encode(),
            AnyExtensionSpec::Cert(c) => c.spec_encode(),
            AnyExtensionSpec::Custom { payload, .. } => payload,
        }
    }

    /// The payload can be produced and its length fits the record's length field.
    pub open spec fn encodable(self) -> bool {
        &&& self.payload_encodable()
        &&& self.spec_encode().len() <= u32::MAX
    }

    /// The payload can be produced.
    pub open spec fn payload_encodable(self) -> bool {
        match self {
            AnyExtensionSpec::Password(p) => p.encodable(),
            _ => true,
        }
    }

    /// The record announcing this extension.
    pub open spec fn spec_record(self) -> Seq<u8> {
        spec_record(self.id(), self.spec_encode())
    }

    /// Packet types the extension handles itself.
    pub open spec fn supported_packets(self) -> Seq<u8> {
        match self {
            AnyExtensionSpec::Custom { supported_packets, .. } => supported_packets,
            _ => seq![],
        }
    }

    /// Stream types that get flow control because of this extension.
    pub open spec fn congestion_stream_types(self) -> Seq<u8> {
        match self {
            AnyExtensionSpec::Custom { congestion_stream_types, .. } => congestion_stream_types,
            _ => seq![],
        }
    }
}

impl AnyBuilderSpec {
    pub open spec fn id(self) -> u8 {
        match self {
            AnyBuilderSpec::Udp => UDP_PROTOCOL_EXTENSION_ID,
            AnyBuilderSpec::Motd(_) => MOTD_PROTOCOL_EXTENSION_ID,
            AnyBuilderSpec::Password(_) => PASSWORD_PROTOCOL_EXTENSION_ID,
            AnyBuilderSpec::Cert(_) => CERT_AUTH_PROTOCOL_EXTENSION_ID,
        }
    }

    /// The peer's bytes can be fed to this builder without running off their end.
    pub open spec fn accepts(self, data: Seq<u8>) -> bool {
        match self {
            AnyBuilderSpec::Password(p) => p.accepts(data),
            AnyBuilderSpec::Cert(c) => c.accepts(data),
            _ => true,
        }
    }

    /// The builder's invariant.
    pub open spec fn wf(self) -> bool {
        match self {
            AnyBuilderSpec::Password(p) => p.wf(),
            _ => true,
        }
    }

    /// What feeding the peer's bytes does: the builder after, and the result.
    pub open spec fn from_bytes(self, data: Seq<u8>, role: Role) -> (
        AnyBuilderSpec,
        Result<AnyExtensionSpec, WispError>,
    ) {
        match self {
            AnyBuilderSpec::Udp => (self, Ok(AnyExtensionSpec::Udp)),
            AnyBuilderSpec::Motd(_) => (
                self,
                match spec_motd_from_bytes(data, role) {
                    Ok(m) => Ok(AnyExtensionSpec::Motd(m)),
                    Err(e) => Err(e),
                },
            ),
            AnyBuilderSpec::Password(p) => {
                let (np, r) = spec_password_from_bytes(p, data);
                (
                    AnyBuilderSpec::Password(np),
                    match r {
                        Ok(x) => Ok(AnyExtensionSpec::Password(x)),
                        Err(e) => Err(e),
                    },
                )
            },
            AnyBuilderSpec::Cert(c) => {
                let (nc, r) = spec_cert_from_bytes(c, data);
                (
                    AnyBuilderSpec::Cert(nc),
                    match r {
                        Ok(x) => Ok(AnyExtensionSpec::Cert(x)),
                        Err(e) => Err(e),
                    },
                )
            },
        }
    }

    /// Building the local extension may take the builder from `self` to
    /// `next` and give `r`. It is a relation only because the certificate
    /// server draws a random challenge.
    pub open spec fn to_extension(
        self,
        role: Role,
        next: AnyBuilderSpec,
        r: Result<AnyExtensionSpec, WispError>,
    ) -> bool {
        match self {
            AnyBuilderSpec::Udp => next == self && r == Ok::<AnyExtensionSpec, WispError>(
                AnyExtensionSpec::Udp,
            ),
            AnyBuilderSpec::Motd(m) => next == self && r == Ok::<AnyExtensionSpec, WispError>(
                AnyExtensionSpec::Motd(spec_motd_to_extension(m, role)),
            ),
            AnyBuilderSpec::Password(p) => next == self && r == match spec_password_to_extension(
                p,
            ) {
                Ok(x) => Ok(AnyExtensionSpec::Password(x)),
                Err(e) => Err(e),
            },
            AnyBuilderSpec::Cert(c) => match c {
                CertAuthBuilderSpec::ServerBeforeChallenge { .. } => match r {
                    Ok(e) => exists|ch: Seq<u8>|
                        {
                            &&& ch.len() == CHALLENGE_LENGTH
                            &&& next == AnyBuilderSpec::Cert(
                                #[trigger] spec_cert_issue_challenge(c, ch).0,
                            )
                            &&& spec_cert_issue_challenge(c, ch).1 == Ok::<
                                CertAuthSpec,
                                WispError,
                            >(spec_cert_issue_challenge(c, ch).1->Ok_0)
                            &&& e == AnyExtensionSpec::Cert(spec_cert_issue_challenge(c, ch).1->Ok_0)
                        },
                    Err(e) => next == self && e == WispError::ExtensionImplError(
                        crate::error::ExtensionImplError::Getrandom,
                    ),
                },
                _ => next == self && r == match spec_cert_answer(c) {
                    Ok(x) => Ok(AnyExtensionSpec::Cert(x)),
                    Err(e) => Err(e),
                },
            },
        }
    }
}

impl AnyProtocolExtension {
    pub fn get_id(&self) -> (r: u8)
        ensures
            r == self@.id(),
    {
        match self {
            AnyProtocolExtension::Udp(_) => UDP_PROTOCOL_EXTENSION_ID,
            AnyProtocolExtension::Motd(_) => MOTD_PROTOCOL_EXTENSION_ID,
            AnyProtocolExtension::Password(_) => PASSWORD_PROTOCOL_EXTENSION_ID,
            AnyProtocolExtension::Cert(_) => CERT_AUTH_PROTOCOL_EXTENSION_ID,
            AnyProtocolExtension::Custom(c) => c.id,
        }
    }

    /// The payload this extension announces.
    pub fn encode(&self) -> (r: Vec<u8>)
        requires
            self@.payload_encodable(),
        ensures
            r@ == self@.spec_encode(),
    {
        match self {
            AnyProtocolExtension::Udp(_) => Vec::new(),
            AnyProtocolExtension::Motd(m) => m.encode(),
            AnyProtocolExtension::Password(p) => p.encode(),
            AnyProtocolExtension::Cert(c) => c.encode(),
            AnyProtocolExtension::Custom(c) => c.payload.clone(),
        }
    }

    /// Appends the record announcing this extension.
    pub fn encode_into(&self, out: &mut Vec<u8>)
        requires
            self@.encodable(),
        ensures
            final(out)@ == old(out)@ + self@.spec_record(),
    {
        let payload = self.encode();
        out.push(self.get_id());
        put_u32_le(out, payload.len() as u32);
        out.extend_from_slice(payload.as_slice());
        assert(final(out)@ =~= old(out)@ + self@.spec_record());
    }

    /// Whether the record announcing this extension can be written.
    pub fn is_encodable(&self) -> (r: bool)
        ensures
            r == self@.encodable(),
    {
        match self {
            AnyProtocolExtension::Password(p) => {
                if !p.is_encodable() {
                    return false;
                }
            },
            _ => {},
        }
        let payload = self.encode();
        payload.len() as u64 <= u32::MAX as u64
    }

    /// Packet types this extension handles itself.
    pub fn get_supported_packets(&self) -> (r: Vec<u8>)
        ensures
            r@ == self@.supported_packets(),
    {
        match self {
            AnyProtocolExtension::Custom(c) => c.supported_packets.clone(),
            _ => Vec::new(),
        }
    }

    /// Stream types that get flow control because of this extension.
    pub fn get_congestion_stream_types(&self) -> (r: Vec<u8>)
        ensures
            r@ == self@.congestion_stream_types(),
    {
        match self {
            AnyProtocolExtension::Custom(c) => c.congestion_stream_types.clone(),
            _ => Vec::new(),
        }
    }
}

impl AnyProtocolExtensionBuilder {
    pub fn get_id(&self) -> (r: u8)
        ensures
            r == self@.id(),
    {
        match self {
            AnyProtocolExtensionBuilder::Udp(_) => UDP_PROTOCOL_EXTENSION_ID,
            AnyProtocolExtensionBuilder::Motd(_) => MOTD_PROTOCOL_EXTENSION_ID,
            AnyProtocolExtensionBuilder::Password(_) => PASSWORD_PROTOCOL_EXTENSION_ID,
            AnyProtocolExtensionBuilder::Cert(_) => CERT_AUTH_PROTOCOL_EXTENSION_ID,
        }
    }

    /// Whether the peer's bytes can be fed to this builder.
    pub fn accepts(&self, data: &[u8]) -> (r: bool)
        ensures
            r == self@.accepts(data@),
    {
        match self {
            AnyProtocolExtensionBuilder::Password(p) => match p {
                PasswordProtocolExtensionBuilder::ServerBeforeClientInfo { .. } => data.len() >= 1
                    && (data[0] as usize) <= data.len() - 1,
                PasswordProtocolExtensionBuilder::ClientBeforeServerInfo { .. } => data.len()
                    >= 1,
                _ => true,
            },
            AnyProtocolExtensionBuilder::Cert(c) => match c {
                CertAuthProtocolExtensionBuilder::ServerAfterChallenge { .. } => data.len() >= 1
                    + cert::KEY_HASH_LENGTH,
                CertAuthProtocolExtensionBuilder::ClientBeforeChallenge { .. } => data.len() >= 2,
                _ => true,
            },
            _ => true,
        }
    }

    /// Builds the extension the peer announced from its payload.
    pub fn build_from_bytes(&mut self, data: &[u8], role: Role) -> (r: Result<
        AnyProtocolExtension,
        WispError,
    >)
        requires
            old(self)@.accepts(data@),
        ensures
            final(self)@ == old(self)@.from_bytes(data@, role).0,
            r matches Ok(e) ==> old(self)@.from_bytes(data@, role).1 == Ok::<
                AnyExtensionSpec,
                WispError,
            >(e@),
            r matches Err(e) ==> old(self)@.from_bytes(data@, role).1 == Err::<
                AnyExtensionSpec,
                WispError,
            >(e),
    {
        match self {
            AnyProtocolExtensionBuilder::Udp(_) => Ok(
                AnyProtocolExtension::Udp(UdpProtocolExtension),
            ),
            AnyProtocolExtensionBuilder::Motd(m) => match m.build_from_bytes(data, role) {
                Ok(x) => Ok(AnyProtocolExtension::Motd(x)),
                Err(e) => Err(e),
            },
            AnyProtocolExtensionBuilder::Password(p) => match p.build_from_bytes(data) {
                Ok(x) => Ok(AnyProtocolExtension::Password(x)),
                Err(e) => Err(e),
            },
            AnyProtocolExtensionBuilder::Cert(c) => match c.build_from_bytes(data) {
                Ok(x) => Ok(AnyProtocolExtension::Cert(x)),
                Err(e) => Err(e),
            },
        }
    }

    /// Builds the local extension to announce to the peer.
    pub fn build_to_extension(&mut self, role: Role) -> (r: Result<
        AnyProtocolExtension,
        WispError,
    >)
        ensures
            old(self)@.to_extension(
                role,
                final(self)@,
                match r {
                    Ok(e) => Ok(e@),
                    Err(e) => Err(e),
                },
            ),
    {
        match self {
            AnyProtocolExtensionBuilder::Udp(_) => Ok(
                AnyProtocolExtension::Udp(UdpProtocolExtension),
            ),
            AnyProtocolExtensionBuilder::Motd(m) => Ok(
                AnyProtocolExtension::Motd(m.build_to_extension(role)),
            ),
            AnyProtocolExtensionBuilder::Password(p) => match p.build_to_extension() {
                Ok(x) => Ok(AnyProtocolExtension::Password(x)),
                Err(e) => Err(e),
            },
            AnyProtocolExtensionBuilder::Cert(c) => match c.build_to_extension() {
                Ok(x) => Ok(AnyProtocolExtension::Cert(x)),
                Err(e) => Err(e),
            },
        }
    }
}

impl AnyProtocolExtensionBuilder {
    /// An independent copy of this builder.
    pub fn duplicate(&self) -> (r: AnyProtocolExtensionBuilder)
        ensures
            r@ == self@,
    {
        match self {
            AnyProtocolExtensionBuilder::Udp(_) => AnyProtocolExtensionBuilder::Udp(
                UdpProtocolExtensionBuilder,
            ),
            AnyProtocolExtensionBuilder::Motd(m) => AnyProtocolExtensionBuilder::Motd(
                m.duplicate(),
            ),
            AnyProtocolExtensionBuilder::Password(p) => AnyProtocolExtensionBuilder::Password(
                p.duplicate(),
            ),
            AnyProtocolExtensionBuilder::Cert(c) => AnyProtocolExtensionBuilder::Cert(
                c.duplicate(),
            ),
        }
    }
}

} // verus!
