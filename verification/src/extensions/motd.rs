//! MOTD protocol extension: the server sends a message of the day.
use vstd::prelude::*;
use vstd::utf8::*;

use crate::error::{ExtensionImplError, WispError};
use crate::text::{string_as_bytes, string_from_utf8};
use crate::Role;

verus! {

/// MOTD protocol extension ID.
pub const MOTD_PROTOCOL_EXTENSION_ID: u8 = 0x04;

/// MOTD protocol extension.
#[derive(Clone, Debug)]
pub struct MotdProtocolExtension {
    /// The side this extension was built for.
    pub role: Role,
    /// MOTD from server, or an empty string.
    pub motd: String,
}

/// MOTD protocol extension builder.
#[derive(Clone, Debug)]
pub enum MotdProtocolExtensionBuilder {
    /// Server variant of MOTD protocol extension builder. Has the MOTD.
    Server(String),
    /// Client variant of MOTD protocol extension builder.
    Client,
}

/// The abstract content of a MOTD extension.
pub struct MotdSpec {
    pub role: Role,
    pub motd: Seq<char>,
}

/// The abstract content of a MOTD extension builder: the MOTD on the server.
pub enum MotdBuilderSpec {
    Server(Seq<char>),
    Client,
}

impl View for MotdProtocolExtension {
    type V = MotdSpec;

    open spec fn view(&self) -> MotdSpec {
        MotdSpec { role: self.role, motd: self.motd@ }
    }
}

impl View for MotdProtocolExtensionBuilder {
    type V = MotdBuilderSpec;

    open spec fn view(&self) -> MotdBuilderSpec {
        match self {
            MotdProtocolExtensionBuilder::Server(m) => MotdBuilderSpec::Server(m@),
            MotdProtocolExtensionBuilder::Client => MotdBuilderSpec::Client,
        }
    }
}

impl MotdSpec {
    /// The server sends its MOTD; the client sends nothing.
    pub open spec fn spec_encode(self) -> Seq<u8> {
        match self.role {
            Role::Server => encode_utf8(self.motd),
            Role::Client => seq![],
        }
    }
}

/// What building a MOTD extension from the peer's bytes yields: a client
/// reads the MOTD, a server ignores the bytes.
pub open spec fn spec_motd_from_bytes(data: Seq<u8>, role: Role) -> Result<MotdSpec, WispError> {
    match role {
        Role::Client => if valid_utf8(data) {
            Ok(MotdSpec { role, motd: decode_utf8(data) })
        } else {
            Err(WispError::ExtensionImplError(ExtensionImplError::InvalidUtf8))
        },
        Role::Server => Ok(MotdSpec { role, motd: seq![] }),
    }
}

/// The MOTD a server announces is the MOTD its client reads.
pub proof fn lemma_motd_delivered(motd: Seq<char>)
    ensures
        spec_motd_from_bytes(
            spec_motd_to_extension(MotdBuilderSpec::Server(motd), Role::Server).spec_encode(),
            Role::Client,
        ) == Ok::<MotdSpec, WispError>(MotdSpec { role: Role::Client, motd }),
{
    encode_utf8_decode_utf8(motd);
    encode_utf8_valid_utf8(motd);
}

/// What building the local MOTD extension yields.
pub open spec fn spec_motd_to_extension(b: MotdBuilderSpec, role: Role) -> MotdSpec {
    match b {
        MotdBuilderSpec::Server(m) => MotdSpec { role, motd: m },
        MotdBuilderSpec::Client => MotdSpec { role, motd: seq![] },
    }
}

impl MotdProtocolExtension {
    /// MOTD protocol extension ID.
    pub fn id() -> (r: u8)
        ensures
            r == MOTD_PROTOCOL_EXTENSION_ID,
    {
        MOTD_PROTOCOL_EXTENSION_ID
    }

    /// The role this extension was built for.
    pub fn role(&self) -> (r: Role)
        ensures
            r == self.role,
    {
        self.role
    }

    pub fn encode(&self) -> (r: Vec<u8>)
        ensures
            r@ == self@.spec_encode(),
    {
        match self.role {
            Role::Server => vstd::slice::slice_to_vec(string_as_bytes(&self.motd)),
            Role::Client => Vec::new(),
        }
    }
}

impl MotdProtocolExtensionBuilder {
    /// Create a new server variant of the MOTD protocol extension builder.
    pub fn new_server(motd: String) -> (r: Self)
        ensures
            r@ == MotdBuilderSpec::Server(motd@),
    {
        MotdProtocolExtensionBuilder::Server(motd)
    }

    /// Create a new client variant of the MOTD protocol extension builder.
    pub fn new_client() -> (r: Self)
        ensures
            r@ == MotdBuilderSpec::Client,
    {
        MotdProtocolExtensionBuilder::Client
    }

    pub fn build_from_bytes(&self, data: &[u8], role: Role) -> (r: Result<
        MotdProtocolExtension,
        WispError,
    >)
        ensures
            r matches Ok(e) ==> spec_motd_from_bytes(data@, role) == Ok::<MotdSpec, WispError>(e@),
            r matches Err(e) ==> spec_motd_from_bytes(data@, role) == Err::<MotdSpec, WispError>(e),
    {
        match role {
            Role::Client => match string_from_utf8(vstd::slice::slice_to_vec(data)) {
                Some(motd) => Ok(MotdProtocolExtension { role, motd }),
                None => Err(WispError::ExtensionImplError(ExtensionImplError::InvalidUtf8)),
            },
            Role::Server => Ok(MotdProtocolExtension { role, motd: String::new() }),
        }
    }

    pub fn build_to_extension(&self, role: Role) -> (r: MotdProtocolExtension)
        ensures
            r@ == spec_motd_to_extension(self@, role),
    {
        match self {
            MotdProtocolExtensionBuilder::Server(motd) => MotdProtocolExtension {
                role,
                motd: motd.clone(),
            },
            MotdProtocolExtensionBuilder::Client => MotdProtocolExtension {
                role,
                motd: String::new(),
            },
        }
    }
}

impl MotdProtocolExtensionBuilder {
    /// An independent copy of this builder.
    pub fn duplicate(&self) -> (r: Self)
        ensures
            r@ == self@,
    {
        match self {
            MotdProtocolExtensionBuilder::Server(m) => MotdProtocolExtensionBuilder::Server(
                m.clone(),
            ),
            MotdProtocolExtensionBuilder::Client => MotdProtocolExtensionBuilder::Client,
        }
    }
}

} // verus!
