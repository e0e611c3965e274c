//! Errors of the Wisp protocol implementation.
use vstd::prelude::*;

use crate::packet::WispVersion;

verus! {

/// Why a protocol extension implementation failed.
#[derive(Clone, Debug)]
pub enum ExtensionImplError {
    /// The extension payload was not valid UTF-8.
    InvalidUtf8,
    /// The ED25519 implementation refused a signature or a key.
    Ed25519,
    /// No random bytes could be obtained.
    Getrandom,
    /// Any other failure, with its message.
    Other(String),
}

/// Everything that can go wrong while speaking Wisp.
#[derive(Clone, Debug)]
pub enum WispError {
    /// Stream ID was invalid.
    InvalidStreamId(u32),
    /// Packet type was invalid.
    InvalidPacketType(u8),
    /// Packet was too small.
    PacketTooSmall,
    /// The Wisp protocol version was incompatible: found, then needed.
    IncompatibleProtocolVersion(WispVersion, WispVersion),
    /// The stream was closed already.
    StreamAlreadyClosed,
    /// The max stream count was reached.
    MaxStreamCountReached,
    /// Failed to parse bytes as UTF-8.
    Utf8,
    /// Integer conversion error.
    TryFromIntError,
    /// Failed to send message to multiplexor task.
    MuxMessageFailedToSend,
    /// Failed to receive message from multiplexor task.
    MuxMessageFailedToRecv,
    /// Multiplexor task ended.
    MuxTaskEnded,
    /// Multiplexor task already started.
    MuxTaskStarted,
    /// The handshake did not finish in time.
    HandshakeTimedOut,
    /// Error specific to the websocket implementation, with its message.
    WsImplError(String),
    /// Websocket implementation: websocket closed.
    WsImplSocketClosed,
    /// Error specific to the protocol extension implementation.
    ExtensionImplError(ExtensionImplError),
    /// The protocol extension implementation did not support the action.
    ExtensionImplNotSupported,
    /// The specified protocol extensions are not supported by the other side.
    ExtensionsNotSupported(Vec<u8>),
    /// The password authentication username/password was invalid.
    PasswordExtensionCredsInvalid,
    /// No password authentication username/password was provided.
    PasswordExtensionNoCreds,
    /// The certificate authentication certificate type was unsupported.
    CertAuthExtensionCertTypeInvalid,
    /// The certificate authentication signature was invalid.
    CertAuthExtensionSigInvalid,
    /// No certificate authentication signing key was provided.
    CertAuthExtensionNoKey,
}

} // verus!
