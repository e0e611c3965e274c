//! UDP protocol extension: announces that UDP streams are supported.
use vstd::prelude::*;

verus! {

/// UDP protocol extension.
#[derive(Copy, Clone, Debug, PartialEq, Eq, Structural)]
pub struct UdpProtocolExtension;

/// UDP protocol extension builder.
#[derive(Copy, Clone, Debug, PartialEq, Eq, Structural)]
pub struct UdpProtocolExtensionBuilder;

/// ID of the UDP protocol extension.
pub const UDP_PROTOCOL_EXTENSION_ID: u8 = 0x01;

impl UdpProtocolExtension {
    pub fn id() -> (r: u8)
        ensures
            r == UDP_PROTOCOL_EXTENSION_ID,
    {
        UDP_PROTOCOL_EXTENSION_ID
    }
}

} // verus!
