//! Translating between the events a page writes and reads on a websocket
//! and the frames on the wire.
use vstd::prelude::*;
use vstd::utf8::*;

use crate::text::{string_as_bytes, string_from_utf8};

verus! {

broadcast use vstd::utf8::group_utf8_lib;

/// What the page asks to send.
#[derive(Clone, Debug)]
pub enum WsWriteEv {
    Text(String),
    Binary(Vec<u8>),
    Close { code: Option<u16>, reason: Option<String> },
}

/// An event the page writes.
#[derive(Clone, Debug)]
pub struct WsWriteEvent(pub WsWriteEv);

impl WsWriteEvent {
    pub fn text(data: String) -> (r: Self)
        ensures
            r.0 == WsWriteEv::Text(data),
    {
        WsWriteEvent(WsWriteEv::Text(data))
    }

    pub fn binary(data: Vec<u8>) -> (r: Self)
        ensures
            r.0 == WsWriteEv::Binary(data),
    {
        WsWriteEvent(WsWriteEv::Binary(data))
    }

    pub fn close(code: Option<u16>, reason: Option<String>) -> (r: Self)
        ensures
            r.0 == (WsWriteEv::Close { code, reason }),
    {
        WsWriteEvent(WsWriteEv::Close { code, reason })
    }
}

/// Websocket frame types.
#[derive(Clone, Copy, Debug, PartialEq, Eq, Structural)]
pub enum WsOpcode {
    Continuation,
    Text,
    Binary,
    Close,
    Ping,
    Pong,
}

/// A frame: its type and payload.
#[derive(Clone, Debug)]
pub struct WsFrame {
    pub opcode: WsOpcode,
    pub payload: Vec<u8>,
}

/// The two bytes of a close code, most significant first.
pub open spec fn be_u16_bytes(v: u16) -> Seq<u8> {
    seq![(v / 256) as u8, (v % 256) as u8]
}

/// The frame an event becomes: text as its UTF-8 bytes, a close with
/// neither code nor reason as an empty close frame, any other close as its
/// code (1000 when none is given) followed by its reason.
pub open spec fn spec_write_frame(ev: WsWriteEv) -> (WsOpcode, Seq<u8>) {
    match ev {
        WsWriteEv::Text(s) => (WsOpcode::Text, encode_utf8(s@)),
        WsWriteEv::Binary(b) => (WsOpcode::Binary, b@),
        WsWriteEv::Close { code, reason } => if code is None && reason is None {
            (WsOpcode::Close, seq![])
        } else {
            let c = match code {
                Some(c) => c,
                None => 1000u16,
            };
            let text = match reason {
                Some(r) => encode_utf8(r@),
                None => seq![],
            };
            (WsOpcode::Close, be_u16_bytes(c) + text)
        },
    }
}

/// The frame to send for an event the page wrote.
pub fn ws_write_event(event: WsWriteEvent) -> (r: WsFrame)
    ensures
        (r.opcode, r.payload@) == spec_write_frame(event.0),
{
    match event.0 {
        WsWriteEv::Text(data) => WsFrame {
            opcode: WsOpcode::Text,
            payload: vstd::slice::slice_to_vec(string_as_bytes(&data)),
        },
        WsWriteEv::Binary(data) => WsFrame { opcode: WsOpcode::Binary, payload: data },
        WsWriteEv::Close { code, reason } => {
            if code.is_none() && reason.is_none() {
                return WsFrame { opcode: WsOpcode::Close, payload: Vec::new() };
            }
            let c: u16 = match code {
                Some(c) => c,
                None => 1000,
            };
            let mut payload: Vec<u8> = Vec::new();
            payload.push((c / 256) as u8);
            payload.push((c % 256) as u8);
            match &reason {
                Some(r) => {
                    let mut b = vstd::slice::slice_to_vec(string_as_bytes(r));
                    payload.append(&mut b);
                },
                None => {},
            }
            let ghost ev = WsWriteEv::Close { code, reason };
            assert(payload@ =~= spec_write_frame(ev).1);
            WsFrame { opcode: WsOpcode::Close, payload }
        },
    }
}

/// An event the page reads.
#[derive(Clone, Debug)]
pub enum WsReadEvent {
    Text(String),
    Binary(Vec<u8>),
    Close { code: Option<u16>, reason: Option<String> },
}

/// Why a frame cannot be handed to the page.
#[derive(Clone, Copy, Debug, PartialEq, Eq, Structural)]
pub enum WsReadError {
    /// A text frame that is not UTF-8.
    InvalidText,
    /// A continuation frame where whole messages are expected.
    UnexpectedContinuation,
}

/// What `String::from_utf8_lossy` makes of the bytes: their text, with
/// every invalid sequence replaced by U+FFFD.
pub uninterp spec fn utf8_lossy(bytes: Seq<u8>) -> Seq<char>;

/// `String::from_utf8_lossy`: valid UTF-8 comes back as its text; what it
/// makes of invalid sequences is named, not stated.
#[verifier::external_body]
pub(crate) fn std_utf8_lossy(bytes: &[u8]) -> (r: String)
    ensures
        r@ == utf8_lossy(bytes@),
        valid_utf8(bytes@) ==> r@ == decode_utf8(bytes@),
{
    String::from_utf8_lossy(bytes).into_owned()
}

pub enum WsReadSpec {
    Text(Seq<char>),
    Binary(Seq<u8>),
    Close { code: Option<u16>, reason: Option<Seq<char>> },
}

impl View for WsReadEvent {
    type V = WsReadSpec;

    open spec fn view(&self) -> WsReadSpec {
        match self {
            WsReadEvent::Text(s) => WsReadSpec::Text(s@),
            WsReadEvent::Binary(b) => WsReadSpec::Binary(b@),
            WsReadEvent::Close { code, reason } => WsReadSpec::Close {
                code: *code,
                reason: match reason {
                    Some(r) => Some(r@),
                    None => None,
                },
            },
        }
    }
}

/// The event a received frame becomes: text (which must be UTF-8), binary,
/// or a close with the code in its first two bytes and the rest as its
/// reason; pings and pongs become nothing.
pub open spec fn spec_read_event(opcode: WsOpcode, payload: Seq<u8>) -> Result<
    Option<WsReadSpec>,
    WsReadError,
> {
    match opcode {
        WsOpcode::Text => if valid_utf8(payload) {
            Ok(Some(WsReadSpec::Text(decode_utf8(payload))))
        } else {
            Err(WsReadError::InvalidText)
        },
        WsOpcode::Binary => Ok(Some(WsReadSpec::Binary(payload))),
        WsOpcode::Close => if payload.len() >= 2 {
            Ok(
                Some(
                    WsReadSpec::Close {
                        code: Some((payload[0] as int * 256 + payload[1] as int) as u16),
                        reason: if payload.len() > 2 {
                            Some(utf8_lossy(payload.skip(2)))
                        } else {
                            None
                        },
                    },
                ),
            )
        } else {
            Ok(Some(WsReadSpec::Close { code: None, reason: None }))
        },
        WsOpcode::Ping | WsOpcode::Pong => Ok(None),
        WsOpcode::Continuation => Err(WsReadError::UnexpectedContinuation),
    }
}

/// A text event the page writes is read back, on the other side, as the
/// same text; a binary event as the same bytes.
pub proof fn lemma_text_binary_roundtrip(s: Seq<char>, b: Seq<u8>)
    ensures
        spec_read_event(WsOpcode::Text, encode_utf8(s)) == Ok::<Option<WsReadSpec>, WsReadError>(
            Some(WsReadSpec::Text(s)),
        ),
        spec_read_event(WsOpcode::Binary, b) == Ok::<Option<WsReadSpec>, WsReadError>(
            Some(WsReadSpec::Binary(b)),
        ),
{
    encode_utf8_decode_utf8(s);
}

/// A close event with a code is read back with that code.
pub proof fn lemma_close_code_roundtrip(code: u16, reason: Option<String>)
    ensures
        spec_read_event(
            WsOpcode::Close,
            spec_write_frame(WsWriteEv::Close { code: Some(code), reason }).1,
        ) matches Ok(Some(WsReadSpec::Close { code: c, .. })) && c == Some(code),
{
    let payload = spec_write_frame(WsWriteEv::Close { code: Some(code), reason }).1;
    assert(payload[0] == (code / 256) as u8);
    assert(payload[1] == (code % 256) as u8);
}

/// The event to hand the page for a received frame (see `spec_read_event`).
pub fn ws_read_event(opcode: WsOpcode, payload: Vec<u8>) -> (r: Result<
    Option<WsReadEvent>,
    WsReadError,
>)
    ensures
        match spec_read_event(opcode, payload@) {
            Ok(Some(e)) => r matches Ok(Some(x)) && x@ == e,
            Ok(None) => r matches Ok(None),
            Err(e) => r == Err::<Option<WsReadEvent>, WsReadError>(e),
        },
{
    match opcode {
        WsOpcode::Text => match string_from_utf8(payload) {
            Some(s) => Ok(Some(WsReadEvent::Text(s))),
            None => Err(WsReadError::InvalidText),
        },
        WsOpcode::Binary => Ok(Some(WsReadEvent::Binary(payload))),
        WsOpcode::Close => {
            if payload.len() >= 2 {
                let code = (payload[0] as u16) * 256 + (payload[1] as u16);
                let reason = if payload.len() > 2 {
                    let rest = vstd::slice::slice_subrange(payload.as_slice(), 2, payload.len());
                    assert(rest@ =~= payload@.skip(2));
                    Some(std_utf8_lossy(rest))
                } else {
                    None
                };
                Ok(Some(WsReadEvent::Close { code: Some(code), reason }))
            } else {
                Ok(Some(WsReadEvent::Close { code: None, reason: None }))
            }
        },
        WsOpcode::Ping | WsOpcode::Pong => Ok(None),
        WsOpcode::Continuation => Err(WsReadError::UnexpectedContinuation),
    }
}

} // verus!
