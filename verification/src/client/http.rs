//! HTTP-level decisions of the client: the websocket handshake, redirects,
//! and the status codes that carry no body.
use base64::Engine;

use vstd::prelude::*;
use vstd::utf8::*;

use crate::client::error::EpoxyError;
use crate::text::{
    chars_of, pieces_view, split_all, split_pieces, eq_ignore_ascii_case, is_http_space, str_eq_ignore_ascii_case, string_of_chars,
    trim_bounds, trim_by, trim_http_spaces,
};

verus! {

broadcast use vstd::utf8::group_utf8_lib;

// ---------------------------------------------------------------------------
// Header tokens
// ---------------------------------------------------------------------------
/// `s` with spaces and tabs trimmed from both ends.
pub open spec fn spec_trim_http(s: Seq<char>) -> Seq<char> {
    trim_by(s, |c: char| is_http_space(c))
}

/// A comma-separated header value holds the token (compared without
/// regard to ASCII case, ignoring spaces and tabs around it).
pub open spec fn spec_header_contains_token(value: Seq<char>, expected: Seq<char>) -> bool {
    exists|i: int|
        0 <= i < split_all(value, ',').len() && eq_ignore_ascii_case(
            spec_trim_http(#[trigger] split_all(value, ',')[i]),
            expected,
        )
}

/// Whether the comma-separated header value holds the token (see
/// `spec_header_contains_token`).
pub fn header_contains_token(value: &str, expected: &str) -> (r: bool)
    ensures
        r == spec_header_contains_token(value@, expected@),
{
    let cs = chars_of(value);
    let parts = split_pieces(&cs, ',');
    let ghost pv = pieces_view(parts@);
    let mut i: usize = 0;
    while i < parts.len()
        invariant
            0 <= i <= parts@.len(),
            pv == pieces_view(parts@),
            pv == split_all(value@, ','),
            forall|k: int|
                0 <= k < i ==> !eq_ignore_ascii_case(spec_trim_http(#[trigger] pv[k]), expected@),
        decreases parts@.len() - i,
    {
        let (a, b) = trim_bounds(&parts[i], Ghost(|c: char| is_http_space(c)), true);
        let piece = string_of_chars(vstd::slice::slice_subrange(parts[i].as_slice(), a, b));
        assert(pv[i as int] == parts@[i as int]@);
        if str_eq_ignore_ascii_case(piece.as_str(), expected) {
            return true;
        }
        i += 1;
    }
    false
}

// ---------------------------------------------------------------------------
// Sec-WebSocket-Accept
// ---------------------------------------------------------------------------
/// The GUID RFC 6455 appends to the key.
pub const SEC_WEBSOCKET_ACCEPT_GUID: &'static str = "258EAFA5-E914-47DA-95CA-C5AB0DC85B11";

/// The SHA-1 digest of the data.
pub uninterp spec fn sha1(data: Seq<u8>) -> Seq<u8>;

/// The standard (padded) base64 encoding of the data.
pub uninterp spec fn base64_encoded(data: Seq<u8>) -> Seq<char>;

/// `ring::digest::digest` with `SHA1_FOR_LEGACY_USE_ONLY`; the digest is
/// named, not stated.
#[verifier::external_body]
fn ring_sha1(data: &[u8]) -> (r: Vec<u8>)
    ensures
        r@ == sha1(data@),
{
    ring::digest::digest(&ring::digest::SHA1_FOR_LEGACY_USE_ONLY, data).as_ref().to_vec()
}

/// `base64::engine::general_purpose::STANDARD.encode`; the encoding is
/// named, not stated.
#[verifier::external_body]
fn base64_standard_encode(data: &[u8]) -> (r: String)
    ensures
        r@ == base64_encoded(data@),
{
    base64::engine::general_purpose::STANDARD.encode(data)
}

/// The `Sec-WebSocket-Accept` a server must answer a key with: the base64
/// of the SHA-1 of the key (without surrounding blanks) and the GUID.
pub open spec fn spec_websocket_accept_value(key: Seq<char>) -> Seq<char> {
    base64_encoded(sha1(encode_utf8(spec_trim_http(key)) + encode_utf8(SEC_WEBSOCKET_ACCEPT_GUID@)))
}

pub fn websocket_accept_value(key: &str) -> (r: String)
    ensures
        r@ == spec_websocket_accept_value(key@),
{
    let trimmed = trim_http_spaces(key);
    let mut bytes = vstd::slice::slice_to_vec(trimmed.as_str().as_bytes());
    let mut guid = vstd::slice::slice_to_vec(SEC_WEBSOCKET_ACCEPT_GUID.as_bytes());
    bytes.append(&mut guid);
    let digest = ring_sha1(bytes.as_slice());
    base64_standard_encode(digest.as_slice())
}

// ---------------------------------------------------------------------------
// Validating the upgrade
// ---------------------------------------------------------------------------
/// What the client reads of the server's answer to a websocket upgrade.
/// Header values are given only when they are visible ASCII.
pub struct UpgradeResponse {
    pub status: u16,
    pub connection: Option<String>,
    pub upgrade: Option<String>,
    pub has_extensions: bool,
    pub protocol: Option<String>,
    pub accept: Option<String>,
}

pub open spec fn opt_view(o: Option<String>) -> Option<Seq<char>> {
    match o {
        Some(s) => Some(s@),
        None => None,
    }
}

pub open spec fn opt_trim_http(o: Option<String>) -> Option<Seq<char>> {
    match o {
        Some(s) => Some(spec_trim_http(s@)),
        None => None,
    }
}

/// Why an upgrade fails, checked in this order: a status other than 101,
/// no `Connection: upgrade`, no `Upgrade: websocket`, any extension, a
/// protocol that was not asked for (or none when one was), and an accept
/// value other than the one the key calls for.
pub enum UpgradeFailure {
    Status(u16),
    MissingConnection,
    MissingUpgrade,
    UnexpectedExtensions,
    Protocol(Option<Seq<char>>),
    Accept(Option<Seq<char>>),
}

pub open spec fn spec_validate_upgrade(
    resp: &UpgradeResponse,
    protocols: Seq<Seq<char>>,
    expected_accept: Seq<char>,
) -> Option<UpgradeFailure> {
    let protocol = opt_trim_http(resp.protocol);
    let accept = opt_trim_http(resp.accept);
    if resp.status != 101 {
        Some(UpgradeFailure::Status(resp.status))
    } else if !(opt_view(resp.connection) matches Some(c) && spec_header_contains_token(
        c,
        "upgrade"@,
    )) {
        Some(UpgradeFailure::MissingConnection)
    } else if !(opt_view(resp.upgrade) matches Some(u) && spec_header_contains_token(
        u,
        "websocket"@,
    )) {
        Some(UpgradeFailure::MissingUpgrade)
    } else if resp.has_extensions {
        Some(UpgradeFailure::UnexpectedExtensions)
    } else if protocols.len() == 0 && protocol is Some {
        Some(UpgradeFailure::Protocol(protocol))
    } else if protocols.len() > 0 && !(protocol matches Some(p) && protocols.contains(p)) {
        Some(UpgradeFailure::Protocol(protocol))
    } else if !(accept == Some(expected_accept)) {
        Some(UpgradeFailure::Accept(accept))
    } else {
        None
    }
}

/// What an accepted upgrade has: status 101, and, after trimming spaces
/// and tabs, a protocol the client asked for when it asked for any (none
/// when it asked for none), and the accept value the key calls for.
pub open spec fn upgrade_accepted(
    resp: &UpgradeResponse,
    protocols: Seq<Seq<char>>,
    expected_accept: Seq<char>,
) -> bool {
    &&& resp.status == 101
    &&& (protocols.len() == 0 ==> resp.protocol is None)
    &&& (protocols.len() > 0 ==> (resp.protocol matches Some(p) && exists|k: int|
        0 <= k < protocols.len() && protocols[k] == spec_trim_http(p@)))
    &&& resp.accept matches Some(a) && spec_trim_http(a@) == expected_accept
}

/// An upgrade is accepted only with status 101, with a protocol among those
/// asked for (or none when none was asked for), and with the expected
/// accept value: a server that picks a protocol the client never offered
/// is refused.
pub proof fn lemma_upgrade_accepted(
    resp: &UpgradeResponse,
    protocols: Seq<Seq<char>>,
    expected_accept: Seq<char>,
)
    ensures
        spec_validate_upgrade(resp, protocols, expected_accept) is None ==> upgrade_accepted(
            resp,
            protocols,
            expected_accept,
        ),
{
    if spec_validate_upgrade(resp, protocols, expected_accept) is None && protocols.len() > 0 {
        let p = opt_trim_http(resp.protocol)->Some_0;
        assert(protocols.contains(p));
        let k = protocols.index_of(p);
        assert(protocols[k] == p);
    }
}

/// The error an upgrade failure is reported with.
pub open spec fn failure_matches(f: UpgradeFailure, e: EpoxyError) -> bool {
    match f {
        UpgradeFailure::Status(s) => e == EpoxyError::WsStatusCode(s),
        UpgradeFailure::MissingConnection => e == EpoxyError::WsMissingConnection,
        UpgradeFailure::MissingUpgrade => e == EpoxyError::WsMissingUpgrade,
        UpgradeFailure::UnexpectedExtensions => e == EpoxyError::WsUnexpectedExtensions,
        UpgradeFailure::Protocol(p) => e matches EpoxyError::WsProtocol(q) && opt_view(q) == p,
        UpgradeFailure::Accept(a) => e matches EpoxyError::WsAccept(q) && opt_view(q) == a,
    }
}

fn trim_opt(o: &Option<String>) -> (r: Option<String>)
    ensures
        opt_view(r) == opt_trim_http(*o),
{
    match o {
        Some(s) => Some(trim_http_spaces(s.as_str())),
        None => None,
    }
}

fn string_eq(a: &String, b: &String) -> (r: bool)
    ensures
        r == (a@ == b@),
{
    *a == *b
}

/// Checks the server's answer to a websocket upgrade (see
/// `spec_validate_upgrade`) against the protocols asked for and the accept
/// value the key calls for.
pub fn validate_ws_upgrade(
    resp: &UpgradeResponse,
    protocols: &Vec<String>,
    expected_accept: &String,
) -> (r: Result<(), EpoxyError>)
    ensures
        match spec_validate_upgrade(resp, protocols@.map_values(|p: String| p@), expected_accept@) {
            None => r is Ok,
            Some(f) => r matches Err(e) && failure_matches(f, e),
        },
        r is Ok ==> upgrade_accepted(resp, protocols@.map_values(|p: String| p@), expected_accept@),
{
    proof {
        lemma_upgrade_accepted(resp, protocols@.map_values(|p: String| p@), expected_accept@);
    }
    let ghost pv = protocols@.map_values(|p: String| p@);
    if resp.status != 101 {
        return Err(EpoxyError::WsStatusCode(resp.status));
    }
    let upgrade_token = "upgrade";
    let websocket_token = "websocket";
    let connection_ok = match &resp.connection {
        Some(c) => header_contains_token(c.as_str(), upgrade_token),
        None => false,
    };
    if !connection_ok {
        return Err(EpoxyError::WsMissingConnection);
    }
    let upgrade_ok = match &resp.upgrade {
        Some(u) => header_contains_token(u.as_str(), websocket_token),
        None => false,
    };
    if !upgrade_ok {
        return Err(EpoxyError::WsMissingUpgrade);
    }
    if resp.has_extensions {
        return Err(EpoxyError::WsUnexpectedExtensions);
    }
    let protocol = trim_opt(&resp.protocol);
    if protocols.len() == 0 {
        if protocol.is_some() {
            return Err(EpoxyError::WsProtocol(protocol));
        }
    } else {
        let found = match &protocol {
            Some(p) => {
                let mut i: usize = 0;
                let mut hit = false;
                while i < protocols.len()
                    invariant
                        0 <= i <= protocols@.len(),
                        pv == protocols@.map_values(|p: String| p@),
                        hit == exists|k: int| 0 <= k < i && pv[k] == p@,
                    decreases protocols@.len() - i,
                {
                    if string_eq(&protocols[i], p) {
                        hit = true;
                    }
                    assert(pv[i as int] == protocols@[i as int]@);
                    i += 1;
                }
                hit
            },
            None => false,
        };
        if !found {
            return Err(EpoxyError::WsProtocol(protocol));
        }
    }
    let accept = trim_opt(&resp.accept);
    let accept_ok = match &accept {
        Some(a) => string_eq(a, expected_accept),
        None => false,
    };
    if !accept_ok {
        return Err(EpoxyError::WsAccept(accept));
    }
    Ok(())
}

/// The `Sec-WebSocket-Protocol` the client asks for: the protocols joined
/// by `, `, or none.
pub open spec fn spec_join_protocols(protocols: Seq<Seq<char>>) -> Seq<char>
    decreases protocols.len(),
{
    if protocols.len() == 0 {
        seq![]
    } else if protocols.len() == 1 {
        protocols[0]
    } else {
        spec_join_protocols(protocols.drop_last()) + seq![',', ' '] + protocols.last()
    }
}

pub fn protocol_header(protocols: &Vec<String>) -> (r: Option<String>)
    ensures
        protocols@.len() == 0 ==> r is None,
        protocols@.len() > 0 ==> (r matches Some(h) && h@ == spec_join_protocols(
            protocols@.map_values(|p: String| p@),
        )),
{
    if protocols.len() == 0 {
        return None;
    }
    let ghost pv = protocols@.map_values(|p: String| p@);
    let mut out: Vec<char> = chars_of(protocols[0].as_str());
    let mut i: usize = 1;
    assert(pv.take(1).len() == 1);
    assert(out@ == spec_join_protocols(pv.take(1)));
    while i < protocols.len()
        invariant
            1 <= i <= protocols@.len(),
            pv == protocols@.map_values(|p: String| p@),
            out@ == spec_join_protocols(pv.take(i as int)),
        decreases protocols@.len() - i,
    {
        let ghost before = out@;
        out.push(',');
        out.push(' ');
        let mut next = chars_of(protocols[i].as_str());
        out.append(&mut next);
        assert(pv.take(i + 1).drop_last() =~= pv.take(i as int));
        assert(out@ =~= spec_join_protocols(pv.take(i + 1)));
        i += 1;
    }
    assert(pv.take(i as int) =~= pv);
    Some(string_of_chars(out.as_slice()))
}

// ---------------------------------------------------------------------------
// Redirects
// ---------------------------------------------------------------------------
/// How the client handles redirects.
#[derive(Clone, Copy, Debug, PartialEq, Eq, Structural)]
pub enum Redirect {
    Follow,
    Manual,
    Error,
}

/// How many redirects a followed request may take.
pub const MAX_REDIRECTS: usize = 20;

/// The redirect policy of one request: follow at most the redirects left,
/// stop at the first, or fail.
#[derive(Clone, Copy, Debug, PartialEq, Eq, Structural)]
pub enum RedirectPolicy {
    Follow { remaining: usize },
    Manual,
    Error,
}

/// What to do with a redirect.
#[derive(Clone, Copy, Debug, PartialEq, Eq, Structural)]
pub enum RedirectAction {
    Follow,
    Stop,
}

pub enum RedirectError {
    TooMany,
    Disallowed,
}

impl Redirect {
    pub fn into_policy(self) -> (r: RedirectPolicy)
        ensures
            r == match self {
                Redirect::Follow => RedirectPolicy::Follow { remaining: MAX_REDIRECTS },
                Redirect::Manual => RedirectPolicy::Manual,
                Redirect::Error => RedirectPolicy::Error,
            },
    {
        match self {
            Redirect::Follow => RedirectPolicy::Follow { remaining: MAX_REDIRECTS },
            Redirect::Manual => RedirectPolicy::Manual,
            Redirect::Error => RedirectPolicy::Error,
        }
    }
}

/// One redirect under a policy: the policy after it, and the action or
/// the error.
pub open spec fn spec_redirect(p: RedirectPolicy) -> (RedirectPolicy, Result<RedirectAction, RedirectError>) {
    match p {
        RedirectPolicy::Follow { remaining } => if remaining > 0 {
            (RedirectPolicy::Follow { remaining: (remaining - 1) as usize }, Ok(RedirectAction::Follow))
        } else {
            (p, Err(RedirectError::TooMany))
        },
        RedirectPolicy::Manual => (p, Ok(RedirectAction::Stop)),
        RedirectPolicy::Error => (p, Err(RedirectError::Disallowed)),
    }
}

pub open spec fn redirect_error_matches(e: RedirectError, x: EpoxyError) -> bool {
    match e {
        RedirectError::TooMany => x == EpoxyError::TooManyRedirects,
        RedirectError::Disallowed => x == EpoxyError::RedirectDisallowed,
    }
}

impl RedirectPolicy {
    /// Decides on a redirect (see `spec_redirect`).
    pub fn redirect(&mut self) -> (r: Result<RedirectAction, EpoxyError>)
        ensures
            *final(self) == spec_redirect(*old(self)).0,
            match spec_redirect(*old(self)).1 {
                Ok(a) => r == Ok::<RedirectAction, EpoxyError>(a),
                Err(e) => r matches Err(x) && redirect_error_matches(e, x),
            },
    {
        match self {
            RedirectPolicy::Follow { remaining } => {
                if *remaining > 0 {
                    *remaining = *remaining - 1;
                    Ok(RedirectAction::Follow)
                } else {
                    Err(EpoxyError::TooManyRedirects)
                }
            },
            RedirectPolicy::Manual => Ok(RedirectAction::Stop),
            RedirectPolicy::Error => Err(EpoxyError::RedirectDisallowed),
        }
    }
}

/// The policy after `n` redirects, and whether all of them were followed.
pub open spec fn redirects(p: RedirectPolicy, n: nat) -> (RedirectPolicy, bool)
    decreases n,
{
    if n == 0 {
        (p, true)
    } else {
        let (q, ok) = redirects(p, (n - 1) as nat);
        let (q2, r) = spec_redirect(q);
        (q2, ok && r == Ok::<RedirectAction, RedirectError>(RedirectAction::Follow))
    }
}

/// A request that follows redirects follows the first twenty and fails on
/// the twenty-first with too many redirects.
pub proof fn lemma_follow_twenty_redirects(n: nat)
    requires
        n <= MAX_REDIRECTS,
    ensures
        redirects(RedirectPolicy::Follow { remaining: MAX_REDIRECTS }, n) == (
            RedirectPolicy::Follow { remaining: (MAX_REDIRECTS - n) as usize },
            true,
        ),
        n == MAX_REDIRECTS ==> spec_redirect(
            redirects(RedirectPolicy::Follow { remaining: MAX_REDIRECTS }, n).0,
        ).1 matches Err(RedirectError::TooMany),
    decreases n,
{
    if n > 0 {
        lemma_follow_twenty_redirects((n - 1) as nat);
    }
}

// ---------------------------------------------------------------------------
// Status text
// ---------------------------------------------------------------------------
/// The status text shown for a response: the reason phrase the server
/// sent, else nothing for HTTP versions after 1.1, else the status code's
/// canonical reason (nothing when it has none).
pub open spec fn spec_status_text(
    reason: Option<Seq<u8>>,
    after_http11: bool,
    canonical: Option<Seq<char>>,
) -> Seq<char> {
    match reason {
        Some(r) => crate::client::websocket::utf8_lossy(r),
        None => if after_http11 {
            seq![]
        } else {
            match canonical {
                Some(c) => c,
                None => seq![],
            }
        },
    }
}

pub fn status_text(reason: &Option<Vec<u8>>, after_http11: bool, canonical: &Option<String>) -> (r:
    String)
    ensures
        r@ == spec_status_text(
            match reason {
                Some(v) => Some(v@),
                None => None,
            },
            after_http11,
            opt_view(*canonical),
        ),
{
    match reason {
        Some(r) => crate::client::websocket::std_utf8_lossy(r.as_slice()),
        None => if after_http11 {
            String::new()
        } else {
            match canonical {
                Some(c) => c.clone(),
                None => String::new(),
            }
        },
    }
}

// ---------------------------------------------------------------------------
// Status codes
// ---------------------------------------------------------------------------
/// 301, 302, 303, 307 and 308 are redirects.
pub fn is_redirect(code: u16) -> (r: bool)
    ensures
        r == (code == 301 || code == 302 || code == 303 || code == 307 || code == 308),
{
    code == 301 || code == 302 || code == 303 || code == 307 || code == 308
}

/// 101, 204, 205 and 304 carry no body.
pub fn is_null_body(code: u16) -> (r: bool)
    ensures
        r == (code == 101 || code == 204 || code == 205 || code == 304),
{
    code == 101 || code == 204 || code == 205 || code == 304
}

} // verus!
