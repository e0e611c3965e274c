//! Errors the client reports.
use vstd::prelude::*;

use crate::error::WispError;

verus! {

/// Everything the client's own logic can fail with.
#[derive(Clone, Debug)]
pub enum EpoxyError {
    Wisp(WispError),
    InvalidDnsName(String),
    InvalidUrlScheme(Option<String>),
    NoUrlHost,
    NoUrlPort,
    TooManyRedirects,
    RedirectDisallowed,
    Aborted,
    /// The server answered an upgrade with another status code.
    WsStatusCode(u16),
    WsMissingUpgrade,
    WsMissingConnection,
    WsAccept(Option<String>),
    WsUnexpectedExtensions,
    WsProtocol(Option<String>),
    InvalidJsValue(String),
    JsError(String),
}

/// How an optional value is shown in an error message: the value, or
/// `None`.
pub fn fmt_option(option: &Option<String>) -> (r: &str)
    ensures
        match option {
            Some(x) => r@ == x@,
            None => r@ == "None"@,
        },
{
    match option {
        Some(x) => x.as_str(),
        None => "None",
    }
}

} // verus!
