//! The protocol extensions as the page sees them: builders it makes, and
//! views of builders and extensions that are only valid while the
//! handshake middleware runs.
use vstd::prelude::*;

use crate::client::error::EpoxyError;
use crate::extensions::cert::{
    CertAuthBuilderSpec, CertAuthProtocolExtension as WispCertAuthProtocolExtension,
    CertAuthProtocolExtensionBuilder as WispCertAuthProtocolExtensionBuilder,
};
use crate::extensions::motd::{
    MotdBuilderSpec, MotdProtocolExtension as WispMotdProtocolExtension,
    MotdProtocolExtensionBuilder as WispMotdProtocolExtensionBuilder,
};
use crate::extensions::password::{
    opt_creds_view, PasswordBuilderSpec, PasswordProtocolExtension as WispPasswordProtocolExtension,
    PasswordProtocolExtensionBuilder as WispPasswordProtocolExtensionBuilder,
};
use crate::extensions::udp::UdpProtocolExtensionBuilder as WispUdpProtocolExtensionBuilder;
use crate::extensions::AnyProtocolExtensionBuilder;
use crate::mux::WispV2Handshake;

verus! {

/// The error a view reports once it is used outside the middleware call
/// that handed it out.
pub open spec fn escaped(e: EpoxyError, message: Seq<char>) -> bool {
    e matches EpoxyError::InvalidJsValue(m) && m@ == message
}

// ---------------------------------------------------------------------------
// MOTD
// ---------------------------------------------------------------------------
pub struct MotdProtocolExtensionBuilder(pub WispMotdProtocolExtensionBuilder);

impl MotdProtocolExtensionBuilder {
    pub fn new_client() -> (r: Self)
        ensures
            r.0@ == MotdBuilderSpec::Client,
    {
        MotdProtocolExtensionBuilder(WispMotdProtocolExtensionBuilder::new_client())
    }

    pub fn new_server(motd: String) -> (r: Self)
        ensures
            r.0@ == MotdBuilderSpec::Server(motd@),
    {
        MotdProtocolExtensionBuilder(WispMotdProtocolExtensionBuilder::new_server(motd))
    }
}

/// A view of a MOTD builder.
pub struct MotdProtocolExtensionBuilderRef<'a> {
    pub inner: &'a WispMotdProtocolExtensionBuilder,
    /// Whether the middleware call that handed out the view is still running.
    pub in_scope: bool,
}

impl<'a> MotdProtocolExtensionBuilderRef<'a> {
    /// The server's MOTD, or `None` on the client.
    pub fn motd(&self) -> (r: Result<Option<String>, EpoxyError>)
        ensures
            !self.in_scope ==> (r matches Err(e) && escaped(
                e,
                "MotdProtocolExtensionBuilderRef escaped its valid scope"@,
            )),
            self.in_scope ==> (r matches Ok(m) && match self.inner@ {
                MotdBuilderSpec::Server(s) => m matches Some(x) && x@ == s,
                MotdBuilderSpec::Client => m is None,
            }),
    {
        if !self.in_scope {
            return Err(
                EpoxyError::InvalidJsValue(
                    "MotdProtocolExtensionBuilderRef escaped its valid scope".to_owned(),
                ),
            );
        }
        Ok(
            match self.inner {
                WispMotdProtocolExtensionBuilder::Server(motd) => Some(motd.clone()),
                WispMotdProtocolExtensionBuilder::Client => None,
            },
        )
    }

    /// Whether this is the client's builder.
    pub fn is_client(&self) -> (r: Result<bool, EpoxyError>)
        ensures
            !self.in_scope ==> (r matches Err(e) && escaped(
                e,
                "MotdProtocolExtensionBuilderRef escaped its valid scope"@,
            )),
            self.in_scope ==> r == Ok::<bool, EpoxyError>(self.inner@ is Client),
    {
        if !self.in_scope {
            return Err(
                EpoxyError::InvalidJsValue(
                    "MotdProtocolExtensionBuilderRef escaped its valid scope".to_owned(),
                ),
            );
        }
        Ok(
            match self.inner {
                WispMotdProtocolExtensionBuilder::Client => true,
                _ => false,
            },
        )
    }
}

/// A view of a MOTD extension.
pub struct MotdProtocolExtension<'a> {
    pub inner: &'a WispMotdProtocolExtension,
    pub in_scope: bool,
}

impl<'a> MotdProtocolExtension<'a> {
    /// The MOTD.
    pub fn motd(&self) -> (r: Result<String, EpoxyError>)
        ensures
            !self.in_scope ==> (r matches Err(e) && escaped(
                e,
                "MotdProtocolExtension escaped its valid scope"@,
            )),
            self.in_scope ==> (r matches Ok(m) && m@ == self.inner.motd@),
    {
        if !self.in_scope {
            return Err(
                EpoxyError::InvalidJsValue("MotdProtocolExtension escaped its valid scope".to_owned()),
            );
        }
        Ok(self.inner.motd.clone())
    }
}

// ---------------------------------------------------------------------------
// UDP
// ---------------------------------------------------------------------------
pub struct UdpProtocolExtensionBuilder(pub WispUdpProtocolExtensionBuilder);

impl UdpProtocolExtensionBuilder {
    pub fn new_client() -> (r: Self)
        ensures
            r.0 == WispUdpProtocolExtensionBuilder,
    {
        UdpProtocolExtensionBuilder(WispUdpProtocolExtensionBuilder)
    }

    pub fn new_server() -> (r: Self)
        ensures
            r.0 == WispUdpProtocolExtensionBuilder,
    {
        UdpProtocolExtensionBuilder(WispUdpProtocolExtensionBuilder)
    }
}

// ---------------------------------------------------------------------------
// Password
// ---------------------------------------------------------------------------
pub struct PasswordProtocolExtensionBuilder(pub WispPasswordProtocolExtensionBuilder);

impl PasswordProtocolExtensionBuilder {
    /// A client builder, with credentials when both user and password are
    /// given.
    pub fn new_client(user: Option<String>, password: Option<String>) -> (r: Self)
        ensures
            r.0@ == (PasswordBuilderSpec::ClientBeforeServerInfo {
                creds: match (user, password) {
                    (Some(u), Some(p)) => Some((u@, p@)),
                    _ => None,
                },
            }),
            r.0@.wf(),
    {
        let creds = match (user, password) {
            (Some(user), Some(password)) => Some((user, password)),
            _ => None,
        };
        PasswordProtocolExtensionBuilder(WispPasswordProtocolExtensionBuilder::new_client(creds))
    }

    /// A server builder with no accounts.
    pub fn new_server(required: bool) -> (r: Self)
        ensures
            r.0@ == (PasswordBuilderSpec::ServerBeforeClientInfo { users: seq![], required }),
            r.0@.wf(),
    {
        let users: Vec<(String, String)> = Vec::new();
        let b = WispPasswordProtocolExtensionBuilder::new_server(users, required);
        proof {
            assert(crate::extensions::password::users_view(users@) =~= seq![]);
        }
        PasswordProtocolExtensionBuilder(b)
    }
}

/// A view of a password builder.
pub struct PasswordProtocolExtensionBuilderRef<'a> {
    pub inner: &'a WispPasswordProtocolExtensionBuilder,
    pub in_scope: bool,
}

impl<'a> PasswordProtocolExtensionBuilderRef<'a> {
    /// Whether the server requires the extension, once known.
    pub fn is_required(&self) -> (r: Result<Option<bool>, EpoxyError>)
        ensures
            !self.in_scope ==> (r matches Err(e) && escaped(
                e,
                "PasswordProtocolExtensionBuilderRef escaped its valid scope"@,
            )),
            self.in_scope ==> r == Ok::<Option<bool>, EpoxyError>(self.inner@.is_required()),
    {
        if !self.in_scope {
            return Err(
                EpoxyError::InvalidJsValue(
                    "PasswordProtocolExtensionBuilderRef escaped its valid scope".to_owned(),
                ),
            );
        }
        Ok(self.inner.is_required())
    }
}

/// A view of a password extension.
pub struct PasswordProtocolExtension<'a> {
    pub inner: &'a WispPasswordProtocolExtension,
    pub in_scope: bool,
}

impl<'a> PasswordProtocolExtension<'a> {
    /// Whether the server requires the extension, on the server's
    /// announcement.
    pub fn required(&self) -> (r: Result<Option<bool>, EpoxyError>)
        ensures
            !self.in_scope ==> (r matches Err(e) && escaped(
                e,
                "PasswordProtocolExtension escaped its valid scope"@,
            )),
            self.in_scope ==> r == Ok::<Option<bool>, EpoxyError>(
                match *self.inner {
                    WispPasswordProtocolExtension::ServerBeforeClientInfo { required } => Some(
                        required,
                    ),
                    _ => None,
                },
            ),
    {
        if !self.in_scope {
            return Err(
                EpoxyError::InvalidJsValue(
                    "PasswordProtocolExtension escaped its valid scope".to_owned(),
                ),
            );
        }
        Ok(
            match self.inner {
                WispPasswordProtocolExtension::ServerBeforeClientInfo { required } => Some(
                    *required,
                ),
                _ => None,
            },
        )
    }

    /// The user the client sends.
    pub fn user(&self) -> (r: Result<Option<String>, EpoxyError>)
        ensures
            !self.in_scope ==> (r matches Err(e) && escaped(
                e,
                "PasswordProtocolExtension escaped its valid scope"@,
            )),
            self.in_scope ==> (r matches Ok(u) && match *self.inner {
                WispPasswordProtocolExtension::ClientAfterServerInfo { user, .. } => u matches Some(
                    x,
                ) && x@ == user@,
                _ => u is None,
            }),
    {
        if !self.in_scope {
            return Err(
                EpoxyError::InvalidJsValue(
                    "PasswordProtocolExtension escaped its valid scope".to_owned(),
                ),
            );
        }
        Ok(
            match self.inner {
                WispPasswordProtocolExtension::ClientAfterServerInfo { user, .. } => Some(
                    user.clone(),
                ),
                _ => None,
            },
        )
    }

    /// The user the client chose, on the server.
    pub fn chosen_user(&self) -> (r: Result<Option<String>, EpoxyError>)
        ensures
            !self.in_scope ==> (r matches Err(e) && escaped(
                e,
                "PasswordProtocolExtension escaped its valid scope"@,
            )),
            self.in_scope ==> (r matches Ok(u) && match *self.inner {
                WispPasswordProtocolExtension::ServerAfterClientInfo { chosen_user, .. } => u matches Some(
                    x,
                ) && x@ == chosen_user@,
                _ => u is None,
            }),
    {
        if !self.in_scope {
            return Err(
                EpoxyError::InvalidJsValue(
                    "PasswordProtocolExtension escaped its valid scope".to_owned(),
                ),
            );
        }
        Ok(
            match self.inner {
                WispPasswordProtocolExtension::ServerAfterClientInfo { chosen_user, .. } => Some(
                    chosen_user.clone(),
                ),
                _ => None,
            },
        )
    }
}

// ---------------------------------------------------------------------------
// Certificate authentication
// ---------------------------------------------------------------------------
pub struct CertAuthProtocolExtensionBuilder(pub WispCertAuthProtocolExtensionBuilder);

impl CertAuthProtocolExtensionBuilder {
    /// A client builder without a signing key (the middleware may set one).
    pub fn new_client() -> (r: Self)
        ensures
            r.0@ == (CertAuthBuilderSpec::ClientBeforeChallenge { signer: None }),
    {
        CertAuthProtocolExtensionBuilder(WispCertAuthProtocolExtensionBuilder::new_client(None))
    }

    /// A server builder with no keys.
    pub fn new_server(required: bool) -> (r: Self)
        ensures
            r.0@ == (CertAuthBuilderSpec::ServerBeforeChallenge { verifiers: seq![], required }),
    {
        let keys = Vec::new();
        let b = WispCertAuthProtocolExtensionBuilder::new_server(keys, required);
        assert(keys@ =~= seq![]);
        CertAuthProtocolExtensionBuilder(b)
    }
}

/// A view of a certificate authentication builder.
pub struct CertAuthProtocolExtensionBuilderRef<'a> {
    pub inner: &'a WispCertAuthProtocolExtensionBuilder,
    pub in_scope: bool,
}

impl<'a> CertAuthProtocolExtensionBuilderRef<'a> {
    /// Whether the server requires the extension, once known.
    pub fn is_required(&self) -> (r: Result<Option<bool>, EpoxyError>)
        ensures
            !self.in_scope ==> (r matches Err(e) && escaped(
                e,
                "CertAuthProtocolExtensionBuilderRef escaped its valid scope"@,
            )),
            self.in_scope ==> r == Ok::<Option<bool>, EpoxyError>(self.inner@.is_required()),
    {
        if !self.in_scope {
            return Err(
                EpoxyError::InvalidJsValue(
                    "CertAuthProtocolExtensionBuilderRef escaped its valid scope".to_owned(),
                ),
            );
        }
        Ok(self.inner.is_required())
    }
}

/// A view of a certificate authentication extension.
pub struct CertAuthProtocolExtension<'a> {
    pub inner: &'a WispCertAuthProtocolExtension,
    pub in_scope: bool,
}

impl<'a> CertAuthProtocolExtension<'a> {
    /// Whether the server requires the extension, on the server's
    /// announcement.
    pub fn required(&self) -> (r: Result<Option<bool>, EpoxyError>)
        ensures
            !self.in_scope ==> (r matches Err(e) && escaped(
                e,
                "CertAuthProtocolExtension escaped its valid scope"@,
            )),
            self.in_scope ==> r == Ok::<Option<bool>, EpoxyError>(
                match *self.inner {
                    WispCertAuthProtocolExtension::Server { required, .. } => Some(required),
                    _ => None,
                },
            ),
    {
        if !self.in_scope {
            return Err(
                EpoxyError::InvalidJsValue(
                    "CertAuthProtocolExtension escaped its valid scope".to_owned(),
                ),
            );
        }
        Ok(
            match self.inner {
                WispCertAuthProtocolExtension::Server { required, .. } => Some(*required),
                _ => None,
            },
        )
    }
}

// ---------------------------------------------------------------------------
// The builders a page hands to the handshake
// ---------------------------------------------------------------------------
/// The extension builders a page collects, in the order it adds them.
pub struct ProtocolExtensionBuilders(pub Vec<AnyProtocolExtensionBuilder>);

impl ProtocolExtensionBuilders {
    pub fn new() -> (r: Self)
        ensures
            r.0@.len() == 0,
    {
        ProtocolExtensionBuilders(Vec::new())
    }

    pub fn udp(&mut self, builder: UdpProtocolExtensionBuilder)
        ensures
            final(self).0@ == old(self).0@.push(AnyProtocolExtensionBuilder::Udp(builder.0)),
    {
        self.0.push(AnyProtocolExtensionBuilder::Udp(builder.0));
    }

    pub fn motd(&mut self, builder: MotdProtocolExtensionBuilder)
        ensures
            final(self).0@ == old(self).0@.push(AnyProtocolExtensionBuilder::Motd(builder.0)),
    {
        self.0.push(AnyProtocolExtensionBuilder::Motd(builder.0));
    }

    pub fn password(&mut self, builder: PasswordProtocolExtensionBuilder)
        ensures
            final(self).0@ == old(self).0@.push(AnyProtocolExtensionBuilder::Password(builder.0)),
    {
        self.0.push(AnyProtocolExtensionBuilder::Password(builder.0));
    }

    pub fn cert(&mut self, builder: CertAuthProtocolExtensionBuilder)
        ensures
            final(self).0@ == old(self).0@.push(AnyProtocolExtensionBuilder::Cert(builder.0)),
    {
        self.0.push(AnyProtocolExtensionBuilder::Cert(builder.0));
    }
}

/// The page's Wisp v2 settings: its builders, and its middleware.
pub struct JsWispV2Handshake<M>(pub WispV2Handshake<M>);

impl<M> JsWispV2Handshake<M> {
    pub fn new(builders: ProtocolExtensionBuilders, middleware: M) -> (r: Self)
        ensures
            r.0.builders == builders.0,
            r.0.required@.len() == 0,
            r.0.closure == Some(middleware),
    {
        JsWispV2Handshake(WispV2Handshake::new(builders.0, Vec::new()).with_middleware(middleware))
    }
}

} // verus!
