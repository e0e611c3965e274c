//! Password protocol extension.
//!
//! **Passwords are sent in plain text!!**
use vstd::prelude::*;
use vstd::utf8::*;

use crate::error::WispError;
use crate::text::{string_as_bytes, string_from_utf8};
use crate::Role;

verus! {

broadcast use vstd::utf8::group_utf8_lib;

/// ID of password protocol extension.
pub const PASSWORD_PROTOCOL_EXTENSION_ID: u8 = 0x02;

/// Password protocol extension.
#[derive(Clone, Debug)]
pub enum PasswordProtocolExtension {
    /// Password protocol extension before the client INFO packet has been received.
    ServerBeforeClientInfo {
        /// Whether this authentication method is required.
        required: bool,
    },
    /// Password protocol extension after the client INFO packet has been received.
    ServerAfterClientInfo {
        /// The client's chosen user.
        chosen_user: String,
        /// The client's chosen password
        chosen_password: String,
    },
    /// Password protocol extension before the server INFO has been received.
    ClientBeforeServerInfo,
    /// Password protocol extension after the server INFO has been received.
    ClientAfterServerInfo {
        /// The user to send to the server.
        user: String,
        /// The password to send to the user.
        password: String,
    },
}

/// Password protocol extension builder.
///
/// The server keeps its accounts as `(user, password)` pairs in which no user
/// occurs twice (`users_unique`), the map from users to passwords written out
/// as a list: vstd's specification of `HashMap` proves nothing of lookups
/// keyed by a `String`, so a map keyed that way could not carry the login
/// law.
#[derive(Debug)]
pub enum PasswordProtocolExtensionBuilder {
    /// Password protocol extension builder before the client INFO has been received.
    ServerBeforeClientInfo {
        /// The user+password combinations to verify the client with.
        users: Vec<(String, String)>,
        /// Whether this authentication method is required.
        required: bool,
    },
    /// Password protocol extension builder after the client INFO has been received.
    ServerAfterClientInfo {
        /// The user+password combinations to verify the client with.
        users: Vec<(String, String)>,
        /// Whether this authentication method is required.
        required: bool,
    },
    /// Password protocol extension builder before the server INFO has been received.
    ClientBeforeServerInfo {
        /// The credentials to send to the server.
        creds: Option<(String, String)>,
    },
    /// Password protocol extension builder after the server INFO has been received.
    ClientAfterServerInfo {
        /// The credentials to send to the server.
        creds: Option<(String, String)>,
        /// Whether this authentication method is required.
        required: bool,
    },
}

/// The abstract content of a password extension.
pub enum PasswordSpec {
    ServerBeforeClientInfo { required: bool },
    ServerAfterClientInfo { chosen_user: Seq<char>, chosen_password: Seq<char> },
    ClientBeforeServerInfo,
    ClientAfterServerInfo { user: Seq<char>, password: Seq<char> },
}

/// A user and a password, as characters.
pub type CredsSpec = (Seq<char>, Seq<char>);

/// The abstract content of a password extension builder.
pub enum PasswordBuilderSpec {
    ServerBeforeClientInfo { users: Seq<CredsSpec>, required: bool },
    ServerAfterClientInfo { users: Seq<CredsSpec>, required: bool },
    ClientBeforeServerInfo { creds: Option<CredsSpec> },
    ClientAfterServerInfo { creds: Option<CredsSpec>, required: bool },
}

pub open spec fn creds_view(c: (String, String)) -> CredsSpec {
    (c.0@, c.1@)
}

pub open spec fn users_view(users: Seq<(String, String)>) -> Seq<CredsSpec> {
    users.map_values(|c: (String, String)| creds_view(c))
}

pub open spec fn opt_creds_view(c: Option<(String, String)>) -> Option<CredsSpec> {
    match c {
        Some(p) => Some(creds_view(p)),
        None => None,
    }
}

impl View for PasswordProtocolExtension {
    type V = PasswordSpec;

    open spec fn view(&self) -> PasswordSpec {
        match self {
            PasswordProtocolExtension::ServerBeforeClientInfo { required } => {
                PasswordSpec::ServerBeforeClientInfo { required: *required }
            },
            PasswordProtocolExtension::ServerAfterClientInfo { chosen_user, chosen_password } => {
                PasswordSpec::ServerAfterClientInfo {
                    chosen_user: chosen_user@,
                    chosen_password: chosen_password@,
                }
            },
            PasswordProtocolExtension::ClientBeforeServerInfo => {
                PasswordSpec::ClientBeforeServerInfo
            },
            PasswordProtocolExtension::ClientAfterServerInfo { user, password } => {
                PasswordSpec::ClientAfterServerInfo { user: user@, password: password@ }
            },
        }
    }
}

impl View for PasswordProtocolExtensionBuilder {
    type V = PasswordBuilderSpec;

    open spec fn view(&self) -> PasswordBuilderSpec {
        match self {
            PasswordProtocolExtensionBuilder::ServerBeforeClientInfo { users, required } => {
                PasswordBuilderSpec::ServerBeforeClientInfo {
                    users: users_view(users@),
                    required: *required,
                }
            },
            PasswordProtocolExtensionBuilder::ServerAfterClientInfo { users, required } => {
                PasswordBuilderSpec::ServerAfterClientInfo {
                    users: users_view(users@),
                    required: *required,
                }
            },
            PasswordProtocolExtensionBuilder::ClientBeforeServerInfo { creds } => {
                PasswordBuilderSpec::ClientBeforeServerInfo { creds: opt_creds_view(*creds) }
            },
            PasswordProtocolExtensionBuilder::ClientAfterServerInfo { creds, required } => {
                PasswordBuilderSpec::ClientAfterServerInfo {
                    creds: opt_creds_view(*creds),
                    required: *required,
                }
            },
        }
    }
}

/// No user occurs twice among the accounts.
pub open spec fn users_unique(users: Seq<CredsSpec>) -> bool {
    forall|i: int, j: int|
        0 <= i < users.len() && 0 <= j < users.len() && i != j ==> #[trigger] users[i].0
            != #[trigger] users[j].0
}

/// The account `user` exists and has password `password`.
pub open spec fn creds_valid(users: Seq<CredsSpec>, user: Seq<char>, password: Seq<char>) -> bool {
    exists|i: int| 0 <= i < users.len() && #[trigger] users[i] == (user, password)
}

impl PasswordBuilderSpec {
    /// The server's accounts are free of duplicate users.
    pub open spec fn wf(self) -> bool {
        match self {
            PasswordBuilderSpec::ServerBeforeClientInfo { users, .. } => users_unique(users),
            PasswordBuilderSpec::ServerAfterClientInfo { users, .. } => users_unique(users),
            _ => true,
        }
    }

    /// The bytes a builder in this state can be fed without running off their end.
    pub open spec fn accepts(self, b: Seq<u8>) -> bool {
        match self {
            PasswordBuilderSpec::ServerBeforeClientInfo { .. } => b.len() >= 1 && b[0] as int
                <= b.len() - 1,
            PasswordBuilderSpec::ClientBeforeServerInfo { .. } => b.len() >= 1,
            _ => true,
        }
    }

    pub open spec fn is_required(self) -> Option<bool> {
        match self {
            PasswordBuilderSpec::ServerBeforeClientInfo { required, .. } => Some(required),
            PasswordBuilderSpec::ServerAfterClientInfo { required, .. } => Some(required),
            PasswordBuilderSpec::ClientAfterServerInfo { required, .. } => Some(required),
            PasswordBuilderSpec::ClientBeforeServerInfo { .. } => None,
        }
    }
}

impl PasswordSpec {
    /// The server announces whether the password is required; the client sends
    /// the length of the user, the user and the password.
    pub open spec fn spec_encode(self) -> Seq<u8> {
        match self {
            PasswordSpec::ServerBeforeClientInfo { required } => seq![
                if required {
                    1u8
                } else {
                    0u8
                },
            ],
            PasswordSpec::ClientAfterServerInfo { user, password } => seq![
                encode_utf8(user).len() as u8,
            ] + encode_utf8(user) + encode_utf8(password),
            _ => seq![],
        }
    }

    /// The user is short enough for its length to fit the one byte it is given.
    pub open spec fn encodable(self) -> bool {
        match self {
            PasswordSpec::ClientAfterServerInfo { user, .. } => encode_utf8(user).len() <= 255,
            _ => true,
        }
    }
}

/// What feeding the peer's bytes to a builder does: the builder state after,
/// and the extension built or the error.
pub open spec fn spec_password_from_bytes(b: PasswordBuilderSpec, bytes: Seq<u8>) -> (
    PasswordBuilderSpec,
    Result<PasswordSpec, WispError>,
) {
    match b {
        PasswordBuilderSpec::ServerBeforeClientInfo { users, required } => {
            let user_len = bytes[0] as int;
            let user = bytes.subrange(1, 1 + user_len);
            let password = bytes.skip(1 + user_len);
            if !valid_utf8(user) || !valid_utf8(password) {
                (b, Err(WispError::Utf8))
            } else {
                let next = PasswordBuilderSpec::ServerAfterClientInfo { users, required };
                if creds_valid(users, decode_utf8(user), decode_utf8(password)) {
                    (
                        next,
                        Ok(
                            PasswordSpec::ServerAfterClientInfo {
                                chosen_user: decode_utf8(user),
                                chosen_password: decode_utf8(password),
                            },
                        ),
                    )
                } else {
                    (next, Err(WispError::PasswordExtensionCredsInvalid))
                }
            }
        },
        PasswordBuilderSpec::ClientBeforeServerInfo { creds } => (
            PasswordBuilderSpec::ClientAfterServerInfo { creds, required: bytes[0] != 0 },
            Ok(PasswordSpec::ClientBeforeServerInfo),
        ),
        _ => (b, Err(WispError::ExtensionImplNotSupported)),
    }
}

/// A server lets a client in exactly when the credentials the client
/// announces are one of its accounts: fed the client's payload, the server's
/// builder yields the chosen user and password, or refuses them.
pub proof fn lemma_password_login(
    users: Seq<CredsSpec>,
    required: bool,
    user: Seq<char>,
    password: Seq<char>,
)
    requires
        encode_utf8(user).len() <= 255,
    ensures
        ({
            let server = PasswordBuilderSpec::ServerBeforeClientInfo { users, required };
            let bytes = (PasswordSpec::ClientAfterServerInfo { user, password }).spec_encode();
            &&& server.accepts(bytes)
            &&& spec_password_from_bytes(server, bytes).1 == if creds_valid(users, user, password) {
                Ok::<PasswordSpec, WispError>(
                    PasswordSpec::ServerAfterClientInfo { chosen_user: user, chosen_password: password },
                )
            } else {
                Err::<PasswordSpec, WispError>(WispError::PasswordExtensionCredsInvalid)
            }
        }),
{
    let u = encode_utf8(user);
    let p = encode_utf8(password);
    let bytes = seq![u.len() as u8] + u + p;
    assert(bytes[0] as int == u.len());
    assert(bytes.subrange(1, 1 + u.len() as int) =~= u);
    assert(bytes.skip(1 + u.len() as int) =~= p);
    encode_utf8_decode_utf8(user);
    encode_utf8_decode_utf8(password);
    encode_utf8_valid_utf8(user);
    encode_utf8_valid_utf8(password);
}

/// What building the local extension yields.
pub open spec fn spec_password_to_extension(b: PasswordBuilderSpec) -> Result<
    PasswordSpec,
    WispError,
> {
    match b {
        PasswordBuilderSpec::ServerBeforeClientInfo { required, .. } => Ok(
            PasswordSpec::ServerBeforeClientInfo { required },
        ),
        PasswordBuilderSpec::ClientAfterServerInfo { creds, .. } => match creds {
            Some(c) => Ok(PasswordSpec::ClientAfterServerInfo { user: c.0, password: c.1 }),
            None => Err(WispError::PasswordExtensionNoCreds),
        },
        _ => Err(WispError::ExtensionImplNotSupported),
    }
}

impl PasswordProtocolExtension {
    /// ID of password protocol extension.
    pub fn id() -> (r: u8)
        ensures
            r == PASSWORD_PROTOCOL_EXTENSION_ID,
    {
        PASSWORD_PROTOCOL_EXTENSION_ID
    }

    /// Whether the payload can be produced: a client's user must fit in 255 bytes.
    pub fn is_encodable(&self) -> (r: bool)
        ensures
            r == self@.encodable(),
    {
        match self {
            PasswordProtocolExtension::ClientAfterServerInfo { user, .. } => {
                string_as_bytes(user).len() <= 255
            },
            _ => true,
        }
    }

    pub fn encode(&self) -> (r: Vec<u8>)
        requires
            self@.encodable(),
        ensures
            r@ == self@.spec_encode(),
    {
        match self {
            PasswordProtocolExtension::ServerBeforeClientInfo { required } => {
                let mut out: Vec<u8> = Vec::new();
                out.push(
                    if *required {
                        1u8
                    } else {
                        0u8
                    },
                );
                assert(out@ =~= self@.spec_encode());
                out
            },
            PasswordProtocolExtension::ClientAfterServerInfo { user, password } => {
                let u = string_as_bytes(user);
                let p = string_as_bytes(password);
                let mut out: Vec<u8> = Vec::new();
                out.push(u.len() as u8);
                out.extend_from_slice(u);
                out.extend_from_slice(p);
                assert(out@ =~= self@.spec_encode());
                out
            },
            _ => Vec::new(),
        }
    }
}

/// Whether `(user, password)` is one of the accounts.
fn lookup_creds(users: &Vec<(String, String)>, user: &String, password: &String) -> (r: bool)
    ensures
        r == creds_valid(users_view(users@), user@, password@),
{
    let mut i: usize = 0;
    while i < users.len()
        invariant
            0 <= i <= users@.len(),
            forall|k: int| 0 <= k < i ==> users_view(users@)[k] != (user@, password@),
        decreases users@.len() - i,
    {
        let entry = &users[i];
        if entry.0 == *user && entry.1 == *password {
            assert(users_view(users@)[i as int] == (user@, password@));
            return true;
        }
        i += 1;
    }
    proof {
        if creds_valid(users_view(users@), user@, password@) {
            let k = choose|k: int|
                0 <= k < users_view(users@).len() && #[trigger] users_view(users@)[k] == (
                user@,
                password@,
            );
            assert(users_view(users@)[k] != (user@, password@));
        }
    }
    false
}

impl PasswordProtocolExtensionBuilder {
    /// ID of password protocol extension.
    pub fn id() -> (r: u8)
        ensures
            r == PASSWORD_PROTOCOL_EXTENSION_ID,
    {
        PASSWORD_PROTOCOL_EXTENSION_ID
    }

    /// Create a new server variant of the password protocol extension.
    pub fn new_server(users: Vec<(String, String)>, required: bool) -> (r: Self)
        requires
            users_unique(users_view(users@)),
        ensures
            r@ == (PasswordBuilderSpec::ServerBeforeClientInfo {
                users: users_view(users@),
                required,
            }),
            r@.wf(),
    {
        PasswordProtocolExtensionBuilder::ServerBeforeClientInfo { users, required }
    }

    /// Create a new client variant of the password protocol extension with a username and password.
    pub fn new_client(creds: Option<(String, String)>) -> (r: Self)
        ensures
            r@ == (PasswordBuilderSpec::ClientBeforeServerInfo { creds: opt_creds_view(creds) }),
            r@.wf(),
    {
        PasswordProtocolExtensionBuilder::ClientBeforeServerInfo { creds }
    }

    /// Get whether this authentication method is required. Could return None if the server has not
    /// sent the password protocol extension.
    pub fn is_required(&self) -> (r: Option<bool>)
        ensures
            r == self@.is_required(),
    {
        match self {
            PasswordProtocolExtensionBuilder::ServerBeforeClientInfo { required, .. } => Some(
                *required,
            ),
            PasswordProtocolExtensionBuilder::ServerAfterClientInfo { required, .. } => Some(
                *required,
            ),
            PasswordProtocolExtensionBuilder::ClientAfterServerInfo { required, .. } => Some(
                *required,
            ),
            PasswordProtocolExtensionBuilder::ClientBeforeServerInfo { .. } => None,
        }
    }

    /// Set the credentials sent to the server, if this is a client variant.
    pub fn set_creds(&mut self, credentials: (String, String))
        ensures
            match old(self)@ {
                PasswordBuilderSpec::ClientBeforeServerInfo { .. } => final(self)@
                    == PasswordBuilderSpec::ClientBeforeServerInfo {
                    creds: Some(creds_view(credentials)),
                },
                PasswordBuilderSpec::ClientAfterServerInfo { required, .. } => final(self)@
                    == PasswordBuilderSpec::ClientAfterServerInfo {
                    creds: Some(creds_view(credentials)),
                    required,
                },
                _ => final(self)@ == old(self)@,
            },
    {
        match self {
            PasswordProtocolExtensionBuilder::ClientBeforeServerInfo { creds } => {
                *creds = Some(credentials);
            },
            PasswordProtocolExtensionBuilder::ClientAfterServerInfo { creds, .. } => {
                *creds = Some(credentials);
            },
            _ => {},
        }
    }

    /// Builds the extension the peer announced from its bytes.
    pub fn build_from_bytes(&mut self, bytes: &[u8]) -> (r: Result<
        PasswordProtocolExtension,
        WispError,
    >)
        requires
            old(self)@.accepts(bytes@),
        ensures
            final(self)@ == spec_password_from_bytes(old(self)@, bytes@).0,
            r matches Ok(e) ==> spec_password_from_bytes(old(self)@, bytes@).1 == Ok::<
                PasswordSpec,
                WispError,
            >(e@),
            r matches Err(e) ==> spec_password_from_bytes(old(self)@, bytes@).1 == Err::<
                PasswordSpec,
                WispError,
            >(e),
    {
        let mut current = PasswordProtocolExtensionBuilder::ClientBeforeServerInfo { creds: None };
        std::mem::swap(self, &mut current);
        match current {
            PasswordProtocolExtensionBuilder::ServerBeforeClientInfo { users, required } => {
                let user_len = bytes[0] as usize;
                let user_bytes = vstd::slice::slice_to_vec(&bytes[1..1 + user_len]);
                let password_bytes = vstd::slice::slice_to_vec(&bytes[1 + user_len..bytes.len()]);
                assert(user_bytes@ =~= bytes@.subrange(1, 1 + user_len));
                assert(password_bytes@ =~= bytes@.skip(1 + user_len));
                let user = match string_from_utf8(user_bytes) {
                    Some(u) => u,
                    None => {
                        *self = PasswordProtocolExtensionBuilder::ServerBeforeClientInfo {
                            users,
                            required,
                        };
                        return Err(WispError::Utf8);
                    },
                };
                let password = match string_from_utf8(password_bytes) {
                    Some(p) => p,
                    None => {
                        *self = PasswordProtocolExtensionBuilder::ServerBeforeClientInfo {
                            users,
                            required,
                        };
                        return Err(WispError::Utf8);
                    },
                };
                let valid = lookup_creds(&users, &user, &password);
                *self = PasswordProtocolExtensionBuilder::ServerAfterClientInfo { users, required };
                if valid {
                    Ok(
                        PasswordProtocolExtension::ServerAfterClientInfo {
                            chosen_user: user,
                            chosen_password: password,
                        },
                    )
                } else {
                    Err(WispError::PasswordExtensionCredsInvalid)
                }
            },
            PasswordProtocolExtensionBuilder::ClientBeforeServerInfo { creds } => {
                let required = bytes[0] != 0;
                *self = PasswordProtocolExtensionBuilder::ClientAfterServerInfo { creds, required };
                Ok(PasswordProtocolExtension::ClientBeforeServerInfo)
            },
            other => {
                *self = other;
                Err(WispError::ExtensionImplNotSupported)
            },
        }
    }

    /// Builds the local extension to announce to the peer.
    pub fn build_to_extension(&self) -> (r: Result<PasswordProtocolExtension, WispError>)
        ensures
            r matches Ok(e) ==> spec_password_to_extension(self@) == Ok::<PasswordSpec, WispError>(
                e@,
            ),
            r matches Err(e) ==> spec_password_to_extension(self@) == Err::<PasswordSpec, WispError>(
                e,
            ),
    {
        match self {
            PasswordProtocolExtensionBuilder::ServerBeforeClientInfo { required, .. } => Ok(
                PasswordProtocolExtension::ServerBeforeClientInfo { required: *required },
            ),
            PasswordProtocolExtensionBuilder::ClientAfterServerInfo { creds, .. } => match creds {
                Some(c) => Ok(
                    PasswordProtocolExtension::ClientAfterServerInfo {
                        user: c.0.clone(),
                        password: c.1.clone(),
                    },
                ),
                None => Err(WispError::PasswordExtensionNoCreds),
            },
            _ => Err(WispError::ExtensionImplNotSupported),
        }
    }
}

/// An independent copy of a pair of credentials.
fn duplicate_creds(c: &(String, String)) -> (r: (String, String))
    ensures
        creds_view(r) == creds_view(*c),
{
    (c.0.clone(), c.1.clone())
}

/// An independent copy of a list of accounts.
fn duplicate_users(users: &Vec<(String, String)>) -> (r: Vec<(String, String)>)
    ensures
        users_view(r@) == users_view(users@),
{
    let mut out: Vec<(String, String)> = Vec::new();
    let mut i: usize = 0;
    while i < users.len()
        invariant
            0 <= i <= users@.len(),
            users_view(out@) =~= users_view(users@).take(i as int),
        decreases users@.len() - i,
    {
        let c = duplicate_creds(&users[i]);
        let ghost old_out = out@;
        out.push(c);
        assert(users_view(out@) =~= users_view(old_out).push(creds_view(users@[i as int])));
        assert(users_view(users@).take(i + 1) =~= users_view(users@).take(i as int).push(
            creds_view(users@[i as int]),
        ));
        i += 1;
    }
    assert(users_view(users@).take(i as int) =~= users_view(users@));
    out
}

fn duplicate_opt_creds(c: &Option<(String, String)>) -> (r: Option<(String, String)>)
    ensures
        opt_creds_view(r) == opt_creds_view(*c),
{
    match c {
        Some(p) => Some(duplicate_creds(p)),
        None => None,
    }
}

impl PasswordProtocolExtensionBuilder {
    /// An independent copy of this builder.
    pub fn duplicate(&self) -> (r: Self)
        ensures
            r@ == self@,
    {
        match self {
            PasswordProtocolExtensionBuilder::ServerBeforeClientInfo { users, required } => {
                PasswordProtocolExtensionBuilder::ServerBeforeClientInfo {
                    users: duplicate_users(users),
                    required: *required,
                }
            },
            PasswordProtocolExtensionBuilder::ServerAfterClientInfo { users, required } => {
                PasswordProtocolExtensionBuilder::ServerAfterClientInfo {
                    users: duplicate_users(users),
                    required: *required,
                }
            },
            PasswordProtocolExtensionBuilder::ClientBeforeServerInfo { creds } => {
                PasswordProtocolExtensionBuilder::ClientBeforeServerInfo {
                    creds: duplicate_opt_creds(creds),
                }
            },
            PasswordProtocolExtensionBuilder::ClientAfterServerInfo { creds, required } => {
                PasswordProtocolExtensionBuilder::ClientAfterServerInfo {
                    creds: duplicate_opt_creds(creds),
                    required: *required,
                }
            },
        }
    }
}

} // verus!
