//! Certificate authentication protocol extension.
//!
//! The server sends a random challenge; the client answers with the hash of
//! its ED25519 public key and its signature of the challenge; the server
//! accepts when one of its keys with that hash verifies the signature.
use vstd::prelude::*;

use crate::error::{ExtensionImplError, WispError};

verus! {

/// ID of certificate authentication protocol extension.
pub const CERT_AUTH_PROTOCOL_EXTENSION_ID: u8 = 0x03;

/// Length of the challenge the server sends.
pub const CHALLENGE_LENGTH: usize = 64;

/// Length of a key hash.
pub const KEY_HASH_LENGTH: usize = 32;

/// Length of an ED25519 signature.
pub const SIGNATURE_LENGTH: usize = 64;

// ---------------------------------------------------------------------------
// Outside cryptography
// ---------------------------------------------------------------------------
#[verifier::external_type_specification]
#[verifier::external_body]
pub struct ExGetrandomError(getrandom::Error);

/// Whether `signature` is a valid ED25519 signature of `message` under the
/// public key `public_key`, as `ed25519-dalek` decides it.
pub uninterp spec fn ed25519_verifies(public_key: Seq<u8>, message: Seq<u8>, signature: Seq<u8>) -> bool;

/// The ED25519 signature of `message` under the secret key `secret_key`, as
/// `ed25519-dalek` computes it (ED25519 signing is deterministic).
pub uninterp spec fn ed25519_signature(secret_key: Seq<u8>, message: Seq<u8>) -> Seq<u8>;

/// `ed25519_dalek::VerifyingKey::verify` (through the `Verifier` trait), after
/// `VerifyingKey::from_bytes` turns the public key bytes into a key and
/// `Signature::from_bytes` the signature bytes into a signature. A public key
/// that is not a curve point verifies nothing. The result is named, not
/// stated: it is whatever the crate's verification algorithm decides.
#[verifier::external_body]
fn dalek_verify(public_key: &[u8; 32], message: &[u8], signature: &[u8]) -> (r: bool)
    requires
        signature@.len() == 64,
    ensures
        r == ed25519_verifies(public_key@, message@, signature@),
{
    let sig: [u8; 64] = signature.try_into().unwrap();
    match ed25519_dalek::VerifyingKey::from_bytes(public_key) {
        Ok(key) => ed25519::signature::Verifier::verify(
            &key,
            message,
            &ed25519::Signature::from_bytes(&sig),
        ).is_ok(),
        Err(_) => false,
    }
}

/// `ed25519_dalek::SigningKey::sign` (through the `Signer` trait), after
/// `SigningKey::from_bytes` turns the secret key bytes into a key; the
/// signature comes back as its 64 bytes. The signature is named, not stated.
#[verifier::external_body]
fn dalek_sign(secret_key: &[u8; 32], message: &[u8]) -> (r: Vec<u8>)
    ensures
        r@ == ed25519_signature(secret_key@, message@),
        r@.len() == 64,
{
    let key = ed25519_dalek::SigningKey::from_bytes(secret_key);
    ed25519::signature::Signer::<ed25519::Signature>::sign(&key, message).to_bytes().to_vec()
}

/// `getrandom::getrandom` filling a 64-byte buffer. Which bytes come back is
/// chance; only their number is stated.
#[verifier::external_body]
fn random_challenge() -> (r: Result<Vec<u8>, getrandom::Error>)
    ensures
        r matches Ok(v) ==> v@.len() == 64,
{
    let mut buf = [0u8; 64];
    getrandom::getrandom(&mut buf)?;
    Ok(buf.to_vec())
}

// ---------------------------------------------------------------------------
// Certificate types
// ---------------------------------------------------------------------------
/// Supported certificate types for certificate authentication, as bit flags.
#[derive(Copy, Clone, Debug, PartialEq, Eq, Structural)]
pub struct SupportedCertificateTypes {
    pub bits: u8,
}

/// The ED25519 flag.
pub const CERT_TYPE_ED25519: u8 = 0b0000_0001;

impl SupportedCertificateTypes {
    /// The set holding only ED25519.
    pub fn ed25519() -> (r: Self)
        ensures
            r.bits == CERT_TYPE_ED25519,
    {
        SupportedCertificateTypes { bits: CERT_TYPE_ED25519 }
    }

    /// Flags are accepted when no unknown bit is set.
    pub open spec fn spec_from_bits(b: u8) -> Option<Self> {
        if b == 0 || b == 1 {
            Some(SupportedCertificateTypes { bits: b })
        } else {
            None
        }
    }

    pub fn from_bits(b: u8) -> (r: Option<Self>)
        ensures
            r == Self::spec_from_bits(b),
    {
        if b == 0 || b == 1 {
            Some(SupportedCertificateTypes { bits: b })
        } else {
            None
        }
    }

    pub fn bits(&self) -> (r: u8)
        ensures
            r == self.bits,
    {
        self.bits
    }

    /// `t` is one of the single flags contained in this set.
    pub open spec fn spec_offers(self, t: SupportedCertificateTypes) -> bool {
        t.bits == CERT_TYPE_ED25519 && self.bits % 2 == 1
    }

    pub fn offers(&self, t: SupportedCertificateTypes) -> (r: bool)
        ensures
            r == self.spec_offers(t),
    {
        t.bits == CERT_TYPE_ED25519 && self.bits % 2 == 1
    }
}

/// Verification key: the certificate type, the SHA-256 hash of the public key,
/// and the public key.
#[derive(Copy, Clone, Debug)]
pub struct VerifyKey {
    /// Certificate type of the keypair.
    pub cert_type: SupportedCertificateTypes,
    /// SHA-256 hash of the public key.
    pub hash: [u8; 32],
    /// The ED25519 public key.
    pub public_key: [u8; 32],
}

/// Signing key: the certificate type, the SHA-256 hash of the public key, and
/// the secret key.
#[derive(Copy, Clone, Debug)]
pub struct SigningKey {
    /// Certificate type of the keypair.
    pub cert_type: SupportedCertificateTypes,
    /// SHA-256 hash of the public key.
    pub hash: [u8; 32],
    /// The ED25519 secret key.
    pub secret_key: [u8; 32],
}

impl VerifyKey {
    /// Create a new ED25519 verification key.
    pub fn new_ed25519(public_key: [u8; 32], hash: [u8; 32]) -> (r: Self)
        ensures
            r.cert_type.bits == CERT_TYPE_ED25519,
            r.public_key == public_key,
            r.hash == hash,
    {
        VerifyKey { cert_type: SupportedCertificateTypes::ed25519(), hash, public_key }
    }
}

impl SigningKey {
    /// Create a new ED25519 signing key.
    pub fn new_ed25519(secret_key: [u8; 32], hash: [u8; 32]) -> (r: Self)
        ensures
            r.cert_type.bits == CERT_TYPE_ED25519,
            r.secret_key == secret_key,
            r.hash == hash,
    {
        SigningKey { cert_type: SupportedCertificateTypes::ed25519(), hash, secret_key }
    }
}

// ---------------------------------------------------------------------------
// The extension
// ---------------------------------------------------------------------------
/// Certificate authentication protocol extension.
#[derive(Clone, Debug)]
pub enum CertAuthProtocolExtension {
    /// Server variant of certificate authentication protocol extension.
    Server {
        /// Supported certificate types on the server.
        cert_types: SupportedCertificateTypes,
        /// Random challenge for the client.
        challenge: Vec<u8>,
        /// Whether the server requires this authentication method.
        required: bool,
    },
    /// Client variant of certificate authentication protocol extension.
    Client {
        /// Chosen certificate type.
        cert_type: SupportedCertificateTypes,
        /// SHA-256 hash of public key.
        hash: [u8; 32],
        /// Signature of challenge.
        signature: Vec<u8>,
    },
    /// Marker that client has successfully recieved the challenge.
    ClientRecieved,
    /// Marker that server has successfully verified the client.
    ServerVerified,
}

/// Certificate authentication protocol extension builder.
#[derive(Clone, Debug)]
pub enum CertAuthProtocolExtensionBuilder {
    /// Server side before the challenge has been sent.
    ServerBeforeChallenge {
        /// Keypair verifiers.
        verifiers: Vec<VerifyKey>,
        /// Whether the server requires this authentication method.
        required: bool,
    },
    /// Server side after the challenge has been sent.
    ServerAfterChallenge {
        /// Keypair verifiers.
        verifiers: Vec<VerifyKey>,
        /// Challenge to verify against.
        challenge: Vec<u8>,
        /// Whether the server requires this authentication method.
        required: bool,
    },
    /// Client side before the challenge has been recieved.
    ClientBeforeChallenge {
        /// Keypair signer.
        signer: Option<SigningKey>,
    },
    /// Client side after the challenge has been recieved.
    ClientAfterChallenge {
        /// Keypair signer.
        signer: Option<SigningKey>,
        /// Supported certificate types recieved from the server.
        cert_types: SupportedCertificateTypes,
        /// Challenge recieved from the server.
        challenge: Vec<u8>,
        /// Whether the server requires this authentication method.
        required: bool,
    },
}

/// The abstract content of a certificate authentication extension.
pub enum CertAuthSpec {
    Server { cert_types: SupportedCertificateTypes, challenge: Seq<u8>, required: bool },
    Client { cert_type: SupportedCertificateTypes, hash: Seq<u8>, signature: Seq<u8> },
    ClientRecieved,
    ServerVerified,
}

/// The abstract content of a certificate authentication builder.
pub enum CertAuthBuilderSpec {
    ServerBeforeChallenge { verifiers: Seq<VerifyKey>, required: bool },
    ServerAfterChallenge { verifiers: Seq<VerifyKey>, challenge: Seq<u8>, required: bool },
    ClientBeforeChallenge { signer: Option<SigningKey> },
    ClientAfterChallenge {
        signer: Option<SigningKey>,
        cert_types: SupportedCertificateTypes,
        challenge: Seq<u8>,
        required: bool,
    },
}

impl View for CertAuthProtocolExtension {
    type V = CertAuthSpec;

    open spec fn view(&self) -> CertAuthSpec {
        match self {
            CertAuthProtocolExtension::Server { cert_types, challenge, required } => {
                CertAuthSpec::Server {
                    cert_types: *cert_types,
                    challenge: challenge@,
                    required: *required,
                }
            },
            CertAuthProtocolExtension::Client { cert_type, hash, signature } => {
                CertAuthSpec::Client {
                    cert_type: *cert_type,
                    hash: hash@,
                    signature: signature@,
                }
            },
            CertAuthProtocolExtension::ClientRecieved => CertAuthSpec::ClientRecieved,
            CertAuthProtocolExtension::ServerVerified => CertAuthSpec::ServerVerified,
        }
    }
}

impl View for CertAuthProtocolExtensionBuilder {
    type V = CertAuthBuilderSpec;

    open spec fn view(&self) -> CertAuthBuilderSpec {
        match self {
            CertAuthProtocolExtensionBuilder::ServerBeforeChallenge { verifiers, required } => {
                CertAuthBuilderSpec::ServerBeforeChallenge {
                    verifiers: verifiers@,
                    required: *required,
                }
            },
            CertAuthProtocolExtensionBuilder::ServerAfterChallenge {
                verifiers,
                challenge,
                required,
            } => CertAuthBuilderSpec::ServerAfterChallenge {
                verifiers: verifiers@,
                challenge: challenge@,
                required: *required,
            },
            CertAuthProtocolExtensionBuilder::ClientBeforeChallenge { signer } => {
                CertAuthBuilderSpec::ClientBeforeChallenge { signer: *signer }
            },
            CertAuthProtocolExtensionBuilder::ClientAfterChallenge {
                signer,
                cert_types,
                challenge,
                required,
            } => CertAuthBuilderSpec::ClientAfterChallenge {
                signer: *signer,
                cert_types: *cert_types,
                challenge: challenge@,
                required: *required,
            },
        }
    }
}

pub open spec fn bool_byte(b: bool) -> u8 {
    if b {
        1
    } else {
        0
    }
}

impl CertAuthSpec {
    /// The server sends whether the method is required, its certificate types
    /// and the challenge; the client sends its certificate type, its key hash
    /// and its signature.
    pub open spec fn spec_encode(self) -> Seq<u8> {
        match self {
            CertAuthSpec::Server { cert_types, challenge, required } => seq![
                bool_byte(required),
                cert_types.bits,
            ] + challenge,
            CertAuthSpec::Client { cert_type, hash, signature } => seq![cert_type.bits] + hash
                + signature,
            _ => seq![],
        }
    }
}

/// Some key among `verifiers` has the certificate type and hash the client
/// named and verifies its signature of the challenge.
pub open spec fn client_verified(
    verifiers: Seq<VerifyKey>,
    cert_type: SupportedCertificateTypes,
    hash: Seq<u8>,
    challenge: Seq<u8>,
    signature: Seq<u8>,
) -> bool {
    exists|i: int|
        0 <= i < verifiers.len() && #[trigger] verifiers[i].cert_type == cert_type
            && verifiers[i].hash@ == hash && ed25519_verifies(
            verifiers[i].public_key@,
            challenge,
            signature,
        )
}

impl CertAuthBuilderSpec {
    /// The bytes a builder in this state can be fed without running off their end.
    pub open spec fn accepts(self, b: Seq<u8>) -> bool {
        match self {
            CertAuthBuilderSpec::ServerAfterChallenge { .. } => b.len() >= 1 + KEY_HASH_LENGTH,
            CertAuthBuilderSpec::ClientBeforeChallenge { .. } => b.len() >= 2,
            _ => true,
        }
    }

    pub open spec fn is_required(self) -> Option<bool> {
        match self {
            CertAuthBuilderSpec::ServerBeforeChallenge { required, .. } => Some(required),
            CertAuthBuilderSpec::ServerAfterChallenge { required, .. } => Some(required),
            CertAuthBuilderSpec::ClientAfterChallenge { required, .. } => Some(required),
            CertAuthBuilderSpec::ClientBeforeChallenge { .. } => None,
        }
    }
}

/// What feeding the peer's bytes to a builder does: the builder state after,
/// and the extension built or the error. The server checks the client's
/// answer; the client takes in the challenge.
pub open spec fn spec_cert_from_bytes(b: CertAuthBuilderSpec, bytes: Seq<u8>) -> (
    CertAuthBuilderSpec,
    Result<CertAuthSpec, WispError>,
) {
    match b {
        CertAuthBuilderSpec::ServerAfterChallenge { verifiers, challenge, .. } => {
            let hash = bytes.subrange(1, 1 + KEY_HASH_LENGTH);
            let signature = bytes.skip(1 + KEY_HASH_LENGTH);
            match SupportedCertificateTypes::spec_from_bits(bytes[0]) {
                None => (b, Err(WispError::CertAuthExtensionSigInvalid)),
                Some(cert_type) => if signature.len() != SIGNATURE_LENGTH {
                    (b, Err(WispError::ExtensionImplError(ExtensionImplError::Ed25519)))
                } else if client_verified(verifiers, cert_type, hash, challenge, signature) {
                    (b, Ok(CertAuthSpec::ServerVerified))
                } else {
                    (b, Err(WispError::CertAuthExtensionSigInvalid))
                },
            }
        },
        CertAuthBuilderSpec::ClientBeforeChallenge { signer } => {
            match SupportedCertificateTypes::spec_from_bits(bytes[1]) {
                None => (b, Err(WispError::CertAuthExtensionCertTypeInvalid)),
                Some(cert_types) => (
                    CertAuthBuilderSpec::ClientAfterChallenge {
                        signer,
                        cert_types,
                        challenge: bytes.skip(2),
                        required: bytes[0] != 0,
                    },
                    Ok(CertAuthSpec::ClientRecieved),
                ),
            }
        },
        _ => (b, Err(WispError::ExtensionImplNotSupported)),
    }
}

/// What the server side does with a freshly drawn challenge.
pub open spec fn spec_cert_issue_challenge(b: CertAuthBuilderSpec, challenge: Seq<u8>) -> (
    CertAuthBuilderSpec,
    Result<CertAuthSpec, WispError>,
) {
    match b {
        CertAuthBuilderSpec::ServerBeforeChallenge { verifiers, required } => (
            CertAuthBuilderSpec::ServerAfterChallenge { verifiers, challenge, required },
            Ok(
                CertAuthSpec::Server {
                    cert_types: SupportedCertificateTypes { bits: CERT_TYPE_ED25519 },
                    challenge,
                    required,
                },
            ),
        ),
        _ => (b, Err(WispError::ExtensionImplNotSupported)),
    }
}

/// What building the client's answer yields.
pub open spec fn spec_cert_answer(b: CertAuthBuilderSpec) -> Result<CertAuthSpec, WispError> {
    match b {
        CertAuthBuilderSpec::ClientAfterChallenge { signer, challenge, cert_types, .. } => {
            match signer {
                None => Err(WispError::CertAuthExtensionNoKey),
                Some(s) => if !cert_types.spec_offers(s.cert_type) {
                    Err(WispError::CertAuthExtensionCertTypeInvalid)
                } else {
                    Ok(
                        CertAuthSpec::Client {
                            cert_type: s.cert_type,
                            hash: s.hash@,
                            signature: ed25519_signature(s.secret_key@, challenge),
                        },
                    )
                },
            }
        },
        _ => Err(WispError::ExtensionImplNotSupported),
    }
}

/// The challenge a server issues reaches its client: fed the server's
/// announcement, the client's builder holds the challenge, the
/// certificate types offered and whether the server requires the method.
pub proof fn lemma_cert_challenge_delivered(
    verifiers: Seq<VerifyKey>,
    required: bool,
    challenge: Seq<u8>,
    signer: Option<SigningKey>,
)
    ensures
        ({
            let server = CertAuthBuilderSpec::ServerBeforeChallenge { verifiers, required };
            let client = CertAuthBuilderSpec::ClientBeforeChallenge { signer };
            let announced = spec_cert_issue_challenge(server, challenge).1->Ok_0.spec_encode();
            &&& spec_cert_issue_challenge(server, challenge).1 is Ok
            &&& client.accepts(announced)
            &&& spec_cert_from_bytes(client, announced) == (
                CertAuthBuilderSpec::ClientAfterChallenge {
                    signer,
                    cert_types: SupportedCertificateTypes { bits: CERT_TYPE_ED25519 },
                    challenge,
                    required,
                },
                Ok::<CertAuthSpec, WispError>(CertAuthSpec::ClientRecieved),
            )
        }),
{
    let announced = seq![bool_byte(required), CERT_TYPE_ED25519] + challenge;
    assert(announced.skip(2) =~= challenge);
}

/// The server accepts a client's answer exactly when one of its keys, of
/// the client's certificate type and with the client's key hash, verifies
/// the client's signature of the server's challenge.
pub proof fn lemma_cert_answer_checked(
    verifiers: Seq<VerifyKey>,
    required: bool,
    challenge: Seq<u8>,
    signer: SigningKey,
    cert_types: SupportedCertificateTypes,
)
    requires
        cert_types.spec_offers(signer.cert_type),
        ed25519_signature(signer.secret_key@, challenge).len() == SIGNATURE_LENGTH,
    ensures
        ({
            let client = CertAuthBuilderSpec::ClientAfterChallenge {
                signer: Some(signer),
                cert_types,
                challenge,
                required,
            };
            let server = CertAuthBuilderSpec::ServerAfterChallenge { verifiers, challenge, required };
            let signature = ed25519_signature(signer.secret_key@, challenge);
            let answer = spec_cert_answer(client);
            &&& answer is Ok
            &&& server.accepts(answer->Ok_0.spec_encode())
            &&& spec_cert_from_bytes(server, answer->Ok_0.spec_encode()).1 == if client_verified(
                verifiers,
                signer.cert_type,
                signer.hash@,
                challenge,
                signature,
            ) {
                Ok::<CertAuthSpec, WispError>(CertAuthSpec::ServerVerified)
            } else {
                Err::<CertAuthSpec, WispError>(WispError::CertAuthExtensionSigInvalid)
            }
        }),
{
    let signature = ed25519_signature(signer.secret_key@, challenge);
    let bytes = seq![signer.cert_type.bits] + signer.hash@ + signature;
    assert(bytes.subrange(1, 1 + KEY_HASH_LENGTH as int) =~= signer.hash@);
    assert(bytes.skip(1 + KEY_HASH_LENGTH as int) =~= signature);
}

impl CertAuthProtocolExtension {
    /// ID of certificate authentication protocol extension.
    pub fn id() -> (r: u8)
        ensures
            r == CERT_AUTH_PROTOCOL_EXTENSION_ID,
    {
        CERT_AUTH_PROTOCOL_EXTENSION_ID
    }

    pub fn encode(&self) -> (r: Vec<u8>)
        ensures
            r@ == self@.spec_encode(),
    {
        match self {
            CertAuthProtocolExtension::Server { cert_types, challenge, required } => {
                let mut out: Vec<u8> = Vec::new();
                out.push(
                    if *required {
                        1u8
                    } else {
                        0u8
                    },
                );
                out.push(cert_types.bits);
                out.extend_from_slice(challenge.as_slice());
                assert(out@ =~= self@.spec_encode());
                out
            },
            CertAuthProtocolExtension::Client { cert_type, hash, signature } => {
                let mut out: Vec<u8> = Vec::new();
                out.push(cert_type.bits);
                out.extend_from_slice(hash.as_slice());
                out.extend_from_slice(signature.as_slice());
                assert(out@ =~= self@.spec_encode());
                out
            },
            _ => Vec::new(),
        }
    }
}

/// Whether the key's hash equals the `KEY_HASH_LENGTH` bytes at `pos`.
fn hash_matches(hash: &[u8; 32], b: &[u8], pos: usize) -> (r: bool)
    requires
        pos + KEY_HASH_LENGTH <= b@.len(),
    ensures
        r == (hash@ == b@.subrange(pos as int, pos + KEY_HASH_LENGTH)),
{
    let len = b.len();
    let mut i: usize = 0;
    while i < KEY_HASH_LENGTH
        invariant
            0 <= i <= KEY_HASH_LENGTH,
            len == b@.len(),
            pos + KEY_HASH_LENGTH <= b@.len(),
            hash@.len() == KEY_HASH_LENGTH,
            forall|k: int| 0 <= k < i ==> hash@[k] == b@[pos + k],
        decreases KEY_HASH_LENGTH - i,
    {
        if hash[i] != b[pos + i] {
            assert(hash@[i as int] != b@.subrange(pos as int, pos + KEY_HASH_LENGTH)[i as int]);
            return false;
        }
        i += 1;
    }
    assert(hash@ =~= b@.subrange(pos as int, pos + KEY_HASH_LENGTH));
    true
}

/// Whether some verifier accepts the client's answer.
fn any_verifier_accepts(
    verifiers: &Vec<VerifyKey>,
    cert_type: SupportedCertificateTypes,
    b: &[u8],
    challenge: &[u8],
) -> (r: bool)
    requires
        b@.len() == 1 + KEY_HASH_LENGTH + SIGNATURE_LENGTH,
    ensures
        r == client_verified(
            verifiers@,
            cert_type,
            b@.subrange(1, 1 + KEY_HASH_LENGTH),
            challenge@,
            b@.skip(1 + KEY_HASH_LENGTH),
        ),
{
    let signature = &b[1 + KEY_HASH_LENGTH..b.len()];
    assert(signature@ =~= b@.skip(1 + KEY_HASH_LENGTH));
    let mut i: usize = 0;
    while i < verifiers.len()
        invariant
            0 <= i <= verifiers@.len(),
            b@.len() == 1 + KEY_HASH_LENGTH + SIGNATURE_LENGTH,
            signature@ == b@.skip(1 + KEY_HASH_LENGTH),
            forall|k: int|
                0 <= k < i ==> !(#[trigger] verifiers@[k].cert_type == cert_type
                    && verifiers@[k].hash@ == b@.subrange(1, 1 + KEY_HASH_LENGTH)
                    && ed25519_verifies(verifiers@[k].public_key@, challenge@, signature@)),
        decreases verifiers@.len() - i,
    {
        let v = &verifiers[i];
        if v.cert_type == cert_type && hash_matches(&v.hash, b, 1) && dalek_verify(
            &v.public_key,
            challenge,
            signature,
        ) {
            return true;
        }
        i += 1;
    }
    false
}

impl CertAuthProtocolExtensionBuilder {
    /// Create a new server variant of the certificate authentication protocol extension.
    pub fn new_server(verifiers: Vec<VerifyKey>, required: bool) -> (r: Self)
        ensures
            r@ == (CertAuthBuilderSpec::ServerBeforeChallenge { verifiers: verifiers@, required }),
    {
        CertAuthProtocolExtensionBuilder::ServerBeforeChallenge { verifiers, required }
    }

    /// Create a new client variant of the certificate authentication protocol extension.
    pub fn new_client(signer: Option<SigningKey>) -> (r: Self)
        ensures
            r@ == (CertAuthBuilderSpec::ClientBeforeChallenge { signer }),
    {
        CertAuthProtocolExtensionBuilder::ClientBeforeChallenge { signer }
    }

    /// Get whether this authentication method is required. Could return None if the server has not
    /// sent the certificate authentication protocol extension.
    pub fn is_required(&self) -> (r: Option<bool>)
        ensures
            r == self@.is_required(),
    {
        match self {
            CertAuthProtocolExtensionBuilder::ServerBeforeChallenge { required, .. } => Some(
                *required,
            ),
            CertAuthProtocolExtensionBuilder::ServerAfterChallenge { required, .. } => Some(
                *required,
            ),
            CertAuthProtocolExtensionBuilder::ClientAfterChallenge { required, .. } => Some(
                *required,
            ),
            CertAuthProtocolExtensionBuilder::ClientBeforeChallenge { .. } => None,
        }
    }

    /// Set the key the client signs with, if this is a client variant.
    pub fn set_signing_key(&mut self, key: SigningKey)
        ensures
            match old(self)@ {
                CertAuthBuilderSpec::ClientBeforeChallenge { .. } => final(self)@
                    == CertAuthBuilderSpec::ClientBeforeChallenge { signer: Some(key) },
                CertAuthBuilderSpec::ClientAfterChallenge {
                    cert_types,
                    challenge,
                    required,
                    ..
                } => final(self)@ == CertAuthBuilderSpec::ClientAfterChallenge {
                    signer: Some(key),
                    cert_types,
                    challenge,
                    required,
                },
                _ => final(self)@ == old(self)@,
            },
    {
        match self {
            CertAuthProtocolExtensionBuilder::ClientBeforeChallenge { signer } => {
                *signer = Some(key);
            },
            CertAuthProtocolExtensionBuilder::ClientAfterChallenge { signer, .. } => {
                *signer = Some(key);
            },
            _ => {},
        }
    }

    /// Builds the extension the peer announced from its bytes.
    pub fn build_from_bytes(&mut self, bytes: &[u8]) -> (r: Result<
        CertAuthProtocolExtension,
        WispError,
    >)
        requires
            old(self)@.accepts(bytes@),
        ensures
            final(self)@ == spec_cert_from_bytes(old(self)@, bytes@).0,
            r matches Ok(e) ==> spec_cert_from_bytes(old(self)@, bytes@).1 == Ok::<
                CertAuthSpec,
                WispError,
            >(e@),
            r matches Err(e) ==> spec_cert_from_bytes(old(self)@, bytes@).1 == Err::<
                CertAuthSpec,
                WispError,
            >(e),
    {
        match self {
            CertAuthProtocolExtensionBuilder::ServerAfterChallenge { verifiers, challenge, .. } => {
                let cert_type = match SupportedCertificateTypes::from_bits(bytes[0]) {
                    Some(t) => t,
                    None => {
                        return Err(WispError::CertAuthExtensionSigInvalid);
                    },
                };
                if bytes.len() - (1 + KEY_HASH_LENGTH) != SIGNATURE_LENGTH {
                    return Err(WispError::ExtensionImplError(ExtensionImplError::Ed25519));
                }
                if any_verifier_accepts(verifiers, cert_type, bytes, challenge.as_slice()) {
                    Ok(CertAuthProtocolExtension::ServerVerified)
                } else {
                    Err(WispError::CertAuthExtensionSigInvalid)
                }
            },
            CertAuthProtocolExtensionBuilder::ClientBeforeChallenge { signer } => {
                let required = bytes[0] != 0;
                let cert_types = match SupportedCertificateTypes::from_bits(bytes[1]) {
                    Some(t) => t,
                    None => {
                        return Err(WispError::CertAuthExtensionCertTypeInvalid);
                    },
                };
                let challenge = vstd::slice::slice_to_vec(&bytes[2..bytes.len()]);
                assert(challenge@ =~= bytes@.skip(2));
                let signer = *signer;
                *self = CertAuthProtocolExtensionBuilder::ClientAfterChallenge {
                    signer,
                    cert_types,
                    challenge,
                    required,
                };
                Ok(CertAuthProtocolExtension::ClientRecieved)
            },
            _ => Err(WispError::ExtensionImplNotSupported),
        }
    }

    /// Server side: record the challenge just drawn and announce it.
    pub fn issue_challenge(&mut self, challenge: Vec<u8>) -> (r: Result<
        CertAuthProtocolExtension,
        WispError,
    >)
        ensures
            final(self)@ == spec_cert_issue_challenge(old(self)@, challenge@).0,
            r matches Ok(e) ==> spec_cert_issue_challenge(old(self)@, challenge@).1 == Ok::<
                CertAuthSpec,
                WispError,
            >(e@),
            r matches Err(e) ==> spec_cert_issue_challenge(old(self)@, challenge@).1 == Err::<
                CertAuthSpec,
                WispError,
            >(e),
    {
        let mut current = CertAuthProtocolExtensionBuilder::ClientBeforeChallenge { signer: None };
        std::mem::swap(self, &mut current);
        match current {
            CertAuthProtocolExtensionBuilder::ServerBeforeChallenge { verifiers, required } => {
                let announced = CertAuthProtocolExtension::Server {
                    cert_types: SupportedCertificateTypes::ed25519(),
                    challenge: challenge.clone(),
                    required,
                };
                *self = CertAuthProtocolExtensionBuilder::ServerAfterChallenge {
                    verifiers,
                    challenge,
                    required,
                };
                Ok(announced)
            },
            other => {
                *self = other;
                Err(WispError::ExtensionImplNotSupported)
            },
        }
    }

    /// Client side: sign the challenge with the key set, if the server offers its type.
    pub fn answer_challenge(&self) -> (r: Result<CertAuthProtocolExtension, WispError>)
        ensures
            r matches Ok(e) ==> spec_cert_answer(self@) == Ok::<CertAuthSpec, WispError>(e@),
            r matches Err(e) ==> spec_cert_answer(self@) == Err::<CertAuthSpec, WispError>(e),
    {
        match self {
            CertAuthProtocolExtensionBuilder::ClientAfterChallenge {
                signer,
                challenge,
                cert_types,
                ..
            } => match signer {
                None => Err(WispError::CertAuthExtensionNoKey),
                Some(s) => {
                    if !cert_types.offers(s.cert_type) {
                        return Err(WispError::CertAuthExtensionCertTypeInvalid);
                    }
                    let signature = dalek_sign(&s.secret_key, challenge.as_slice());
                    Ok(
                        CertAuthProtocolExtension::Client {
                            cert_type: s.cert_type,
                            hash: s.hash,
                            signature,
                        },
                    )
                },
            },
            _ => Err(WispError::ExtensionImplNotSupported),
        }
    }

    /// Builds the local extension to announce: on the server a fresh random
    /// challenge, on the client the signed answer. Which challenge the server
    /// draws is chance; whatever it is, the builder records and announces it.
    pub fn build_to_extension(&mut self) -> (r: Result<CertAuthProtocolExtension, WispError>)
        ensures
            old(self)@ is ServerBeforeChallenge ==> match r {
                Ok(e) => exists|c: Seq<u8>|
                    c.len() == CHALLENGE_LENGTH && final(self)@ == spec_cert_issue_challenge(
                        old(self)@,
                        c,
                    ).0 && spec_cert_issue_challenge(old(self)@, c).1 == Ok::<
                        CertAuthSpec,
                        WispError,
                    >(e@),
                Err(e) => e == WispError::ExtensionImplError(ExtensionImplError::Getrandom)
                    && final(self)@ == old(self)@,
            },
            !(old(self)@ is ServerBeforeChallenge) ==> final(self)@ == old(self)@ && match r {
                Ok(e) => spec_cert_answer(old(self)@) == Ok::<CertAuthSpec, WispError>(e@),
                Err(e) => spec_cert_answer(old(self)@) == Err::<CertAuthSpec, WispError>(e),
            },
    {
        match self {
            CertAuthProtocolExtensionBuilder::ServerBeforeChallenge { .. } => {
                match random_challenge() {
                    Ok(challenge) => {
                        let ghost c = challenge@;
                        self.issue_challenge(challenge)
                    },
                    Err(_) => Err(WispError::ExtensionImplError(ExtensionImplError::Getrandom)),
                }
            },
            _ => self.answer_challenge(),
        }
    }
}

/// An independent copy of a list of verification keys.
fn duplicate_verifiers(v: &Vec<VerifyKey>) -> (r: Vec<VerifyKey>)
    ensures
        r@ == v@,
{
    let mut out: Vec<VerifyKey> = Vec::new();
    let mut i: usize = 0;
    while i < v.len()
        invariant
            0 <= i <= v@.len(),
            out@ =~= v@.take(i as int),
        decreases v@.len() - i,
    {
        out.push(v[i]);
        i += 1;
    }
    assert(v@.take(i as int) =~= v@);
    out
}

/// An independent copy of a byte vector.
fn duplicate_bytes(v: &Vec<u8>) -> (r: Vec<u8>)
    ensures
        r@ == v@,
{
    vstd::slice::slice_to_vec(v.as_slice())
}

impl CertAuthProtocolExtensionBuilder {
    /// An independent copy of this builder.
    pub fn duplicate(&self) -> (r: Self)
        ensures
            r@ == self@,
    {
        match self {
            CertAuthProtocolExtensionBuilder::ServerBeforeChallenge { verifiers, required } => {
                CertAuthProtocolExtensionBuilder::ServerBeforeChallenge {
                    verifiers: duplicate_verifiers(verifiers),
                    required: *required,
                }
            },
            CertAuthProtocolExtensionBuilder::ServerAfterChallenge {
                verifiers,
                challenge,
                required,
            } => CertAuthProtocolExtensionBuilder::ServerAfterChallenge {
                verifiers: duplicate_verifiers(verifiers),
                challenge: duplicate_bytes(challenge),
                required: *required,
            },
            CertAuthProtocolExtensionBuilder::ClientBeforeChallenge { signer } => {
                CertAuthProtocolExtensionBuilder::ClientBeforeChallenge { signer: *signer }
            },
            CertAuthProtocolExtensionBuilder::ClientAfterChallenge {
                signer,
                cert_types,
                challenge,
                required,
            } => CertAuthProtocolExtensionBuilder::ClientAfterChallenge {
                signer: *signer,
                cert_types: *cert_types,
                challenge: duplicate_bytes(challenge),
                required: *required,
            },
        }
    }
}

} // verus!
