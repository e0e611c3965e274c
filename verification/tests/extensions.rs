use ed25519_dalek::{Signer, SigningKey as DalekSigningKey};
use sha2::Digest;

use epoxy::error::WispError;
use epoxy::extensions::cert::{
    CertAuthProtocolExtension, CertAuthProtocolExtensionBuilder, SigningKey,
    SupportedCertificateTypes, VerifyKey,
};
use epoxy::extensions::motd::{MotdProtocolExtension, MotdProtocolExtensionBuilder};
use epoxy::extensions::password::{PasswordProtocolExtension, PasswordProtocolExtensionBuilder};
use epoxy::extensions::{AnyProtocolExtension, AnyProtocolExtensionBuilder};
use epoxy::Role;

fn keypair(seed: u8) -> (SigningKey, VerifyKey) {
    let secret = [seed; 32];
    let public = DalekSigningKey::from_bytes(&secret).verifying_key().to_bytes();
    let hash: [u8; 32] = sha2::Sha256::digest(public).into();
    (SigningKey::new_ed25519(secret, hash), VerifyKey::new_ed25519(public, hash))
}

#[test]
fn motd_delivered_to_client() {
    let mut server = MotdProtocolExtensionBuilder::new_server("welcome".to_string());
    let ext = server.build_to_extension(Role::Server);
    let bytes = ext.encode();
    assert_eq!(bytes, b"welcome".to_vec());
    let client = MotdProtocolExtensionBuilder::new_client();
    let got = client.build_from_bytes(&bytes, Role::Client).unwrap();
    assert_eq!(got.motd, "welcome");
    assert!(matches!(
        client.build_from_bytes(&[0xff], Role::Client),
        Err(WispError::ExtensionImplError(_))
    ));
    let mine = MotdProtocolExtension { role: Role::Client, motd: String::new() };
    assert!(mine.encode().is_empty());
}

#[test]
fn password_login_accepted_and_refused() {
    let users = vec![("alice".to_string(), "pw".to_string())];
    let mut client = PasswordProtocolExtensionBuilder::new_client(None);
    client.set_creds(("alice".to_string(), "pw".to_string()));
    // the server's announcement tells the client the method is required
    let _ = client.build_from_bytes(&[1]).unwrap();
    assert_eq!(client.is_required(), Some(true));
    let answer = client.build_to_extension().unwrap();
    let bytes = answer.encode();
    assert_eq!(bytes, b"\x05alicepw".to_vec());

    let mut server = PasswordProtocolExtensionBuilder::new_server(users.clone(), true);
    match server.build_from_bytes(&bytes).unwrap() {
        PasswordProtocolExtension::ServerAfterClientInfo { chosen_user, chosen_password } => {
            assert_eq!(chosen_user, "alice");
            assert_eq!(chosen_password, "pw");
        }
        _ => panic!("expected the chosen credentials"),
    }

    let mut server = PasswordProtocolExtensionBuilder::new_server(users, true);
    assert!(matches!(
        server.build_from_bytes(b"\x05alicewrong"),
        Err(WispError::PasswordExtensionCredsInvalid)
    ));
    let mut server = PasswordProtocolExtensionBuilder::new_server(vec![], false);
    assert!(matches!(server.build_from_bytes(&[1, 0xff]), Err(WispError::Utf8)));
}

#[test]
fn password_client_without_creds() {
    let mut client = PasswordProtocolExtensionBuilder::new_client(None);
    assert_eq!(client.is_required(), None);
    let _ = client.build_from_bytes(&[0]).unwrap();
    assert_eq!(client.is_required(), Some(false));
    assert!(matches!(client.build_to_extension(), Err(WispError::PasswordExtensionNoCreds)));
    let ann = PasswordProtocolExtensionBuilder::new_server(vec![], true).build_to_extension().unwrap();
    assert_eq!(ann.encode(), vec![1]);
}

#[test]
fn cert_auth_accepts_matching_key() {
    let (signing, verify) = keypair(7);
    let mut server = CertAuthProtocolExtensionBuilder::new_server(vec![verify], true);
    let announced = server.build_to_extension().unwrap().encode();
    assert_eq!(announced.len(), 2 + 64);
    assert_eq!(&announced[..2], &[1, 1]);

    let mut client = CertAuthProtocolExtensionBuilder::new_client(Some(signing));
    assert!(matches!(client.build_from_bytes(&announced).unwrap(), CertAuthProtocolExtension::ClientRecieved));
    assert_eq!(client.is_required(), Some(true));
    let answer = client.build_to_extension().unwrap().encode();
    assert_eq!(answer.len(), 1 + 32 + 64);
    // the signature is the key's signature of the challenge
    let expected_sig = DalekSigningKey::from_bytes(&[7; 32]).sign(&announced[2..]).to_bytes();
    assert_eq!(&answer[33..], &expected_sig[..]);

    assert!(matches!(server.build_from_bytes(&answer).unwrap(), CertAuthProtocolExtension::ServerVerified));
}

#[test]
fn cert_auth_refuses_other_key_and_bad_input() {
    let (_, verify) = keypair(1);
    let (other, _) = keypair(2);
    let mut server = CertAuthProtocolExtensionBuilder::new_server(vec![verify], false);
    let announced = server.build_to_extension().unwrap().encode();
    let mut client = CertAuthProtocolExtensionBuilder::new_client(Some(other));
    client.build_from_bytes(&announced).unwrap();
    let answer = client.build_to_extension().unwrap().encode();
    assert!(matches!(server.build_from_bytes(&answer), Err(WispError::CertAuthExtensionSigInvalid)));

    let mut fresh = CertAuthProtocolExtensionBuilder::new_client(None);
    assert!(matches!(fresh.build_from_bytes(&[1, 4]), Err(WispError::CertAuthExtensionCertTypeInvalid)));
    let mut keyless = CertAuthProtocolExtensionBuilder::new_client(None);
    keyless.build_from_bytes(&announced).unwrap();
    assert!(matches!(keyless.build_to_extension(), Err(WispError::CertAuthExtensionNoKey)));
}

#[test]
fn certificate_type_flags() {
    assert_eq!(SupportedCertificateTypes::ed25519().bits(), 1);
    assert!(SupportedCertificateTypes::from_bits(2).is_none());
    let all = SupportedCertificateTypes::from_bits(1).unwrap();
    assert!(all.offers(SupportedCertificateTypes::ed25519()));
    let none = SupportedCertificateTypes::from_bits(0).unwrap();
    assert!(!none.offers(SupportedCertificateTypes::ed25519()));
}

#[test]
fn any_builder_dispatch() {
    let mut b = AnyProtocolExtensionBuilder::Motd(MotdProtocolExtensionBuilder::new_server("m".to_string()));
    assert_eq!(b.get_id(), 4);
    let e = b.build_to_extension(Role::Server).unwrap();
    assert_eq!(e.get_id(), 4);
    assert!(e.is_encodable());
    assert_eq!(e.encode(), b"m".to_vec());
    let mut rec = Vec::new();
    e.encode_into(&mut rec);
    assert_eq!(rec, vec![4, 1, 0, 0, 0, b'm']);
    assert!(matches!(e, AnyProtocolExtension::Motd(_)));
    let p = AnyProtocolExtensionBuilder::Password(PasswordProtocolExtensionBuilder::new_server(vec![], false));
    assert!(!p.accepts(&[]));
    assert!(p.accepts(&[0]));
    assert!(!p.accepts(&[3, b'a']));
    let long_user = PasswordProtocolExtension::ClientAfterServerInfo { user: "u".repeat(256), password: String::new() };
    assert!(!long_user.is_encodable());
    assert!(!AnyProtocolExtension::Password(long_user).is_encodable());
}
