use epoxy::client::error::{fmt_option, EpoxyError};
use epoxy::client::extension::{
    CertAuthProtocolExtension, CertAuthProtocolExtensionBuilder,
    CertAuthProtocolExtensionBuilderRef, JsWispV2Handshake, MotdProtocolExtension,
    MotdProtocolExtensionBuilder, MotdProtocolExtensionBuilderRef, PasswordProtocolExtension,
    PasswordProtocolExtensionBuilder, PasswordProtocolExtensionBuilderRef,
    ProtocolExtensionBuilders, UdpProtocolExtensionBuilder,
};
use epoxy::client::http::{
    header_contains_token, is_null_body, is_redirect, protocol_header, status_text,
    validate_ws_upgrade, websocket_accept_value, Redirect, RedirectAction, RedirectPolicy,
    UpgradeResponse,
};
use epoxy::client::provider::{
    connect_target, h2_negotiated, ExpireConfig, ExpireState, ProviderServiceReq, TlsStreamInfo,
    Transport,
};
use epoxy::client::websocket::{
    ws_read_event, ws_write_event, WsOpcode, WsReadError, WsReadEvent, WsWriteEvent,
};
use epoxy::extensions::cert::CertAuthProtocolExtension as WispCert;
use epoxy::extensions::cert::SupportedCertificateTypes;
use epoxy::extensions::motd::MotdProtocolExtension as WispMotd;
use epoxy::extensions::password::PasswordProtocolExtension as WispPassword;
use epoxy::Role;

fn good_response(key: &str) -> UpgradeResponse {
    UpgradeResponse {
        status: 101,
        connection: Some("keep-alive, Upgrade".to_string()),
        upgrade: Some("websocket".to_string()),
        has_extensions: false,
        protocol: None,
        accept: Some(format!(" {} ", websocket_accept_value(key))),
    }
}

#[test]
fn accept_value_of_rfc_example() {
    assert_eq!(websocket_accept_value("dGhlIHNhbXBsZSBub25jZQ=="), "s3pPLMBiTxaQ9kYGzzhZRbK+xOo=");
    assert_eq!(websocket_accept_value(" \tdGhlIHNhbXBsZSBub25jZQ== "), "s3pPLMBiTxaQ9kYGzzhZRbK+xOo=");
}

#[test]
fn header_tokens() {
    assert!(header_contains_token("keep-alive, Upgrade", "upgrade"));
    assert!(header_contains_token("\tUPGRADE\t", "upgrade"));
    assert!(!header_contains_token("upgrades", "upgrade"));
    assert!(!header_contains_token("", "upgrade"));
    assert!(header_contains_token("a,,b", ""));
}

#[test]
fn upgrade_validation() {
    let key = "dGhlIHNhbXBsZSBub25jZQ==";
    let expected = websocket_accept_value(key);
    let none: Vec<String> = vec![];
    assert!(validate_ws_upgrade(&good_response(key), &none, &expected).is_ok());

    let mut r = good_response(key);
    r.status = 200;
    assert!(matches!(validate_ws_upgrade(&r, &none, &expected), Err(EpoxyError::WsStatusCode(200))));
    let mut r = good_response(key);
    r.connection = Some("close".to_string());
    assert!(matches!(validate_ws_upgrade(&r, &none, &expected), Err(EpoxyError::WsMissingConnection)));
    let mut r = good_response(key);
    r.upgrade = None;
    assert!(matches!(validate_ws_upgrade(&r, &none, &expected), Err(EpoxyError::WsMissingUpgrade)));
    let mut r = good_response(key);
    r.has_extensions = true;
    assert!(matches!(validate_ws_upgrade(&r, &none, &expected), Err(EpoxyError::WsUnexpectedExtensions)));
    let mut r = good_response(key);
    r.protocol = Some(" chat ".to_string());
    assert!(matches!(validate_ws_upgrade(&r, &none, &expected), Err(EpoxyError::WsProtocol(Some(p))) if p == "chat"));
    let asked = vec!["chat".to_string(), "superchat".to_string()];
    assert!(validate_ws_upgrade(&r, &asked, &expected).is_ok());
    let mut r = good_response(key);
    r.protocol = None;
    assert!(matches!(validate_ws_upgrade(&r, &asked, &expected), Err(EpoxyError::WsProtocol(None))));
    let mut r = good_response(key);
    r.accept = Some("wrong".to_string());
    assert!(matches!(validate_ws_upgrade(&r, &none, &expected), Err(EpoxyError::WsAccept(Some(a))) if a == "wrong"));
    let mut r = good_response(key);
    r.accept = None;
    assert!(matches!(validate_ws_upgrade(&r, &none, &expected), Err(EpoxyError::WsAccept(None))));
}

#[test]
fn protocol_headers() {
    assert_eq!(protocol_header(&vec![]), None);
    assert_eq!(protocol_header(&vec!["a".to_string()]), Some("a".to_string()));
    assert_eq!(protocol_header(&vec!["a".to_string(), "b".to_string(), "c".to_string()]), Some("a, b, c".to_string()));
}

#[test]
fn redirects_follow_twenty() {
    let mut p = Redirect::Follow.into_policy();
    assert_eq!(p, RedirectPolicy::Follow { remaining: 20 });
    for _ in 0..20 {
        assert!(matches!(p.redirect(), Ok(RedirectAction::Follow)));
    }
    assert!(matches!(p.redirect(), Err(EpoxyError::TooManyRedirects)));
    let mut m = Redirect::Manual.into_policy();
    assert!(matches!(m.redirect(), Ok(RedirectAction::Stop)));
    let mut e = Redirect::Error.into_policy();
    assert!(matches!(e.redirect(), Err(EpoxyError::RedirectDisallowed)));
}

#[test]
fn status_codes_and_text() {
    for c in [301, 302, 303, 307, 308] {
        assert!(is_redirect(c));
    }
    assert!(!is_redirect(304));
    for c in [101, 204, 205, 304] {
        assert!(is_null_body(c));
    }
    assert!(!is_null_body(200));
    assert_eq!(status_text(&Some(b"Fine".to_vec()), true, &None), "Fine");
    assert_eq!(status_text(&Some(vec![b'a', 0xff]), false, &None), "a\u{fffd}");
    assert_eq!(status_text(&None, true, &Some("OK".to_string())), "");
    assert_eq!(status_text(&None, false, &Some("OK".to_string())), "OK");
    assert_eq!(status_text(&None, false, &None), "");
}

#[test]
fn connection_targets() {
    let t = connect_target(Some("https".into()), Some("example.com".into()), None).unwrap();
    assert_eq!((t.host.as_str(), t.port, t.transport), ("example.com", 443, Transport::TlsHttp));
    let t = connect_target(Some("ws".into()), Some("h".into()), Some(8080)).unwrap();
    assert_eq!((t.port, t.transport), (8080, Transport::Plain));
    let t = connect_target(Some("wss".into()), Some("h".into()), None).unwrap();
    assert_eq!((t.port, t.transport), (443, Transport::Tls));
    let t = connect_target(Some("http".into()), Some("h".into()), None).unwrap();
    assert_eq!(t.port, 80);
    assert!(matches!(connect_target(None, Some("h".into()), None), Err(EpoxyError::InvalidUrlScheme(None))));
    assert!(matches!(connect_target(Some("http".into()), None, None), Err(EpoxyError::NoUrlHost)));
    assert!(matches!(connect_target(Some("ftp".into()), Some("h".into()), None), Err(EpoxyError::NoUrlPort)));
    assert!(matches!(
        connect_target(Some("ftp".into()), Some("h".into()), Some(21)),
        Err(EpoxyError::InvalidUrlScheme(Some(s))) if s == "ftp"
    ));
    assert!(h2_negotiated(&Some(b"h2".to_vec())));
    assert!(!h2_negotiated(&Some(b"http/1.1".to_vec())));
    assert!(!h2_negotiated(&None));
    let req = ProviderServiceReq { host: "h".into(), port: 1 };
    assert_eq!(req.port, 1);
}

#[test]
fn tls_info_taken_once() {
    let mut info = TlsStreamInfo::new(Some("h2".into()), Some("TLSv1_3".into()), None, Some(vec![vec![1, 2]]));
    assert_eq!(info.negotiated_protocol(), Some("h2".to_string()));
    assert_eq!(info.negotiated_protocol(), None);
    assert_eq!(info.protocol_version(), Some("TLSv1_3".to_string()));
    assert_eq!(info.cipher_suite(), None);
    assert_eq!(info.peer_certificates(), Some(vec![vec![1, 2]]));
    assert_eq!(info.peer_certificates(), None);
}

#[test]
fn connection_expiry() {
    let config = ExpireConfig { idle_timeout: 10, max_lifetime: 100 };
    let mut state = ExpireState::new(1000);
    assert!(!state.is_expired(&config, 1009));
    assert!(state.is_expired(&config, 1010));
    state.touch(1050);
    assert!(!state.is_expired(&config, 1055));
    state.touch(1095);
    assert!(state.is_expired(&config, 1100));
    assert!(!state.is_expired(&config, 900));
}

#[test]
fn write_events_to_frames() {
    let f = ws_write_event(WsWriteEvent::text("hé".to_string()));
    assert_eq!((f.opcode, f.payload), (WsOpcode::Text, "hé".as_bytes().to_vec()));
    let f = ws_write_event(WsWriteEvent::binary(vec![1, 2]));
    assert_eq!((f.opcode, f.payload), (WsOpcode::Binary, vec![1, 2]));
    let f = ws_write_event(WsWriteEvent::close(None, None));
    assert_eq!((f.opcode, f.payload), (WsOpcode::Close, vec![]));
    let f = ws_write_event(WsWriteEvent::close(None, Some("bye".to_string())));
    assert_eq!(f.payload, vec![0x03, 0xe8, b'b', b'y', b'e']);
    let f = ws_write_event(WsWriteEvent::close(Some(4000), None));
    assert_eq!(f.payload, vec![0x0f, 0xa0]);
}

#[test]
fn frames_to_read_events() {
    assert!(matches!(ws_read_event(WsOpcode::Text, b"hi".to_vec()), Ok(Some(WsReadEvent::Text(s))) if s == "hi"));
    assert_eq!(ws_read_event(WsOpcode::Text, vec![0xff]).unwrap_err(), WsReadError::InvalidText);
    assert!(matches!(ws_read_event(WsOpcode::Binary, vec![9]), Ok(Some(WsReadEvent::Binary(b))) if b == vec![9]));
    assert!(matches!(
        ws_read_event(WsOpcode::Close, vec![0x03, 0xe8, b'o', 0xff]),
        Ok(Some(WsReadEvent::Close { code: Some(1000), reason: Some(r) })) if r == "o\u{fffd}"
    ));
    assert!(matches!(ws_read_event(WsOpcode::Close, vec![0x03, 0xe8]), Ok(Some(WsReadEvent::Close { code: Some(1000), reason: None }))));
    assert!(matches!(ws_read_event(WsOpcode::Close, vec![1]), Ok(Some(WsReadEvent::Close { code: None, reason: None }))));
    assert!(matches!(ws_read_event(WsOpcode::Ping, vec![]), Ok(None)));
    assert_eq!(ws_read_event(WsOpcode::Continuation, vec![]).unwrap_err(), WsReadError::UnexpectedContinuation);
}

#[test]
fn page_extension_views() {
    let server = epoxy::extensions::motd::MotdProtocolExtensionBuilder::new_server("m".into());
    let r = MotdProtocolExtensionBuilderRef { inner: &server, in_scope: true };
    assert_eq!(r.motd().unwrap(), Some("m".to_string()));
    assert!(!r.is_client().unwrap());
    let gone = MotdProtocolExtensionBuilderRef { inner: &server, in_scope: false };
    assert!(matches!(gone.motd(), Err(EpoxyError::InvalidJsValue(m)) if m == "MotdProtocolExtensionBuilderRef escaped its valid scope"));

    let ext = WispMotd { role: Role::Client, motd: "hello".into() };
    assert_eq!(MotdProtocolExtension { inner: &ext, in_scope: true }.motd().unwrap(), "hello");

    let pw = WispPassword::ServerBeforeClientInfo { required: true };
    let v = PasswordProtocolExtension { inner: &pw, in_scope: true };
    assert_eq!(v.required().unwrap(), Some(true));
    assert_eq!(v.user().unwrap(), None);
    let chosen = WispPassword::ServerAfterClientInfo { chosen_user: "u".into(), chosen_password: "p".into() };
    assert_eq!(PasswordProtocolExtension { inner: &chosen, in_scope: true }.chosen_user().unwrap(), Some("u".to_string()));
    let client = WispPassword::ClientAfterServerInfo { user: "me".into(), password: "x".into() };
    assert_eq!(PasswordProtocolExtension { inner: &client, in_scope: true }.user().unwrap(), Some("me".to_string()));
    assert!(PasswordProtocolExtension { inner: &client, in_scope: false }.user().is_err());

    let pb = PasswordProtocolExtensionBuilder::new_client(Some("u".into()), None);
    assert_eq!(PasswordProtocolExtensionBuilderRef { inner: &pb.0, in_scope: true }.is_required().unwrap(), None);
    let cb = CertAuthProtocolExtensionBuilder::new_server(true);
    assert_eq!(CertAuthProtocolExtensionBuilderRef { inner: &cb.0, in_scope: true }.is_required().unwrap(), Some(true));
    let cert = WispCert::Server { cert_types: SupportedCertificateTypes::ed25519(), challenge: vec![], required: false };
    assert_eq!(CertAuthProtocolExtension { inner: &cert, in_scope: true }.required().unwrap(), Some(false));
}

#[test]
fn page_builders_in_order() {
    let mut b = ProtocolExtensionBuilders::new();
    b.udp(UdpProtocolExtensionBuilder::new_client());
    b.motd(MotdProtocolExtensionBuilder::new_client());
    b.password(PasswordProtocolExtensionBuilder::new_server(false));
    b.cert(CertAuthProtocolExtensionBuilder::new_client());
    let ids: Vec<u8> = b.0.iter().map(|x| x.get_id()).collect();
    assert_eq!(ids, vec![1, 4, 2, 3]);
    let h = JsWispV2Handshake::new(b, "middleware");
    assert_eq!(h.0.builders.len(), 4);
    assert_eq!(h.0.closure, Some("middleware"));
    assert!(h.0.required.is_empty());
    let _ = UdpProtocolExtensionBuilder::new_server();
}

#[test]
fn optional_values_in_messages() {
    assert_eq!(fmt_option(&Some("x".to_string())), "x");
    assert_eq!(fmt_option(&None), "None");
}
