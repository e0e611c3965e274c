use base64::Engine;
use sha2::Digest;

use epoxy::error::WispError;
use epoxy::packet::{CloseReason, ConnectPacket, StreamType};
use epoxy::server::handle::{
    classify_frame, forward_close_reason, resolved_close_reason, wsproxy_resolved_close,
    wsproxy_stream_close, wsproxy_target, FrameKind, StreamKind, WebSocketFrame, WsProxyClose,
    INTERNAL_SERVER_ERROR, POLICY_VIOLATION,
};
use epoxy::server::ip::{ipv4_is_global, ipv6_is_global, IpAddress};
use epoxy::server::ip_literal::parse_ip_literal;
use epoxy::server::keys::{verify_key_from_pem_file, KeyFileError};
use epoxy::server::policy::{
    first_usable_address, ranges_contain, resolved_from_lookup, wispnet_server_id, HostFilter,
    PortRange, ResolvedPacket, Resolution, StreamPolicy, WispnetHostError,
};
use epoxy::server::route::{
    autoconfigure_target, first_header_value, html_escape, route_request, websocket_url,
    HttpRoute, RouteConfig,
};
use epoxy::server::stats::{format_stream_type, StreamStats};
use epoxy::server::wispnet::{WispnetServerProtocolExtension, WispnetServerProtocolExtensionBuilder};

fn filter(patterns: &[&str]) -> HostFilter {
    HostFilter::new(&patterns.iter().map(|p| p.to_string()).collect()).unwrap()
}

fn open_policy() -> StreamPolicy {
    StreamPolicy {
        has_wispnet: true,
        allow_udp: true,
        blocked_ports: vec![PortRange { start: 25, end: 25 }],
        allowed_ports: vec![],
        allow_direct_ip: true,
        allow_loopback: false,
        allow_multicast: false,
        allow_global: true,
        allow_non_global: false,
        allowed_hosts: filter(&[]),
        blocked_hosts: filter(&[r"\.onion$"]),
        allowed_tcp_hosts: filter(&[]),
        blocked_tcp_hosts: filter(&[r"^blocked\.example$"]),
        allowed_udp_hosts: filter(&[]),
        blocked_udp_hosts: filter(&[]),
        resolve_ipv6: false,
    }
}

fn connect(ty: StreamType, host: &str, port: u16) -> ConnectPacket {
    ConnectPacket { stream_type: ty, host: host.to_string(), port }
}

fn resolved(policy: &StreamPolicy, p: ConnectPacket, ip: Option<IpAddress>) -> Resolution {
    policy.resolve_with_ip(p, ip).unwrap()
}

#[test]
fn ipv4_global_ranges() {
    assert!(ipv4_is_global([8, 8, 8, 8]));
    assert!(!ipv4_is_global([10, 0, 0, 1]));
    assert!(!ipv4_is_global([172, 16, 0, 1]));
    assert!(ipv4_is_global([172, 32, 0, 1]));
    assert!(!ipv4_is_global([192, 168, 1, 1]));
    assert!(!ipv4_is_global([100, 64, 0, 1]));
    assert!(!ipv4_is_global([127, 0, 0, 1]));
    assert!(!ipv4_is_global([169, 254, 0, 1]));
    assert!(!ipv4_is_global([192, 0, 0, 8]));
    assert!(ipv4_is_global([192, 0, 0, 9]));
    assert!(ipv4_is_global([192, 0, 0, 10]));
    assert!(!ipv4_is_global([198, 51, 100, 1]));
    assert!(!ipv4_is_global([198, 18, 0, 1]));
    assert!(!ipv4_is_global([240, 0, 0, 1]));
    assert!(!ipv4_is_global([255, 255, 255, 255]));
    assert!(!ipv4_is_global([0, 1, 2, 3]));
}

#[test]
fn ipv6_global_ranges() {
    assert!(ipv6_is_global([0x2606, 0x4700, 0, 0, 0, 0, 0, 0x1111]));
    assert!(!ipv6_is_global([0; 8]));
    assert!(!ipv6_is_global([0xfe80, 0, 0, 0, 0, 0, 0, 1]));
    assert!(!ipv6_is_global([0xfebf, 0xffff, 0, 0, 0, 0, 0, 1]));
    assert!(ipv6_is_global([0xfec0, 0, 0, 0, 0, 0, 0, 1]));
    assert!(!ipv6_is_global([0, 0, 0, 0, 0, 0, 0, 1]));
    assert!(!ipv6_is_global([0, 0, 0, 0, 0, 0xffff, 0x0a00, 1]));
    assert!(!ipv6_is_global([0x64, 0xff9b, 1, 0, 0, 0, 0, 1]));
    assert!(!ipv6_is_global([0x100, 0, 0, 0, 1, 2, 3, 4]));
    assert!(!ipv6_is_global([0x2001, 0, 0, 0, 0, 0, 0, 1]));
    assert!(ipv6_is_global([0x2001, 1, 0, 0, 0, 0, 0, 1]));
    assert!(ipv6_is_global([0x2001, 3, 0, 0, 0, 0, 0, 1]));
    assert!(ipv6_is_global([0x2001, 0x20, 0, 0, 0, 0, 0, 1]));
    assert!(!ipv6_is_global([0x2001, 0xdb8, 0, 0, 0, 0, 0, 1]));
    assert!(!ipv6_is_global([0x2002, 0, 0, 0, 0, 0, 0, 1]));
    assert!(!ipv6_is_global([0xfc00, 0, 0, 0, 0, 0, 0, 1]));
    assert!(!ipv6_is_global([0xfd12, 0, 0, 0, 0, 0, 0, 1]));
    let v6 = IpAddress::V6([0xff02, 0, 0, 0, 0, 0, 0, 1]);
    assert!(v6.is_multicast());
    assert!(!v6.is_ipv4());
    assert!(IpAddress::V4([127, 0, 0, 1]).is_loopback());
    assert!(IpAddress::V4([224, 0, 0, 1]).is_multicast());
    assert!(!IpAddress::V4([127, 0, 0, 1]).is_global());
}

#[test]
fn host_patterns() {
    let f = filter(&[r"^a\.com$", r"b"]);
    assert!(f.is_match("a.com"));
    assert!(f.is_match("xbx"));
    assert!(!f.is_match("aa.com"));
    assert!(!filter(&[]).is_match("anything"));
    assert!(HostFilter::new(&vec!["(".to_string()]).is_none());
}

#[test]
fn port_ranges() {
    let ranges = vec![PortRange { start: 10, end: 20 }, PortRange { start: 30, end: 30 }];
    assert!(ranges_contain(&ranges, 10));
    assert!(ranges_contain(&ranges, 20));
    assert!(ranges_contain(&ranges, 30));
    assert!(!ranges_contain(&ranges, 21));
    assert!(!ranges_contain(&vec![], 1));
}

#[test]
fn policy_decisions() {
    let policy = open_policy();
    assert!(matches!(resolved(&policy, connect(StreamType::Tcp, "example.com", 443), None), Resolution::Lookup(_)));
    assert!(matches!(
        resolved(&policy, connect(StreamType::Other(3), "x", 1), None),
        Resolution::Resolved(ResolvedPacket::Invalid)
    ));
    assert!(matches!(
        resolved(&policy, connect(StreamType::Tcp, "example.com", 25), None),
        Resolution::Resolved(ResolvedPacket::Blocked)
    ));
    assert!(matches!(
        resolved(&policy, connect(StreamType::Tcp, "blocked.example", 80), None),
        Resolution::Resolved(ResolvedPacket::Blocked)
    ));
    // the TCP list does not apply to UDP
    assert!(matches!(resolved(&policy, connect(StreamType::Udp, "blocked.example", 53), None), Resolution::Lookup(_)));
    assert!(matches!(
        resolved(&policy, connect(StreamType::Tcp, "hidden.onion", 80), None),
        Resolution::Resolved(ResolvedPacket::Blocked)
    ));
    assert!(matches!(
        resolved(&policy, connect(StreamType::Tcp, "127.0.0.1", 80), Some(IpAddress::V4([127, 0, 0, 1]))),
        Resolution::Resolved(ResolvedPacket::Blocked)
    ));
    assert!(matches!(
        resolved(&policy, connect(StreamType::Tcp, "10.0.0.1", 80), Some(IpAddress::V4([10, 0, 0, 1]))),
        Resolution::Resolved(ResolvedPacket::Blocked)
    ));
    assert!(matches!(
        resolved(&policy, connect(StreamType::Tcp, "8.8.8.8", 53), Some(IpAddress::V4([8, 8, 8, 8]))),
        Resolution::Lookup(_)
    ));
    let mut no_udp = open_policy();
    no_udp.allow_udp = false;
    assert!(matches!(
        resolved(&no_udp, connect(StreamType::Udp, "example.com", 53), None),
        Resolution::Resolved(ResolvedPacket::Blocked)
    ));
    let mut allowed_port = open_policy();
    allowed_port.allowed_ports = vec![PortRange { start: 20, end: 30 }];
    assert!(matches!(resolved(&allowed_port, connect(StreamType::Tcp, "example.com", 25), None), Resolution::Lookup(_)));
}

#[test]
fn wispnet_hosts() {
    let policy = open_policy();
    // "MTI=" is base64 of "12"
    match resolved(&policy, connect(StreamType::Tcp, "MTI=.wisp", 80), None) {
        Resolution::Resolved(ResolvedPacket::ValidWispnet(12, p)) => assert_eq!(p.host, "MTI=.wisp"),
        _ => panic!("expected wispnet"),
    }
    assert_eq!(wispnet_server_id("MTI="), Ok(12));
    assert_eq!(wispnet_server_id("!!"), Err(WispnetHostError::NotBase64));
    assert_eq!(wispnet_server_id("/w=="), Err(WispnetHostError::NotText));
    assert_eq!(wispnet_server_id("YWJj"), Err(WispnetHostError::NotNumber));
    assert!(matches!(
        policy.resolve_with_ip(connect(StreamType::Tcp, "YWJj.wisp", 1), None),
        Err(WispnetHostError::NotNumber)
    ));
}

#[test]
fn lookup_results() {
    let addrs = vec![IpAddress::V6([0x2001, 0xdb8, 0, 0, 0, 0, 0, 1]), IpAddress::V4([1, 2, 3, 4])];
    assert_eq!(first_usable_address(&addrs, false), Some(1));
    assert_eq!(first_usable_address(&addrs, true), Some(0));
    assert_eq!(first_usable_address(&addrs[..1].to_vec(), false), None);
    match resolved_from_lookup(connect(StreamType::Udp, "example.com", 53), Some("1.2.3.4".to_string())) {
        ResolvedPacket::Valid(p) => {
            assert_eq!(p.host, "1.2.3.4");
            assert_eq!(p.port, 53);
            assert_eq!(p.stream_type, StreamType::Udp);
        }
        _ => panic!("expected valid"),
    }
    assert!(matches!(resolved_from_lookup(connect(StreamType::Udp, "x", 1), None), ResolvedPacket::NoResolvedAddrs));
}

#[test]
fn close_reasons_and_codes() {
    assert_eq!(resolved_close_reason(&ResolvedPacket::Blocked), Some(CloseReason::ServerStreamBlockedAddress));
    assert_eq!(resolved_close_reason(&ResolvedPacket::NoResolvedAddrs), Some(CloseReason::ServerStreamUnreachable));
    assert_eq!(resolved_close_reason(&ResolvedPacket::Invalid), Some(CloseReason::ServerStreamInvalidInfo));
    assert_eq!(resolved_close_reason(&ResolvedPacket::Valid(connect(StreamType::Tcp, "a", 1))), None);
    assert_eq!(forward_close_reason(StreamKind::Tcp, true), CloseReason::Voluntary);
    assert_eq!(forward_close_reason(StreamKind::Udp, false), CloseReason::Unexpected);
    assert_eq!(forward_close_reason(StreamKind::Blocked, true), CloseReason::ServerStreamBlockedAddress);
    assert_eq!(wsproxy_resolved_close(&ResolvedPacket::Invalid), Some(WsProxyClose::InvalidCombination));
    assert_eq!(wsproxy_stream_close(StreamKind::Pty), Some(WsProxyClose::TwispUnsupported));
    assert_eq!(wsproxy_stream_close(StreamKind::Tcp), None);
    assert_eq!(WsProxyClose::NoResolvedAddrs.code(), INTERNAL_SERVER_ERROR);
    assert_eq!(WsProxyClose::HostBlocked.code(), POLICY_VIOLATION);
    assert_eq!(WsProxyClose::HostBlocked.reason(), "host is blocked");
    assert_eq!(WsProxyClose::UdpBlocked.reason(), "udp is blocked");
}

#[test]
fn wsproxy_paths() {
    let p = wsproxy_target("/proxy/example.com:443", false, false).unwrap();
    assert_eq!(p.host, "example.com");
    assert_eq!(p.port, 443);
    assert_eq!(p.stream_type, StreamType::Tcp);
    let u = wsproxy_target("/1.1.1.1:53:extra", true, true).unwrap();
    assert_eq!(u.host, "1.1.1.1");
    assert_eq!(u.port, 53);
    assert_eq!(u.stream_type, StreamType::Udp);
    assert_eq!(wsproxy_target("/x:53", true, false).unwrap_err(), WsProxyClose::UdpBlocked);
    assert_eq!(wsproxy_target("/example.com", false, false).unwrap_err(), WsProxyClose::InvalidPort);
    assert_eq!(wsproxy_target("/example.com:99999", false, false).unwrap_err(), WsProxyClose::InvalidPort);
    assert_eq!(wsproxy_target("/example.com:+80", false, false).unwrap().port, 80);
}

#[test]
fn escaping_and_headers() {
    assert_eq!(html_escape("<a href=\"x\">'&'</a>"), "&lt;a href=&quot;x&quot;&gt;&#39;&amp;&#39;&lt;/a&gt;");
    assert_eq!(html_escape("plain"), "plain");
    assert_eq!(first_header_value(&Some(" https , http".to_string())), Some("https".to_string()));
    assert_eq!(first_header_value(&Some(" ,x".to_string())), None);
    assert_eq!(first_header_value(&None), None);
}

#[test]
fn advertised_websocket_url() {
    let none: Option<String> = None;
    assert_eq!(websocket_url(&none, &none, &none, &Some("h:1".to_string()), ""), "ws://h:1/");
    assert_eq!(
        websocket_url(&Some("HTTPS".to_string()), &none, &Some("proxy.example, other".to_string()), &Some("h".to_string()), "/wisp//"),
        "wss://proxy.example/wisp/"
    );
    assert_eq!(websocket_url(&none, &Some("on".to_string()), &none, &none, "w"), "wss://localhost:4000/w/");
}

#[test]
fn autoconfiguration_link() {
    assert_eq!(
        autoconfigure_target(&Some(" bridge.example ".to_string())),
        Some(("https://bridge.example".to_string(), "bridge.example".to_string()))
    );
    assert_eq!(
        autoconfigure_target(&Some("http://b.example:8080/x".to_string())),
        Some(("http://b.example:8080/x".to_string(), "b.example:8080".to_string()))
    );
    assert_eq!(autoconfigure_target(&Some("ftp://b.example".to_string())), None);
    assert_eq!(autoconfigure_target(&Some("   ".to_string())), None);
    assert_eq!(autoconfigure_target(&None), None);
}

#[test]
fn request_routing() {
    let config = RouteConfig { prefix: "/wisp".to_string(), allow_wsproxy: true, has_wispnet: true, use_real_ip_headers: true };
    let stats = Some("/stats".to_string());
    assert!(matches!(route_request(&config, false, "/stats", "", &stats, false, None, None), HttpRoute::Stats));
    assert!(matches!(route_request(&config, false, "/", "", &stats, false, None, None), HttpRoute::Index));
    assert!(matches!(route_request(&config, false, "/x", "", &None, false, None, None), HttpRoute::PlainText));
    match route_request(&config, true, "/wisp/", "net", &None, true, None, Some("1.2.3.4".to_string())) {
        HttpRoute::Wisp { has_ws_protocol, is_wispnet, client_ip } => {
            assert!(has_ws_protocol);
            assert!(is_wispnet);
            assert_eq!(client_ip, Some("1.2.3.4".to_string()));
        }
        _ => panic!("expected wisp"),
    }
    match route_request(&config, true, "/example.com:80", "udp", &None, false, Some("5.6.7.8".to_string()), None) {
        HttpRoute::WsProxy { path, udp, client_ip } => {
            assert_eq!(path, "/example.com:80");
            assert!(udp);
            assert_eq!(client_ip, Some("5.6.7.8".to_string()));
        }
        _ => panic!("expected wsproxy"),
    }
    let closed = RouteConfig { prefix: "/wisp".to_string(), allow_wsproxy: false, has_wispnet: false, use_real_ip_headers: false };
    assert!(matches!(route_request(&closed, true, "/other", "", &None, false, None, None), HttpRoute::PlainText));
    assert!(matches!(
        route_request(&closed, true, "/wisp/", "net", &None, false, Some("1.1.1.1".to_string()), None),
        HttpRoute::Wisp { is_wispnet: false, client_ip: None, .. }
    ));
}

#[test]
fn stream_statistics() {
    assert_eq!(format_stream_type(StreamType::Tcp), "tcp");
    assert_eq!(format_stream_type(StreamType::Udp), "udp");
    let s = StreamStats::from((connect(StreamType::Tcp, "example.com", 443), connect(StreamType::Tcp, "93.184.216.34", 443)));
    assert_eq!(s.stream_type, "tcp");
    assert_eq!(s.requested, "example.com:443");
    assert_eq!(s.resolved, "93.184.216.34:443");
    let z = StreamStats::from((connect(StreamType::Udp, "a", 0), connect(StreamType::Udp, "b", 65535)));
    assert_eq!(z.requested, "a:0");
    assert_eq!(z.resolved, "b:65535");
}

#[test]
fn wispnet_extension() {
    let mut b = WispnetServerProtocolExtensionBuilder(7);
    assert_eq!(b.build_to_extension(), WispnetServerProtocolExtension(7, false));
    assert_eq!(b.build_from_bytes(&[1]).unwrap(), WispnetServerProtocolExtension(7, true));
    assert!(matches!(b.build_from_bytes(&[]), Err(WispError::PacketTooSmall)));
    let ext = WispnetServerProtocolExtension(7, false);
    assert_eq!(ext.encode(), vec![7, 0, 0, 0]);
    assert_eq!(ext.get_supported_packets(), vec![0xf1]);
    assert!(ext.get_congestion_stream_types().is_empty());
    let clients = vec![(1, false), (2, true), (3, false)];
    assert_eq!(
        WispnetServerProtocolExtension::handle_packet(0xf1, &[0, 0, 0, 0], &clients).unwrap(),
        Some(vec![0xf1, 0, 0, 0, 0, 1, 0, 0, 0, 3, 0, 0, 0])
    );
    assert_eq!(WispnetServerProtocolExtension::handle_packet(0x02, &[], &clients).unwrap(), None);
    assert!(matches!(WispnetServerProtocolExtension::handle_packet(0xf1, &[1], &clients), Err(WispError::PacketTooSmall)));
    assert!(matches!(
        WispnetServerProtocolExtension::handle_packet(0xf1, &[5, 0, 0, 0], &clients),
        Err(WispError::InvalidStreamId(5))
    ));
}

#[test]
fn key_files() {
    let key = ed25519_dalek::SigningKey::from_bytes(&[9; 32]).verifying_key();
    let mut der = vec![0x30, 0x2a, 0x30, 0x05, 0x06, 0x03, 0x2b, 0x65, 0x70, 0x03, 0x21, 0x00];
    der.extend_from_slice(&key.to_bytes());
    let pem = format!(
        "-----BEGIN PUBLIC KEY-----\n{}\n-----END PUBLIC KEY-----\n",
        base64::engine::general_purpose::STANDARD.encode(&der)
    );
    let vk = verify_key_from_pem_file(pem.into_bytes()).unwrap();
    assert_eq!(vk.public_key, key.to_bytes());
    let hash: [u8; 32] = sha2::Sha256::digest(key.to_bytes()).into();
    assert_eq!(vk.hash, hash);
    assert_eq!(verify_key_from_pem_file(vec![0xff]).unwrap_err(), KeyFileError::NotText);
    assert_eq!(verify_key_from_pem_file(b"not a key".to_vec()).unwrap_err(), KeyFileError::NotPublicKey);
}

#[test]
fn websocket_frames_from_clients() {
    assert!(matches!(classify_frame(FrameKind::Binary, vec![1]), WebSocketFrame::Data(d) if d == vec![1]));
    assert!(matches!(classify_frame(FrameKind::Text, vec![2]), WebSocketFrame::Data(_)));
    assert!(matches!(classify_frame(FrameKind::Close, vec![]), WebSocketFrame::Close));
    assert!(matches!(classify_frame(FrameKind::Other, vec![]), WebSocketFrame::Ignore));
}

fn v4(host: &str) -> Option<[u8; 4]> {
    match parse_ip_literal(host) {
        Some(IpAddress::V4(o)) => Some(o),
        _ => None,
    }
}

fn v6(host: &str) -> Option<[u16; 8]> {
    match parse_ip_literal(host) {
        Some(IpAddress::V6(s)) => Some(s),
        _ => None,
    }
}

#[test]
fn ip_literals_read_like_from_str() {
    for s in ["256.0.0.1", "01.2.3.4", "1.2.3", "1.2.3.4.5", "1.2.3.4 ", "", "1:2:3:4:5:6:7:8:9",
        "1:2:3:4:5:6:7:8::", "1:2:3:4:5:1.2.3.4", "::1.2.3.4:5", ":::1", ":1::", "1::2::3",
        "12345::", "g::", "example.com", "1.2.3.4:80", "1:2:3:4:5:6:7::1.2.3.4", "[::1]"] {
        assert!(parse_ip_literal(s).is_none(), "{s:?}");
    }
    assert_eq!(v4("127.0.0.1"), Some([127, 0, 0, 1]));
    assert_eq!(v4("0.0.0.0"), Some([0, 0, 0, 0]));
    assert_eq!(v4("255.255.255.255"), Some([255, 255, 255, 255]));
    assert_eq!(v6("::"), Some([0; 8]));
    assert_eq!(v6("1::"), Some([1, 0, 0, 0, 0, 0, 0, 0]));
    assert_eq!(v6("fe80::1"), Some([0xfe80, 0, 0, 0, 0, 0, 0, 1]));
    assert_eq!(v6("2001:db8::8a2e:370:7334"), Some([0x2001, 0xdb8, 0, 0, 0, 0x8a2e, 0x370, 0x7334]));
    assert_eq!(v6("1:2:3:4:5:6:7:8"), Some([1, 2, 3, 4, 5, 6, 7, 8]));
    assert_eq!(v6("1:2:3:4:5:6:7::"), Some([1, 2, 3, 4, 5, 6, 7, 0]));
    assert_eq!(v6("ABCD:ef01::"), Some([0xabcd, 0xef01, 0, 0, 0, 0, 0, 0]));
    assert_eq!(v6("1:2:3:4:5:6:1.2.3.4"), Some([1, 2, 3, 4, 5, 6, 0x0102, 0x0304]));
    assert_eq!(v6("1:2:3:4:5:6::1.2.3.4"), None);
    assert_eq!(v6("1:2:3:4:5::1.2.3.4"), Some([1, 2, 3, 4, 5, 0, 0x0102, 0x0304]));
    assert_eq!(v6("::0.0.0.0"), Some([0; 8]));
    assert_eq!(v4("10.0.0.1"), Some([10, 0, 0, 1]));
    assert_eq!(v6("::1"), Some([0, 0, 0, 0, 0, 0, 0, 1]));
    assert_eq!(v6("::ffff:1.2.3.4"), Some([0, 0, 0, 0, 0, 0xffff, 0x0102, 0x0304]));
    assert_eq!(v6("1:2::"), Some([1, 2, 0, 0, 0, 0, 0, 0]));
}

#[test]
fn literal_hosts_are_judged_without_lookup() {
    let policy = open_policy();
    for host in ["127.0.0.1", "::1", "10.0.0.1", "192.168.1.1", "fc00::1", "fe80::1"] {
        match policy.resolve(connect(StreamType::Tcp, host, 443)).unwrap() {
            Resolution::Resolved(ResolvedPacket::Blocked) => {}
            other => panic!("{host}: expected blocked, got {other:?}"),
        }
    }
    match policy.resolve(connect(StreamType::Tcp, "8.8.8.8", 443)).unwrap() {
        Resolution::Lookup(p) => assert_eq!(p.host, "8.8.8.8"),
        other => panic!("expected a lookup, got {other:?}"),
    }
    match policy.resolve(connect(StreamType::Tcp, "example.com", 443)).unwrap() {
        Resolution::Lookup(p) => assert_eq!(p.host, "example.com"),
        other => panic!("expected a lookup, got {other:?}"),
    }
}
