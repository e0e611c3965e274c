use epoxy::error::WispError;
use epoxy::extensions::udp::UdpProtocolExtensionBuilder;
use epoxy::extensions::motd::{MotdProtocolExtension, MotdProtocolExtensionBuilder};
use epoxy::extensions::{AnyProtocolExtension, AnyProtocolExtensionBuilder, CustomProtocolExtension};
use epoxy::extensions::udp::UdpProtocolExtension;
use epoxy::mux::inner::{FlowControl, MuxAction, MuxInner, StreamInfo};
use epoxy::mux::{
    build_info_packet, client_handshake_finish, client_handshake_reply, client_handshake_v1,
    get_supported_extensions, missing_required_extensions, server_handshake_finish,
    server_handshake_reply, server_handshake_v1, validate_continue_packet, ClientHandshakeReply,
    Multiplexor, ServerHandshakeReply, WispHandshakeResultKind, WispV2Handshake,
};
use epoxy::packet::{CloseReason, ConnectPacket, MaybeInfoPacket, Packet, PacketType, StreamType};
use epoxy::Role;

fn connect(host: &str, port: u16) -> ConnectPacket {
    ConnectPacket { stream_type: StreamType::Tcp, host: host.to_string(), port }
}

#[test]
fn stream_info_flow_arithmetic() {
    let mut info = StreamInfo::new(1, FlowControl::EnabledTrackAmount, 128);
    assert_eq!(info.target_flow_control, 115);
    assert_eq!(info.flow_control, 128);
    assert_eq!(info.get_reason(), CloseReason::Unknown);
    assert_eq!(info.flow_add(u32::MAX), u32::MAX);
    assert_eq!(info.flow_sub(u32::MAX - 2), 2);
    info.flow_dec();
    info.flow_dec();
    assert!(info.flow_empty());
    info.flow_dec();
    assert_eq!(info.flow_control, 0);
    info.flow_set(5);
    assert_eq!(info.flow_control, 5);
    info.set_reason(CloseReason::Voluntary);
    assert_eq!(info.get_reason(), CloseReason::Voluntary);
}

#[test]
fn client_writer_waits_without_room() {
    let mut info = StreamInfo::new(1, FlowControl::EnabledTrackAmount, 2);
    assert!(info.may_send());
    info.on_chunk_sent();
    info.on_chunk_sent();
    assert!(!info.may_send());
    assert!(!info.writer_waiting);
    info.flow_register();
    assert!(info.writer_waiting);
    assert!(info.flow_wake());
    assert!(!info.writer_waiting);
    assert!(!info.flow_wake());
    let mut untracked = StreamInfo::new(2, FlowControl::Disabled, 0);
    assert!(untracked.may_send());
    untracked.on_chunk_sent();
    assert_eq!(untracked.flow_control, 0);
}

#[test]
fn server_reader_announces_room_after_target() {
    // buffer of 10: target 9; the tenth packet read announces 10 more
    let mut info = StreamInfo::new(1, FlowControl::EnabledSendMessages, 10);
    info.flow_control = 0;
    let mut read_cnt = 0u32;
    for _ in 0..9 {
        assert_eq!(info.on_chunk_read(&mut read_cnt, false), None);
    }
    assert_eq!(read_cnt, 9);
    // polled again after a pending write: not counted twice
    assert_eq!(info.on_chunk_read(&mut read_cnt, true), None);
    assert_eq!(info.on_chunk_read(&mut read_cnt, false), Some(10));
    assert_eq!(read_cnt, 0);
    assert_eq!(info.flow_control, 10);
}

#[test]
fn mux_client_creates_increasing_ids() {
    let mut mux = MuxInner::new(Role::Client, 64, &vec![]);
    let a = mux.create_stream(StreamType::Tcp).unwrap();
    let b = mux.create_stream(StreamType::Udp).unwrap();
    assert_eq!(a.id, 1);
    assert_eq!(b.id, 2);
    assert_eq!(a.flow_status, FlowControl::EnabledTrackAmount);
    assert_eq!(b.flow_status, FlowControl::Disabled);
    assert!(mux.stream(2).is_some());
    assert_eq!(
        MuxInner::connect_packet(1, connect("a", 80)),
        vec![1, 1, 0, 0, 0, 1, 80, 0, b'a']
    );
}

#[test]
fn mux_flow_types_from_extensions() {
    let custom = AnyProtocolExtension::Custom(CustomProtocolExtension {
        id: 0xf0,
        payload: vec![],
        supported_packets: vec![],
        congestion_stream_types: vec![3],
    });
    let mux = MuxInner::new(Role::Server, 8, &vec![custom]);
    assert_eq!(mux.get_flow_control(StreamType::Other(3)), FlowControl::EnabledSendMessages);
    assert_eq!(mux.get_flow_control(StreamType::Tcp), FlowControl::EnabledSendMessages);
    assert_eq!(mux.get_flow_control(StreamType::Udp), FlowControl::Disabled);
}

#[test]
fn mux_server_handles_packets() {
    let mut mux = MuxInner::new(Role::Server, 16, &vec![]);
    let opened = mux
        .handle_packet(Packet { stream_id: 5, packet_type: PacketType::Connect(connect("h", 1)) })
        .unwrap();
    assert!(matches!(opened, MuxAction::NewStream(5, _)));
    assert!(matches!(mux.handle_packet(Packet::new_data(5, vec![1])).unwrap(), MuxAction::DeliverData(5, _)));
    mux.data_delivered(5);
    assert_eq!(mux.stream(5).unwrap().flow_control, 15);
    assert!(matches!(mux.handle_packet(Packet::new_data(6, vec![1])).unwrap(), MuxAction::Nothing));
    assert!(matches!(
        mux.handle_packet(Packet::new_continue(5, 3)),
        Err(WispError::InvalidPacketType(3))
    ));
    match mux.handle_packet(Packet::new_close(5, CloseReason::Voluntary)).unwrap() {
        MuxAction::StreamClosed(info) => {
            assert_eq!(info.id, 5);
            assert_eq!(info.close_reason, CloseReason::Voluntary);
        }
        _ => panic!("expected close"),
    }
    assert!(mux.stream(5).is_none());
    assert!(matches!(mux.handle_packet(Packet::new_close(0, CloseReason::Unknown)).unwrap(), MuxAction::End));
}

#[test]
fn mux_client_handles_continue_and_refuses_connect() {
    let mut mux = MuxInner::new(Role::Client, 4, &vec![]);
    let s = mux.create_stream(StreamType::Tcp).unwrap();
    mux.chunk_sent(s.id);
    assert_eq!(mux.stream(s.id).unwrap().flow_control, 3);
    assert!(matches!(mux.handle_packet(Packet::new_continue(s.id, 9)).unwrap(), MuxAction::WakeWriter(1)));
    assert_eq!(mux.stream(s.id).unwrap().flow_control, 9);
    assert!(matches!(
        mux.handle_packet(Packet { stream_id: 9, packet_type: PacketType::Connect(connect("x", 1)) }),
        Err(WispError::InvalidPacketType(1))
    ));
}

#[test]
fn mux_close_and_end() {
    let mut mux = MuxInner::new(Role::Client, 4, &vec![]);
    let s = mux.create_stream(StreamType::Tcp).unwrap();
    let (info, bytes) = mux.close(s.id, CloseReason::Voluntary).unwrap();
    assert_eq!(info.close_reason, CloseReason::Voluntary);
    assert_eq!(bytes, vec![4, 1, 0, 0, 0, 2]);
    assert!(matches!(mux.close(s.id, CloseReason::Voluntary), Err(WispError::InvalidStreamId(1))));
    mux.create_stream(StreamType::Tcp).unwrap();
    assert_eq!(mux.end(Some(CloseReason::Unknown)), Some(vec![4, 0, 0, 0, 0, 1]));
    assert!(mux.stream(2).is_none());
    assert_eq!(mux.end(None), None);
}

#[test]
fn continue_validation() {
    assert_eq!(validate_continue_packet(&Packet::new_continue(0, 32)).unwrap(), 32);
    assert!(matches!(validate_continue_packet(&Packet::new_continue(1, 32)), Err(WispError::InvalidStreamId(1))));
    assert!(matches!(validate_continue_packet(&Packet::new_data(0, vec![])), Err(WispError::InvalidPacketType(2))));
}

#[test]
fn supported_and_missing_extensions() {
    let exts = vec![
        AnyProtocolExtension::Udp(UdpProtocolExtension),
        AnyProtocolExtension::Motd(MotdProtocolExtension { role: Role::Client, motd: String::new() }),
    ];
    let builders = vec![AnyProtocolExtensionBuilder::Motd(MotdProtocolExtensionBuilder::new_client())];
    let kept = get_supported_extensions(exts.clone(), &builders);
    assert_eq!(kept.len(), 1);
    assert_eq!(kept[0].get_id(), 4);
    assert_eq!(missing_required_extensions(&exts, vec![1, 4]), None);
    assert_eq!(missing_required_extensions(&exts, vec![2, 1, 3]), Some(vec![2, 3]));
}

#[test]
fn handshake_settings() {
    let h: WispV2Handshake<u8> = WispV2Handshake::empty()
        .with_extension(AnyProtocolExtensionBuilder::Udp(UdpProtocolExtensionBuilder))
        .with_udp_required_extension()
        .with_required_extension(4)
        .with_middleware(7);
    assert_eq!(h.builders.len(), 1);
    assert_eq!(h.required, vec![1, 4]);
    assert_eq!(h.closure, Some(7));
}

#[test]
fn server_v1_and_v2_handshake() {
    let (bytes, res) = server_handshake_v1(128);
    assert_eq!(bytes, Packet::new_continue(0, 128).encode());
    assert!(!res.downgraded);
    assert!(matches!(res.kind, WispHandshakeResultKind::V1 { packet: None }));

    let mut server_builders = vec![AnyProtocolExtensionBuilder::Udp(UdpProtocolExtensionBuilder)];
    let mut client_builders = vec![AnyProtocolExtensionBuilder::Udp(UdpProtocolExtensionBuilder)];
    let server_info = build_info_packet(&mut server_builders, Role::Server).unwrap().encode();
    let first = MaybeInfoPacket::decode(&server_info, &mut client_builders, Role::Client).unwrap();
    let info = match client_handshake_reply(first).unwrap() {
        ClientHandshakeReply::Negotiate(info) => info,
        _ => panic!("expected v2"),
    };
    let client_info = build_info_packet(&mut client_builders, Role::Client).unwrap().encode();
    let client_exts = get_supported_extensions(info.extensions, &client_builders);

    let from_client = MaybeInfoPacket::decode(&client_info, &mut server_builders, Role::Server).unwrap();
    let exts = match server_handshake_reply(from_client, &server_builders, vec![1], 128) {
        ServerHandshakeReply::Negotiated(e) => e,
        _ => panic!("expected negotiation"),
    };
    let (cont, res) = server_handshake_finish(exts, 128);
    assert!(!res.downgraded);
    let done = client_handshake_finish(client_exts, &Packet::decode(&cont).unwrap()).unwrap();
    assert_eq!(done.buffer_size, 128);
    assert!(matches!(done.kind, WispHandshakeResultKind::V2 { ref extensions } if extensions.len() == 1));
}

#[test]
fn server_rejects_missing_required() {
    let builders = vec![AnyProtocolExtensionBuilder::Udp(UdpProtocolExtensionBuilder)];
    let mut server_builders = vec![AnyProtocolExtensionBuilder::Udp(UdpProtocolExtensionBuilder)];
    let client_info = epoxy::packet::InfoPacket {
        version: epoxy::packet::WispVersion { major: 2, minor: 0 },
        extensions: vec![],
    }
    .encode();
    let first = MaybeInfoPacket::decode(&client_info, &mut server_builders, Role::Server).unwrap();
    match server_handshake_reply(first, &builders, vec![1], 64) {
        ServerHandshakeReply::Reject(bytes, WispError::ExtensionsNotSupported(missing)) => {
            assert_eq!(bytes, vec![4, 0, 0, 0, 0, 0x04]);
            assert_eq!(missing, vec![1]);
        }
        _ => panic!("expected rejection"),
    }
}

#[test]
fn downgrades_to_v1() {
    let mut builders: Vec<AnyProtocolExtensionBuilder> = Vec::new();
    let first = MaybeInfoPacket::decode(&Packet::new_continue(0, 32).encode(), &mut builders, Role::Client).unwrap();
    match client_handshake_reply(first).unwrap() {
        ClientHandshakeReply::Downgrade(res) => {
            assert!(res.downgraded);
            assert_eq!(res.buffer_size, 32);
        }
        _ => panic!("expected downgrade"),
    }
    let v1 = client_handshake_v1(&Packet::new_continue(0, 12)).unwrap();
    assert!(!v1.downgraded);
    assert_eq!(v1.buffer_size, 12);
    assert!(matches!(client_handshake_v1(&Packet::new_data(0, vec![])), Err(WispError::InvalidPacketType(2))));

    let connect_first = MaybeInfoPacket::Packet(Packet::new_data(3, vec![1]));
    match server_handshake_reply(connect_first, &builders, vec![], 9) {
        ServerHandshakeReply::Downgrade(res) => {
            assert!(res.downgraded);
            assert!(matches!(res.kind, WispHandshakeResultKind::V1 { packet: Some(_) }));
        }
        _ => panic!("expected downgrade"),
    }
}

#[test]
fn multiplexor_after_handshake() {
    let (_, res) = server_handshake_v1(16);
    let (mux, inner, extra) = Multiplexor::create(Role::Server, res);
    assert!(!mux.was_downgraded());
    assert_eq!(mux.get_extension_ids(), vec![1]);
    assert!(extra.is_none());
    assert!(inner.stream(1).is_none());
    assert!(mux.check_new_stream(StreamType::Udp).is_ok());
    let plain = Multiplexor { role: Role::Client, downgraded: false, supported_extensions: vec![] };
    assert!(matches!(plain.check_new_stream(StreamType::Udp), Err(WispError::ExtensionsNotSupported(v)) if v == vec![1]));
    assert!(plain.check_new_stream(StreamType::Tcp).is_ok());
    assert_eq!(plain.get_extensions().len(), 0);
}

#[test]
fn into_parts_gives_udp_for_v1() {
    let (exts, packet) = WispHandshakeResultKind::V1 { packet: None }.into_parts();
    assert_eq!(exts.len(), 1);
    assert_eq!(exts[0].get_id(), 1);
    assert!(packet.is_none());
}

#[test]
fn mux_task_starts_once() {
    let mut mux = MuxInner::new(Role::Server, 16, &vec![]);
    assert!(mux.start().is_ok());
    assert!(matches!(mux.start(), Err(WispError::MuxTaskStarted)));
    assert!(matches!(mux.start(), Err(WispError::MuxTaskStarted)));
}
