use epoxy::error::WispError;
use epoxy::extensions::motd::MotdProtocolExtension;
use epoxy::extensions::udp::UdpProtocolExtension;
use epoxy::extensions::{AnyProtocolExtension, AnyProtocolExtensionBuilder, CustomProtocolExtension};
use epoxy::extensions::motd::MotdProtocolExtensionBuilder;
use epoxy::packet::{
    decode_records, CloseReason, ConnectPacket, InfoPacket, MaybeExtensionPacket, MaybeInfoPacket, Packet, PacketType,
    StreamType, WispVersion,
};
use epoxy::wire::{get_u16_le, get_u32_le, put_u16_le, put_u32_le};
use epoxy::Role;

#[test]
fn connect_packet_bytes() {
    let p = Packet {
        stream_id: 1,
        packet_type: PacketType::Connect(ConnectPacket {
            stream_type: StreamType::Tcp,
            host: "example.com".to_string(),
            port: 443,
        }),
    };
    let mut expected = vec![0x01, 1, 0, 0, 0, 0x01, 0xbb, 0x01];
    expected.extend_from_slice(b"example.com");
    assert_eq!(p.encode(), expected);
}

#[test]
fn packet_roundtrip_each_type() {
    let packets = vec![
        Packet::new_data(7, vec![1, 2, 3]),
        Packet::new_continue(0, 128),
        Packet::new_close(9, CloseReason::Voluntary),
        Packet {
            stream_id: 3,
            packet_type: PacketType::Connect(ConnectPacket {
                stream_type: StreamType::Udp,
                host: "ünïcode.test".to_string(),
                port: 53,
            }),
        },
    ];
    for p in packets {
        let bytes = p.encode();
        let back = Packet::decode(&bytes).unwrap();
        assert_eq!(back.encode(), bytes);
        assert_eq!(back.stream_id, p.stream_id);
        assert_eq!(back.packet_type.get_type(), p.packet_type.get_type());
    }
}

#[test]
fn continue_and_close_bytes() {
    assert_eq!(Packet::new_continue(0, 128).encode(), vec![0x03, 0, 0, 0, 0, 128, 0, 0, 0]);
    assert_eq!(Packet::new_close(2, CloseReason::ServerStreamBlockedAddress).encode(), vec![0x04, 2, 0, 0, 0, 0x48]);
}

#[test]
fn decode_errors() {
    assert!(matches!(Packet::decode(&[0x02, 0, 0]), Err(WispError::PacketTooSmall)));
    assert!(matches!(Packet::decode(&[0x09, 0, 0, 0, 0]), Err(WispError::InvalidPacketType(9))));
    assert!(matches!(Packet::decode(&[0x03, 0, 0, 0, 0, 1, 2]), Err(WispError::PacketTooSmall)));
    assert!(matches!(Packet::decode(&[0x04, 0, 0, 0, 0]), Err(WispError::PacketTooSmall)));
    assert!(matches!(Packet::decode(&[0x01, 0, 0, 0, 0, 1, 80]), Err(WispError::PacketTooSmall)));
    assert!(matches!(Packet::decode(&[0x01, 0, 0, 0, 0, 1, 80, 0, 0xff]), Err(WispError::Utf8)));
}

#[test]
fn byte_enums_roundtrip() {
    for b in 0..=255u8 {
        assert_eq!(StreamType::from_byte(b).to_byte(), b);
        assert_eq!(CloseReason::from_byte(b).to_byte(), b);
    }
    assert_eq!(StreamType::from_byte(1), StreamType::Tcp);
    assert_eq!(StreamType::from_byte(2), StreamType::Udp);
    assert_eq!(StreamType::from_byte(3), StreamType::Other(3));
    assert_eq!(CloseReason::from_byte(0x42), CloseReason::ServerStreamUnreachable);
    assert_eq!(CloseReason::from_byte(0x99), CloseReason::Other(0x99));
}

#[test]
fn data_packet_keeps_trailing_bytes() {
    let p = Packet::decode(&[0x02, 5, 0, 0, 0, 9, 8, 7]).unwrap();
    assert_eq!(p.stream_id, 5);
    match p.packet_type {
        PacketType::Data(d) => assert_eq!(d, vec![9, 8, 7]),
        _ => panic!("expected data"),
    }
}

#[test]
fn little_endian_helpers() {
    let mut out = Vec::new();
    put_u16_le(&mut out, 0x1234);
    put_u32_le(&mut out, 0xdeadbeef);
    assert_eq!(out, vec![0x34, 0x12, 0xef, 0xbe, 0xad, 0xde]);
    assert_eq!(get_u16_le(&out, 0), 0x1234);
    assert_eq!(get_u32_le(&out, 2), 0xdeadbeef);
}

#[test]
fn info_packet_roundtrip() {
    let info = InfoPacket {
        version: WispVersion { major: 2, minor: 0 },
        extensions: vec![
            AnyProtocolExtension::Udp(UdpProtocolExtension),
            AnyProtocolExtension::Motd(MotdProtocolExtension { role: Role::Server, motd: "hi".to_string() }),
        ],
    };
    assert!(info.is_encodable());
    let bytes = info.encode();
    assert_eq!(bytes, vec![5, 0, 0, 0, 0, 2, 0, 1, 0, 0, 0, 0, 4, 2, 0, 0, 0, b'h', b'i']);
    let (records, truncated) = decode_records(&bytes[7..]);
    assert!(!truncated);
    assert_eq!(records, vec![(1, vec![]), (4, b"hi".to_vec())]);

    let mut builders = vec![
        AnyProtocolExtensionBuilder::Motd(MotdProtocolExtensionBuilder::new_client()),
        AnyProtocolExtensionBuilder::Udp(epoxy::extensions::udp::UdpProtocolExtensionBuilder),
    ];
    assert!(MaybeInfoPacket::decode_accepts(&bytes, &builders, Role::Client));
    match MaybeInfoPacket::decode(&bytes, &mut builders, Role::Client).unwrap() {
        MaybeInfoPacket::Info(got) => {
            assert_eq!(got.version, WispVersion { major: 2, minor: 0 });
            assert_eq!(got.extensions.len(), 2);
            assert_eq!(got.extensions[0].get_id(), 1);
            match &got.extensions[1] {
                AnyProtocolExtension::Motd(m) => assert_eq!(m.motd, "hi"),
                _ => panic!("expected motd"),
            }
        }
        _ => panic!("expected info"),
    }
}

#[test]
fn info_packet_errors() {
    let mut builders: Vec<AnyProtocolExtensionBuilder> = Vec::new();
    assert!(matches!(
        MaybeInfoPacket::decode(&[5, 0, 0, 0, 0, 2], &mut builders, Role::Client),
        Err(WispError::PacketTooSmall)
    ));
    assert!(matches!(
        MaybeInfoPacket::decode(&[5, 0, 0, 0, 0, 1, 0], &mut builders, Role::Client),
        Err(WispError::IncompatibleProtocolVersion(WispVersion { major: 1, minor: 0 }, WispVersion { major: 2, minor: 0 }))
    ));
    // a record longer than what follows
    assert!(matches!(
        MaybeInfoPacket::decode(&[5, 0, 0, 0, 0, 2, 0, 9, 10, 0, 0, 0, 1], &mut builders, Role::Client),
        Err(WispError::PacketTooSmall)
    ));
    // a non-info first packet is passed through
    assert!(matches!(
        MaybeInfoPacket::decode(&[3, 0, 0, 0, 0, 16, 0, 0, 0], &mut builders, Role::Client),
        Ok(MaybeInfoPacket::Packet(_))
    ));
}

fn custom_extension(id: u8, packets: Vec<u8>) -> AnyProtocolExtension {
    AnyProtocolExtension::Custom(CustomProtocolExtension {
        id,
        payload: vec![],
        supported_packets: packets,
        congestion_stream_types: vec![],
    })
}

#[test]
fn extension_packet_goes_to_first_handler() {
    let exts = vec![
        AnyProtocolExtension::Udp(UdpProtocolExtension),
        custom_extension(0xf0, vec![0xf1]),
        custom_extension(0xf2, vec![0xf1, 0xf3]),
    ];
    let bytes = vec![0xf1, 7, 0, 0, 0, 9, 8];
    match MaybeExtensionPacket::decode(&bytes, &exts) {
        Ok(MaybeExtensionPacket::Extension { index, packet_type, body }) => {
            assert_eq!(index, 1);
            assert_eq!(packet_type, 0xf1);
            assert_eq!(body, vec![9, 8]);
        }
        other => panic!("unexpected {:?}", other),
    }
    let bytes = vec![0xf3, 0, 0, 0, 0];
    match MaybeExtensionPacket::decode(&bytes, &exts) {
        Ok(MaybeExtensionPacket::Extension { index, body, .. }) => {
            assert_eq!(index, 2);
            assert!(body.is_empty());
        }
        other => panic!("unexpected {:?}", other),
    }
}

#[test]
fn core_and_unknown_packets_are_routed() {
    let exts = vec![custom_extension(0xf0, vec![0xf1])];
    let bytes = vec![0x02, 1, 0, 0, 0, 42];
    match MaybeExtensionPacket::decode(&bytes, &exts) {
        Ok(MaybeExtensionPacket::Packet(p)) => {
            assert_eq!(p.stream_id, 1);
            assert!(matches!(p.packet_type, PacketType::Data(ref d) if d == &vec![42]));
        }
        other => panic!("unexpected {:?}", other),
    }
    assert!(matches!(
        MaybeExtensionPacket::decode(&[0x09, 0, 0, 0, 0], &exts),
        Err(WispError::InvalidPacketType(0x09))
    ));
    assert!(matches!(
        MaybeExtensionPacket::decode(&[0xf1, 0, 0], &exts),
        Err(WispError::PacketTooSmall)
    ));
}
