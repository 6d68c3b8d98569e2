use lightstage::{
    DmxOutHeader, IoErrorKind, KinetError, KinetPacketHeader, KinetPacketType, PollPayload,
    PollReplyPayload, KINET_UDP_PORT,
};

fn serialise(header: &KinetPacketHeader) -> Vec<u8> {
    let mut buf = Vec::new();
    header.write_to(&mut buf);
    buf
}

#[test]
fn test_default_values() {
    let header = KinetPacketHeader::DmxOut(DmxOutHeader::default());
    if let KinetPacketHeader::DmxOut(DmxOutHeader { timer_val, .. }) = header {
        assert_eq!(timer_val, u32::MAX);
    } else {
        panic!("Default KinetHeader not DmxOut!")
    }
}

#[test]
fn test_to_bytes_discover_supplies() {
    let header = KinetPacketHeader::Poll(PollPayload {
        sequence: 42,
        magic_ip: [10, 1, 1, 222],
    });

    // Header(8) + Seq(4) + IP(4) + Reserved(2) = 18 bytes
    let buf = serialise(&header);
    assert_eq!(buf.len(), 18);

    let expected: [u8; 18] = [
        0x04, 0x01, 0xDC, 0x4A, // Magic
        0x01, 0x00, // Version 1
        0x01, 0x00, // DiscoverSupplies
        0x2A, 0x00, 0x00, 0x00, // Sequence
        0x0a, 0x01, 0x01, 0xde, // IP: 10.1.1.222
        0x00, 0x00, // reserved
    ];

    assert_eq!(
        buf, expected,
        "DiscoverSupplies serialized bytes do not match expected layout"
    );
}

#[test]
fn test_to_bytes_discover_supplies_reply() {
    let mut node_name = [0u8; 60];
    let name_str = b"Generic Power Supply Name";
    node_name[..name_str.len()].copy_from_slice(name_str);

    let mut node_label = [0u8; 33];
    let label_str = b"Generic Power Supply Label";
    node_label[..label_str.len()].copy_from_slice(label_str);

    let header = KinetPacketHeader::PollReply(PollReplyPayload {
        sequence: 42,
        src_ip: [10, 1, 2, 3],
        mac: [0xaa, 0xbb, 0xcc, 0xdd, 0xee, 0xff],
        data: 0x0001,
        serial: 0x1234_5678,
        node_name,
        node_label,
    });

    // Header(8) + Seq(4) + IP(4) + MAC(6) + Data(2) + Serial(4) + Res32(4) + Name(60) + Label(33) = 125 bytes
    let buf = serialise(&header);
    assert_eq!(buf.len(), 125);

    assert_eq!(
        &buf[0..8],
        &[0x04, 0x01, 0xDC, 0x4A, 0x01, 0x00, 0x02, 0x00],
        "Header mismatch"
    );
    assert_eq!(&buf[8..12], &[0x2a, 0x00, 0x00, 0x00], "Sequence mismatch");
    assert_eq!(&buf[12..16], &[10, 1, 2, 3], "IP mismatch");
    assert_eq!(
        &buf[16..22],
        &[0xaa, 0xbb, 0xcc, 0xdd, 0xee, 0xff],
        "MAC mismatch"
    );
    assert_eq!(&buf[22..24], &[0x01, 0x00], "Data mismatch");
    assert_eq!(&buf[24..28], &[0x78, 0x56, 0x34, 0x12], "Serial mismatch");
    assert_eq!(
        &buf[28..32],
        &[0x00, 0x00, 0x00, 0x00],
        "Reserved32 mismatch"
    );
    assert_eq!(
        &buf[32..32 + name_str.len()],
        name_str,
        "Node Name mismatch"
    );
    assert_eq!(
        &buf[92..92 + label_str.len()],
        label_str,
        "Node Label mismatch"
    );
    assert_eq!(&buf[123..125], &[0x00, 0x00], "Padding byte mismatch");
}

#[test]
fn test_to_bytes_discover_supplies_reply_real_world_snapshot() {
    // Exact packet bytes from pcap
    let exact_payload: [u8; 125] = [
        0x04, 0x01, 0xDC, 0x4A, 0x01, 0x00, 0x02, 0x00, 0x00, 0x00, 0x00, 0x00, 0x0a, 0x25, 0xd3,
        0x03, 0x00, 0x0a, 0xc5, 0x25, 0xd3, 0x43, 0x01, 0x00, 0x9b, 0x18, 0x00, 0x3d, 0x00, 0x00,
        0x00, 0x00, 0x4d, 0x3a, 0x43, 0x6f, 0x6c, 0x6f, 0x72, 0x20, 0x4b, 0x69, 0x6e, 0x65, 0x74,
        0x69, 0x63, 0x73, 0x20, 0x49, 0x6e, 0x63, 0x6f, 0x72, 0x70, 0x6f, 0x72, 0x61, 0x74, 0x65,
        0x64, 0x0a, 0x44, 0x3a, 0x50, 0x44, 0x53, 0x2d, 0x58, 0x0a, 0x23, 0x3a, 0x53, 0x46, 0x54,
        0x2d, 0x30, 0x30, 0x30, 0x30, 0x38, 0x30, 0x2d, 0x30, 0x30, 0x0a, 0x52, 0x3a, 0x30, 0x32,
        0x0a, 0x00, 0x41, 0x72, 0x63, 0x20, 0x31, 0x57, 0x00, 0x00, 0x00, 0x00, 0x00, 0x00, 0x00,
        0x00, 0x00, 0x00, 0x00, 0x00, 0x00, 0x00, 0x00, 0x00, 0x00, 0x00, 0x00, 0x00, 0x00, 0x00,
        0x00, 0x00, 0x00, 0x00, 0x00,
    ];

    let mut node_name = [0u8; 60];
    let name_str = b"M:Color Kinetics Incorporated\nD:PDS-X\n#:SFT-000080-00\nR:02\n";
    node_name[..name_str.len()].copy_from_slice(name_str);

    let mut node_label = [0u8; 33];
    let label_str = b"Arc 1W";
    node_label[..label_str.len()].copy_from_slice(label_str);

    let header = KinetPacketHeader::PollReply(PollReplyPayload {
        sequence: 0,
        src_ip: [10, 37, 211, 3],
        mac: [0x00, 0x0a, 0xc5, 0x25, 0xd3, 0x43],
        data: 0x0001,
        serial: 0x3D00_189B,
        node_name,
        node_label,
    });

    let buf = serialise(&header);

    assert_eq!(
        buf, exact_payload,
        "Real-world DiscoverSuppliesReply snapshot failed to match!"
    );
}

#[test]
fn test_to_bytes_dmx_out() {
    let header = KinetPacketHeader::DmxOut(DmxOutHeader {
        sequence: 128,
        port: 0,
        flags: 0,
        timer_val: u32::MAX,
        universe: 0,
    });

    let buf = serialise(&header);

    // Expected byte array for DmxOut
    let expected: [u8; 21] = [
        0x04, 0x01, 0xDC, 0x4A, // Magic
        0x01, 0x00, // Version 1
        0x01, 0x01, // DmxOut
        0x80, 0x00, 0x00, 0x00, // Sequence
        0x00, // Port
        0x00, // padding
        0x00, 0x00, // Flags
        0xFF, 0xFF, 0xFF, 0xFF, // Timer
        0x00, // Universe
    ];

    assert_eq!(
        buf, expected,
        "DmxOut serialized bytes do not match expected layout"
    );
}

#[test]
fn test_crate_example_dmx_packet_length() {
    let dmx_meta = DmxOutHeader {
        sequence: 42,
        ..Default::default()
    };
    let packet = KinetPacketHeader::DmxOut(dmx_meta);

    let mut buf = Vec::with_capacity(packet.packet_size());
    packet.write_to(&mut buf);

    let fixture_data = [255u8; 512];
    buf.extend_from_slice(&fixture_data);

    assert_eq!(buf.len(), 533);
    assert_eq!(packet.packet_size(), 533);
}

#[test]
fn test_packet_sizes() {
    assert_eq!(KinetPacketHeader::Poll(PollPayload::default()).packet_size(), 18);
    assert_eq!(
        KinetPacketHeader::PollReply(PollReplyPayload::default()).packet_size(),
        125
    );
    assert_eq!(KinetPacketHeader::HEADER_SIZE, 8);
    assert_eq!(KINET_UDP_PORT, 6038);
}

#[test]
fn test_packet_roundtrip_with_trailing_dmx_data() {
    let header = KinetPacketHeader::DmxOut(DmxOutHeader {
        sequence: 7,
        port: 3,
        flags: 0x0102,
        timer_val: 0,
        universe: 9,
    });
    let mut buf = serialise(&header);
    buf.extend_from_slice(&[0xAB; 512]);
    assert_eq!(KinetPacketHeader::read_from(&buf), Ok(header));
}

#[test]
fn test_packet_roundtrip_poll_and_reply() {
    let poll = KinetPacketHeader::from(PollPayload {
        sequence: 1,
        magic_ip: [10, 37, 1, 1],
    });
    assert_eq!(KinetPacketHeader::read_from(&serialise(&poll)), Ok(poll));

    let reply = KinetPacketHeader::from(
        PollReplyPayload::default()
            .with_label("Arc 3C")
            .unwrap(),
    );
    assert_eq!(KinetPacketHeader::read_from(&serialise(&reply)), Ok(reply));
}

#[test]
fn test_read_errors() {
    assert_eq!(
        KinetPacketHeader::read_from(&[0x04, 0x01, 0xDC]),
        Err(KinetError::Io(IoErrorKind::UnexpectedEof))
    );
    assert_eq!(
        KinetPacketHeader::read_from(&[0x04, 0x01, 0xDC, 0x4B, 1, 0, 1, 0]),
        Err(KinetError::InvalidMagic(0x0401_DC4B))
    );
    assert_eq!(
        KinetPacketHeader::read_from(&[0x04, 0x01, 0xDC, 0x4A, 2, 0, 1, 0]),
        Err(KinetError::UnsupportedVersion(2))
    );
    assert_eq!(
        KinetPacketHeader::read_from(&[0x04, 0x01, 0xDC, 0x4A, 1, 0, 0x99, 0x09]),
        Err(KinetError::UnknownPacketType(0x0999))
    );
    assert_eq!(
        KinetPacketHeader::read_from(&[0x04, 0x01, 0xDC, 0x4A, 1, 0, 0x03, 0x00]),
        Err(KinetError::UnimplementedPacketType(KinetPacketType::SetIp))
    );
    // a poll whose payload is cut short
    assert_eq!(
        KinetPacketHeader::read_from(&[0x04, 0x01, 0xDC, 0x4A, 1, 0, 1, 0, 0, 0]),
        Err(KinetError::Io(IoErrorKind::UnexpectedEof))
    );
    // a poll whose reserved bytes are not zero
    assert_eq!(
        KinetPacketHeader::read_from(&[
            0x04, 0x01, 0xDC, 0x4A, 1, 0, 1, 0, 0, 0, 0, 0, 10, 0, 0, 1, 0, 1
        ]),
        Err(KinetError::Io(IoErrorKind::InvalidData))
    );
}

#[test]
fn test_packet_type_codes() {
    let all = [
        (KinetPacketType::Poll, 0x0001),
        (KinetPacketType::PollReply, 0x0002),
        (KinetPacketType::SetIp, 0x0003),
        (KinetPacketType::SetUniverse, 0x0005),
        (KinetPacketType::SetName, 0x0006),
        (KinetPacketType::DmxOut, 0x0101),
        (KinetPacketType::DiscoverFixturesSerialRequest, 0x0201),
        (KinetPacketType::DiscoverFixturesSerialReply, 0x0202),
        (KinetPacketType::DiscoverFixturesChannelRequest, 0x0203),
    ];
    for (t, code) in all {
        assert_eq!(t.code(), code);
        assert_eq!(KinetPacketType::from_code(code), Some(t));
    }
    assert_eq!(KinetPacketType::from_code(0x0004), None);
}

#[test]
fn test_try_from_header() {
    let h = KinetPacketHeader::DmxOut(DmxOutHeader::default());
    assert_eq!(DmxOutHeader::try_from(h), Ok(DmxOutHeader::default()));
    assert_eq!(
        PollPayload::try_from(h),
        Err(KinetError::MismatchedPacketType {
            expected: KinetPacketType::Poll,
            actual: KinetPacketType::DmxOut,
        })
    );
    assert_eq!(h.kind(), KinetPacketType::DmxOut);
}
