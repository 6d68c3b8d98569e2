use std::fmt::Debug;

use lightstage::{
    DmxOutHeader, FixtureConfiguration, HeartBeatPayload, IoErrorKind, KinetError, KinetPayload,
    PollPayload, PollReplyPayload,
};

fn assert_payload_size<T: KinetPayload + Default>(name: &str) {
    let mut buf = Vec::new();
    T::default().write_to(&mut buf);
    assert_eq!(
        buf.len(),
        T::SIZE,
        "Payload type {name} wire size constant mismatched!"
    );
    assert_eq!(T::PACKET_SIZE, T::SIZE + 8);
}

fn assert_roundtrip<T: KinetPayload + PartialEq + Debug>(original: T) {
    let mut write_buf = Vec::new();
    original.write_to(&mut write_buf);

    let deserialised =
        T::read_from(&write_buf).expect("Failed to deserialise serialised packet!");

    assert_eq!(original, deserialised, "Round-trip packets mismatched!");
    assert_eq!(
        write_buf.len(),
        T::SIZE,
        "Deserialisation did not consume all bytes of serialised data!"
    );
}

#[test]
fn test_payload_sizes_match_constants() {
    assert_payload_size::<PollPayload>("PollPayload");
    assert_payload_size::<PollReplyPayload>("PollReplyPayload");
    assert_payload_size::<HeartBeatPayload>("HeartBeatPayload");
    assert_payload_size::<DmxOutHeader>("DmxOutHeader");
}

#[test]
fn test_poll_roundtrip() {
    assert_roundtrip(PollPayload {
        sequence: 4242,
        magic_ip: [10, 37, 1, 2],
    });
}

#[test]
fn test_pollreply_roundtrip() {
    let mut node_name = [0u8; 60];
    let name_str = b"Generic Power Supply Name";
    node_name[..name_str.len()].copy_from_slice(name_str);

    let mut node_label = [0u8; 33];
    let label_str = b"Generic Power Supply Label";
    node_label[..label_str.len()].copy_from_slice(label_str);

    assert_roundtrip(PollReplyPayload {
        sequence: 0,
        src_ip: [10, 37, 3, 4],
        mac: [0x00, 0x0a, 0xc5, 0x65, 0x43, 0x21],
        data: 0x0001,
        serial: 0x3D00_1234,
        node_name,
        node_label,
    });
}

#[test]
fn test_heartbeat_roundtrip() {
    assert_roundtrip(HeartBeatPayload {
        sequence: 0,
        src_ip: [10, 37, 120, 230],
        mac: [0x00, 0x0a, 0xc5, 0x12, 0x34, 0x56],
        data16: 0x0001,
        serial: 0x3D00_4242,
        data32: 0x0003_0001,
    });
}

#[test]
fn test_dmxout_roundtrip() {
    assert_roundtrip(DmxOutHeader {
        sequence: 420_420,
        ..Default::default()
    });
}

#[test]
fn test_heartbeat_defaults() {
    let hb = HeartBeatPayload::default();
    assert_eq!(hb.data16, 0x0001);
    assert_eq!(hb.data32, 0x0003_0001);
    assert_eq!(hb.src_ip, [0, 0, 0, 0]);
}

#[test]
fn test_short_input_is_eof() {
    assert_eq!(
        PollReplyPayload::read_from(&[0u8; 116]),
        Err(KinetError::Io(IoErrorKind::UnexpectedEof))
    );
    assert_eq!(
        DmxOutHeader::read_from(&[0u8; 12]),
        Err(KinetError::Io(IoErrorKind::UnexpectedEof))
    );
    assert_eq!(
        HeartBeatPayload::read_from(&[]),
        Err(KinetError::Io(IoErrorKind::UnexpectedEof))
    );
}

#[test]
fn test_ignored_bytes_are_ignored() {
    // DmxOut padding byte (index 5) is not checked
    let bytes = [1, 0, 0, 0, 2, 0xEE, 3, 0, 4, 0, 0, 0, 5];
    assert_eq!(
        DmxOutHeader::read_from(&bytes),
        Ok(DmxOutHeader {
            sequence: 1,
            port: 2,
            flags: 3,
            timer_val: 4,
            universe: 5,
        })
    );
    // PollReply reserved bytes (20..24) are not checked
    let mut reply = Vec::new();
    PollReplyPayload::default().write_to(&mut reply);
    reply[21] = 0x55;
    assert_eq!(
        PollReplyPayload::read_from(&reply),
        Ok(PollReplyPayload::default())
    );
}

#[test]
fn test_little_endian_fields() {
    let mut buf = Vec::new();
    HeartBeatPayload {
        sequence: 0x0102_0304,
        src_ip: [1, 2, 3, 4],
        mac: [5, 6, 7, 8, 9, 10],
        data16: 0xA0B0,
        serial: 0x1122_3344,
        data32: 0x5566_7788,
    }
    .write_to(&mut buf);
    assert_eq!(
        buf,
        [
            4, 3, 2, 1, 1, 2, 3, 4, 5, 6, 7, 8, 9, 10, 0xB0, 0xA0, 0x44, 0x33, 0x22, 0x11, 0x88,
            0x77, 0x66, 0x55
        ]
    );
}

#[test]
fn test_with_name_and_label() {
    let p = PollReplyPayload::default()
        .with_name("PDS-X")
        .unwrap()
        .with_label("Arc 1W")
        .unwrap();
    assert_eq!(&p.node_name[..6], b"PDS-X\0");
    assert_eq!(p.node_name_as_str(), Some("PDS-X"));
    assert_eq!(p.node_label_as_str(), Some("Arc 1W"));

    // not ASCII
    assert!(PollReplyPayload::default().with_label("Arc é").is_none());
    // no room for the terminating null
    assert!(PollReplyPayload::default()
        .with_label(&"x".repeat(33))
        .is_none());
    assert!(PollReplyPayload::default()
        .with_label(&"x".repeat(32))
        .is_some());
    assert!(PollReplyPayload::default()
        .with_name(&"x".repeat(60))
        .is_none());

    // renaming clears the old name
    let q = p.with_name("A").unwrap();
    assert_eq!(q.node_name_as_str(), Some("A"));
    assert_eq!(q.node_label, p.node_label);
}

#[test]
fn test_as_str_needs_terminator_and_utf8() {
    let mut p = PollReplyPayload::default();
    p.node_label = [b'x'; 33];
    assert_eq!(p.node_label_as_str(), None);
    p.node_label[0] = 0xFF;
    p.node_label[1] = 0;
    assert_eq!(p.node_label_as_str(), None);
    p.node_label[0] = 0;
    assert_eq!(p.node_label_as_str(), Some(""));
}

#[test]
fn test_fixture_configuration_codes() {
    assert_eq!(FixtureConfiguration::DmxAddress.code(), 0x41);
    assert_eq!(FixtureConfiguration::DimmingCurve.code(), 0x6d);
    assert_eq!(FixtureConfiguration::Resolution.code(), 0x6e);
    assert_eq!(FixtureConfiguration::StartupChannel1.code(), 0x43);
    assert_eq!(FixtureConfiguration::StartupChannel2.code(), 0x44);
    assert_eq!(FixtureConfiguration::StartupChannel3.code(), 0x45);
}
