use lightstage::network::{
    heartbeat_of, map_and_validate_targets, parse_pds_label, supplies_healthy, Discovery, DmxBroadcaster, KinetPowerSupply,
    PdsAddress, PdsWatchdog, ReplyOutcome, TargetError, TickPacer, WatchdogChange,
};
use lightstage::renderer::LightStageFrame;
use lightstage::sequence::{
    choose_sequence_file, sequence_file_id_of, sequence_files, zstd_compress, zstd_decompress,
    SequenceNotFound, SequenceStore,
};
use lightstage::state::TickResult;
use lightstage::{HeartBeatPayload, KinetPacketHeader, KinetPayload, PollPayload, PollReplyPayload};

fn pds(ip_last: u8, serial: u32, arc_index: usize, is_rgb: bool) -> KinetPowerSupply {
    KinetPowerSupply {
        remote_adr: PdsAddress {
            ip: [10, 0, 0, ip_last],
            port: 6038,
        },
        serial,
        arc_index,
        is_rgb,
    }
}

#[test]
fn test_parse_pds_label() {
    assert_eq!(parse_pds_label("Arc 0C"), Some((0, true)));
    assert_eq!(parse_pds_label("Arc 11W"), Some((11, false)));
    assert_eq!(parse_pds_label("  Arc\t3C \n"), Some((3, true)));
    assert_eq!(parse_pds_label("Arc +4W"), Some((4, false)));
    assert_eq!(parse_pds_label("Arc 1X"), None);
    assert_eq!(parse_pds_label("Arc C"), None);
    assert_eq!(parse_pds_label("Arc -1C"), None);
    assert_eq!(parse_pds_label("Arc 1 C"), None);
    assert_eq!(parse_pds_label("1C"), None);
    assert_eq!(parse_pds_label(""), None);
    assert_eq!(parse_pds_label("Arc 99999999999999999999999C"), None);
    assert_eq!(parse_pds_label("Arc\u{3000}2W"), Some((2, false)));
}

#[test]
fn test_discovery_processes_each_serial_once() {
    let mut d = Discovery::new(6038);
    let reply = PollReplyPayload {
        src_ip: [10, 37, 211, 3],
        serial: 0x3D00_189B,
        ..PollReplyPayload::default()
    }
    .with_label("Arc 1W")
    .unwrap();
    assert_eq!(
        d.on_reply(&reply),
        ReplyOutcome::Found(KinetPowerSupply {
            remote_adr: PdsAddress {
                ip: [10, 37, 211, 3],
                port: 6038
            },
            serial: 0x3D00_189B,
            arc_index: 1,
            is_rgb: false,
        })
    );
    assert_eq!(d.on_reply(&reply), ReplyOutcome::AlreadySeen);
    let other = PollReplyPayload {
        serial: 2,
        ..PollReplyPayload::default()
    }
    .with_label("Bench supply")
    .unwrap();
    assert_eq!(d.on_reply(&other), ReplyOutcome::Unlabelled);
    assert_eq!(d.found(), 1);
    assert_eq!(d.into_targets().len(), 1);
}

#[test]
fn test_map_targets_ok() {
    let raw = vec![pds(1, 1, 0, true), pds(2, 2, 0, false), pds(3, 3, 1, true), pds(4, 4, 1, false)];
    let (oob, mapped) = map_and_validate_targets(raw, 2);
    assert!(oob.is_empty());
    let targets = mapped.unwrap();
    assert_eq!(targets.get(1, false), Some(pds(4, 4, 1, false)));
    assert_eq!(targets.get(2, false), None);
    assert_eq!(targets.values().len(), 4);
}

#[test]
fn test_map_targets_missing() {
    let raw = vec![pds(1, 1, 0, true), pds(9, 9, 5, true)];
    let (oob, mapped) = map_and_validate_targets(raw, 2);
    assert_eq!(oob, vec![pds(9, 9, 5, true)]);
    match mapped {
        Err(TargetError::Missing(m)) => assert_eq!(m, vec![(0, false), (1, true), (1, false)]),
        other => panic!("expected missing targets, got {other:?}"),
    }
}

#[test]
fn test_map_targets_duplicates() {
    // the same supply twice is fine, a different one for the same arc is not
    let raw = vec![pds(1, 1, 0, true), pds(1, 1, 0, true), pds(2, 2, 0, true)];
    let (_, mapped) = map_and_validate_targets(raw, 1);
    match mapped {
        Err(TargetError::Duplicates(d)) => {
            assert_eq!(d, vec![(pds(1, 1, 0, true), pds(2, 2, 0, true))])
        }
        other => panic!("expected duplicates, got {other:?}"),
    }
}

#[test]
fn test_broadcast_frame_datagrams() {
    let raw = vec![pds(1, 1, 0, true), pds(2, 2, 0, false)];
    let targets = map_and_validate_targets(raw, 1).1.unwrap();
    let mut b = DmxBroadcaster::new(targets, 1);
    let mut frame = LightStageFrame::black(1);
    frame.rgb_universes[0][0] = 0x11;
    frame.white_universes[0][511] = 0x22;
    let ds = b.broadcast_frame(&frame);
    assert_eq!(ds.len(), 2);
    assert_eq!(ds[0].to.ip, [10, 0, 0, 1]);
    assert_eq!(ds[1].to.ip, [10, 0, 0, 2]);
    assert_eq!(ds[0].bytes.len(), 533);
    assert_eq!(&ds[0].bytes[0..8], &[0x04, 0x01, 0xDC, 0x4A, 0x01, 0x00, 0x01, 0x01]);
    assert_eq!(&ds[0].bytes[8..12], &[0, 0, 0, 0]);
    assert_eq!(ds[0].bytes[21], 0x11);
    assert_eq!(ds[1].bytes[532], 0x22);
    assert!(matches!(
        KinetPacketHeader::read_from(&ds[1].bytes),
        Ok(KinetPacketHeader::DmxOut(_))
    ));
    let ds = b.broadcast_frame(&frame);
    assert_eq!(&ds[0].bytes[8..12], &[1, 0, 0, 0]);
}

#[test]
fn test_watchdog_reports_changes_once() {
    let mut w = PdsWatchdog::new();
    assert_eq!(w.observe(7, false), None);
    assert_eq!(w.observe(7, true), Some(WatchdogChange::Lost));
    assert_eq!(w.observe(7, true), None);
    assert_eq!(w.observe(8, true), Some(WatchdogChange::Lost));
    assert_eq!(w.observe(7, false), Some(WatchdogChange::Reconnected));
    assert_eq!(w.observe(7, false), None);
}

#[test]
fn test_tick_pacer() {
    let mut p = TickPacer::new();
    let mut advanced = Vec::new();
    for i in 0..7 {
        if p.frame_due() {
            advanced.push(i);
        }
        p.end_sub_tick(3);
    }
    assert_eq!(advanced, vec![0, 3, 6]);
    assert!(!p.on_frame(TickResult::TriggerCapture));
    assert!(p.on_frame(TickResult::Continue));
    assert!(!p.on_frame(TickResult::Continue));
}

#[test]
fn test_sequence_file_names() {
    let store = SequenceStore::new("/var/lib/lsserver".to_string());
    assert_eq!(store.file_path("01ABC"), "/var/lib/lsserver/01ABC.cbor");
    assert_eq!(store.file_path_zst("01ABC"), "/var/lib/lsserver/01ABC.cbor.zst");
    let slash = SequenceStore::new("seqs/".to_string());
    assert_eq!(slash.file_path("x"), "seqs/x.cbor");
    assert_eq!(
        sequence_file_id_of("01ABC.cbor.zst"),
        Some(("01ABC".to_string(), true))
    );
    assert_eq!(
        sequence_file_id_of("01ABC.cbor"),
        Some(("01ABC".to_string(), false))
    );
    assert_eq!(sequence_file_id_of("notes.txt"), None);
}

#[test]
fn test_broadcast_frame_skips_arcs_without_supply() {
    // arc 1 has no supplies, and the frame has no universe for it
    let (_, targets) = map_and_validate_targets(vec![pds(1, 1, 0, true), pds(2, 2, 0, false)], 1);
    let mut b = DmxBroadcaster::new(targets.unwrap(), 2);
    let frame = LightStageFrame::black(1);
    let ds = b.broadcast_frame(&frame);
    assert_eq!(ds.len(), 2);
    assert_eq!(ds[0].to.ip, [10, 0, 0, 1]);
    assert_eq!(ds[1].to.ip, [10, 0, 0, 2]);
}

fn heartbeat_bytes(code: [u8; 2], hb: &HeartBeatPayload) -> Vec<u8> {
    let mut bytes = vec![0x04, 0x01, 0xDC, 0x4A, 0x01, 0x00, code[0], code[1]];
    hb.write_to(&mut bytes);
    bytes
}

#[test]
fn test_heartbeat_of() {
    let hb = HeartBeatPayload {
        src_ip: [10, 37, 0, 9],
        serial: 0x1234_5678,
        ..Default::default()
    };
    // an unknown type code
    assert_eq!(heartbeat_of(&heartbeat_bytes([0x09, 0x01], &hb)), Some(hb));
    // no code of the packet type table is a heartbeat, even with a heartbeat payload
    for code in [0x0001u16, 0x0002, 0x0003, 0x0005, 0x0006, 0x0101, 0x0201, 0x0202, 0x0203] {
        assert_eq!(heartbeat_of(&heartbeat_bytes(code.to_le_bytes(), &hb)), None);
    }
    // a truncated payload
    let bytes = heartbeat_bytes([0x09, 0x01], &hb);
    assert_eq!(heartbeat_of(&bytes[..bytes.len() - 1]), None);
    // a poll packet is no heartbeat
    let mut poll = Vec::new();
    KinetPacketHeader::from(PollPayload::default()).write_to(&mut poll);
    poll.extend_from_slice(&[0u8; 20]);
    assert_eq!(heartbeat_of(&poll), None);
    // a bad magic
    let mut bad = heartbeat_bytes([0x09, 0x01], &hb);
    bad[0] = 0;
    assert_eq!(heartbeat_of(&bad), None);
    assert_eq!(heartbeat_of(&[0x04, 0x01]), None);
}

#[test]
fn test_choose_sequence_file() {
    assert_eq!(
        choose_sequence_file(Some(vec![1]), Some(vec![2])),
        Ok((vec![1], true))
    );
    assert_eq!(choose_sequence_file(None, Some(vec![2])), Ok((vec![2], false)));
    assert_eq!(choose_sequence_file(None, None), Err(SequenceNotFound));
}

#[test]
fn test_sequence_files_first_of_each_id() {
    let names: Vec<String> = vec![
        "a.cbor".to_string(),
        "notes.txt".to_string(),
        "b.cbor.zst".to_string(),
        "a.cbor.zst".to_string(),
        "c.cbor".to_string(),
    ];
    assert_eq!(
        sequence_files(&names),
        vec![
            (0, "a".to_string(), false),
            (2, "b".to_string(), true),
            (4, "c".to_string(), false),
        ]
    );
    assert_eq!(sequence_files(&Vec::new()), Vec::new());
}

#[test]
fn test_zstd_roundtrip() {
    let data: Vec<u8> = (0..2000u32).map(|i| (i % 7) as u8).collect();
    let compressed = zstd_compress(&data, 3).unwrap();
    assert_ne!(compressed, data);
    assert!(compressed.len() < data.len());
    assert_eq!(zstd_decompress(&compressed), Some(data));
    assert_eq!(zstd_decompress(&[1, 2, 3, 4]), None);
}

#[test]
fn test_supplies_healthy() {
    assert!(!supplies_healthy(&Vec::new()));
    assert!(supplies_healthy(&vec![false, false]));
    assert!(!supplies_healthy(&vec![false, true, false]));
}

#[test]
fn test_sequence_path_with_absolute_name() {
    let store = SequenceStore::new("/var/lib/seq".to_string());
    assert_eq!(store.file_path("/tmp/x"), "/tmp/x.cbor");
    let relative = SequenceStore::new(String::new());
    assert_eq!(relative.file_path_zst("01ABC"), "01ABC.cbor.zst");
    let slash = SequenceStore::new("dir/".to_string());
    assert_eq!(slash.file_path("a"), "dir/a.cbor");
}
