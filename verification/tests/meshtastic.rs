use sigint::meshtastic::{
    filter_meshtastic_ports, frame_packet, meshtastic_port_name, node_index, push_capped, FrameDecoder,
    FrameEvent, MeshtasticMessage, MAX_MESSAGES,
};

fn feed(d: &mut FrameDecoder, bytes: &[u8]) -> Vec<Vec<u8>> {
    let mut out = Vec::new();
    for &b in bytes {
        if let FrameEvent::Packet(p) = d.push_byte(b) {
            out.push(p);
        }
    }
    out
}

#[test]
fn frame_header_layout() {
    assert_eq!(frame_packet(&[1, 2, 3]), vec![0x94, 0x00, 0x03, 0x00, 1, 2, 3]);
    let big = vec![7u8; 300];
    let f = frame_packet(&big);
    assert_eq!(&f[..4], &[0x94, 0x01, 0x2c, 0x00]);
    assert_eq!(f.len(), 304);
}

#[test]
fn frame_roundtrip_through_decoder() {
    let mut d = FrameDecoder::new();
    let payload: Vec<u8> = (0..200u32).map(|i| (i % 251) as u8).collect();
    let packets = feed(&mut d, &frame_packet(&payload));
    assert_eq!(packets, vec![payload.clone()]);
    // Noise before the start byte is skipped; two frames in a row both arrive.
    let mut stream = vec![1u8, 2, 3];
    stream.extend(frame_packet(&[9, 8]));
    stream.extend(frame_packet(&[0x94, 0x94]));
    assert_eq!(feed(&mut d, &stream), vec![vec![9, 8], vec![0x94, 0x94]]);
}

#[test]
fn frame_too_large_is_dropped() {
    let mut d = FrameDecoder::new();
    assert!(matches!(d.push_byte(0x94), FrameEvent::Nothing));
    assert!(matches!(d.push_byte(0x02), FrameEvent::Nothing));
    assert!(matches!(d.push_byte(0x01), FrameEvent::TooLarge(513)));
    // The reader waits for the next start byte.
    assert_eq!(feed(&mut d, &[0x00, 5, 6]), Vec::<Vec<u8>>::new());
    assert_eq!(feed(&mut d, &frame_packet(&[5])), vec![vec![5]]);
}

#[test]
fn frame_max_size_accepted() {
    let mut d = FrameDecoder::new();
    let payload = vec![3u8; 512];
    assert_eq!(feed(&mut d, &frame_packet(&payload)), vec![payload]);
}

#[test]
fn empty_frame_takes_one_byte() {
    let mut d = FrameDecoder::new();
    assert_eq!(feed(&mut d, &frame_packet(&[])), Vec::<Vec<u8>>::new());
    assert_eq!(feed(&mut d, &[42]), vec![vec![42]]);
}

#[test]
fn message_log_keeps_newest() {
    let mut log: Vec<MeshtasticMessage> = Vec::new();
    for i in 0..(MAX_MESSAGES as u32 + 5) {
        let m = MeshtasticMessage { from: i, to: 0xFFFF_FFFF, text: format!("m{i}"), timestamp: i as u64, channel: 0 };
        push_capped(&mut log, m, MAX_MESSAGES);
    }
    assert_eq!(log.len(), MAX_MESSAGES);
    assert_eq!(log[0].from, 5);
    assert_eq!(log[MAX_MESSAGES - 1].text, "m104");
}

#[test]
fn node_lookup_finds_first() {
    let ids = vec![5u32, 9, 5];
    assert_eq!(node_index(&ids, 5), Some(0));
    assert_eq!(node_index(&ids, 9), Some(1));
    assert_eq!(node_index(&ids, 7), None);
}

#[test]
fn port_names() {
    assert!(meshtastic_port_name("/dev/cu.usbserial-0001"));
    assert!(meshtastic_port_name("/dev/ttyACM0"));
    assert!(meshtastic_port_name("COM3 USB"));
    assert!(!meshtastic_port_name("/dev/ttyS0"));
    assert!(!meshtastic_port_name("/dev/cu.Bluetooth-Incoming-Port"));
    let kept = filter_meshtastic_ports(vec![
        "/dev/ttyS0".to_string(),
        "/dev/ttyUSB0".to_string(),
        "/dev/cu.usbmodem1".to_string(),
    ]);
    assert_eq!(kept, vec!["/dev/ttyUSB0".to_string(), "/dev/cu.usbmodem1".to_string()]);
}
