use blinds_controller::{
    decode_frame, encode_frame, stall_guard_report, FrameError, FrameEvent, FrameReader, OutgoingRpcPacket,
    MAX_OUTBOUND_PAYLOAD,
};

#[test]
fn outbound_frame_layout() {
    let f = encode_frame(b"{\"ready\":{}}").unwrap();
    assert_eq!(f[0], 14);
    assert_eq!(&f[1..13], b"{\"ready\":{}}");
    assert_eq!(&f[13..], b"\r\n");
    assert_eq!(encode_frame(&[]).unwrap(), vec![2, b'\r', b'\n']);
}

#[test]
fn outbound_frame_too_large() {
    let big = vec![b'x'; MAX_OUTBOUND_PAYLOAD + 1];
    assert_eq!(encode_frame(&big), Err(FrameError::TooLarge));
    let largest = vec![b'x'; MAX_OUTBOUND_PAYLOAD];
    assert_eq!(encode_frame(&largest).unwrap()[0], 255);
}

#[test]
fn outbound_frame_round_trip() {
    let payload = b"{\"position\":{\"channel\":2,\"current\":{\"position\":5,\"tilt\":0},\"desired\":{\"position\":9,\"tilt\":-3}}}";
    let f = encode_frame(payload).unwrap();
    assert_eq!(decode_frame(&f).unwrap(), payload.to_vec());
    let largest = vec![b'y'; MAX_OUTBOUND_PAYLOAD];
    assert_eq!(decode_frame(&encode_frame(&largest).unwrap()).unwrap(), largest);
}

#[test]
fn malformed_outbound_frames_are_rejected() {
    assert_eq!(decode_frame(&[]), None);
    assert_eq!(decode_frame(&[1, b'\n']), None);
    assert_eq!(decode_frame(&[4, b'a', b'b', b'\r']), None);
    assert_eq!(decode_frame(&[4, b'a', b'b', b'c', b'\n']), None);
    assert_eq!(decode_frame(&[3, b'a', b'\r', b'\n', 9]), Some(vec![b'a']));
}

#[test]
fn zero_length_frame_requests_reset() {
    let mut r = FrameReader::new();
    assert!(matches!(r.push(0x00), FrameEvent::Reset));
    // nothing else changed: the next frame reads normally
    assert!(matches!(r.push(1), FrameEvent::Pending));
    match r.push(b'x') {
        FrameEvent::Frame(p) => assert_eq!(p, vec![b'x']),
        other => panic!("unexpected {:?}", other),
    }
}

#[test]
fn inbound_frames_are_split_by_length() {
    let mut r = FrameReader::new();
    let mut frames = Vec::new();
    for b in [3u8, b'a', b'b', b'c', 2, b'd', b'e'] {
        if let FrameEvent::Frame(p) = r.push(b) {
            frames.push(p);
        }
    }
    assert_eq!(frames, vec![b"abc".to_vec(), b"de".to_vec()]);
}

#[test]
fn zero_inside_payload_is_data() {
    let mut r = FrameReader::new();
    assert!(matches!(r.push(2), FrameEvent::Pending));
    assert!(matches!(r.push(0), FrameEvent::Pending));
    match r.push(0) {
        FrameEvent::Frame(p) => assert_eq!(p, vec![0, 0]),
        other => panic!("unexpected {:?}", other),
    }
}

#[test]
fn stall_guard_reading_defaults_to_zero() {
    assert_eq!(stall_guard_report(3, Some(77)), OutgoingRpcPacket::StallGuardResult { channel: 3, sg_result: 77 });
    assert_eq!(stall_guard_report(1, None), OutgoingRpcPacket::StallGuardResult { channel: 1, sg_result: 0 });
}
