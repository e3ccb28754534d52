use snapshot_relay::codec::{CodecError, Receiver, Sender};
use snapshot_relay::error::{Error, ProtocolViolation};
use snapshot_relay::frame::{Frame, FrameRead};

fn frame(payload: &[u8]) -> Frame {
    Frame::seal(payload.to_vec()).unwrap()
}

fn next_payload(receiver: &mut Receiver, at_end: bool) -> Option<Vec<u8>> {
    match receiver.read_frame(at_end) {
        Ok(FrameRead::Frame(payload)) => Some(payload),
        _ => None,
    }
}

#[test]
fn frame_survives_the_codec() {
    let mut sender = Sender::new(0).unwrap();
    let mut receiver = Receiver::new().unwrap();
    let wire = sender.send(&frame(b"{\"x\":1}")).unwrap();
    assert!(!wire.is_empty());
    assert_ne!(wire, b"{\"x\":1}\n".to_vec());
    receiver.feed(&wire).unwrap();
    assert_eq!(next_payload(&mut receiver, false), Some(b"{\"x\":1}".to_vec()));
    assert!(matches!(receiver.read_frame(false), Ok(FrameRead::Pending)));
    assert!(matches!(receiver.read_frame(true), Ok(FrameRead::EndOfStream)));
}

#[test]
fn one_stream_carries_handshake_and_frames() {
    let mut sender = Sender::new(0).unwrap();
    let mut receiver = Receiver::new().unwrap();
    let mut wire = Vec::new();
    wire.extend(sender.send(&frame(b"twc1 abc")).unwrap());
    wire.extend(sender.send(&frame(b"{\"x\":1}")).unwrap());
    wire.extend(sender.send(&frame(b"")).unwrap());
    wire.extend(sender.send(&frame(b"{\"x\":2}\n")).unwrap());
    receiver.feed(&wire).unwrap();
    assert_eq!(next_payload(&mut receiver, false), Some(b"twc1 abc".to_vec()));
    assert_eq!(next_payload(&mut receiver, false), Some(b"{\"x\":1}".to_vec()));
    assert_eq!(next_payload(&mut receiver, false), Some(Vec::new()));
    assert_eq!(next_payload(&mut receiver, false), Some(b"{\"x\":2}".to_vec()));
    assert!(matches!(receiver.read_frame(true), Ok(FrameRead::EndOfStream)));
}

#[test]
fn wire_may_arrive_in_any_pieces() {
    let mut sender = Sender::new(3).unwrap();
    let mut receiver = Receiver::new().unwrap();
    let payload: Vec<u8> = (0..20000u32).map(|i| b'a' + (i % 23) as u8).collect();
    let wire = sender.send(&frame(&payload)).unwrap();
    for piece in wire.chunks(7) {
        receiver.feed(piece).unwrap();
    }
    assert_eq!(next_payload(&mut receiver, false), Some(payload));
    assert!(matches!(receiver.read_frame(false), Ok(FrameRead::Pending)));
}

#[test]
fn large_payload_round_trips() {
    let mut sender = Sender::new(0).unwrap();
    let mut receiver = Receiver::new().unwrap();
    let mut state: u32 = 12345;
    let payload: Vec<u8> = (0..300000)
        .map(|_| {
            state = state.wrapping_mul(1664525).wrapping_add(1013904223);
            let byte = (state >> 24) as u8;
            if byte == b'\n' { b' ' } else { byte }
        })
        .collect();
    let wire = sender.send(&frame(&payload)).unwrap();
    receiver.feed(&wire).unwrap();
    assert_eq!(next_payload(&mut receiver, false), Some(payload));
}

#[test]
fn garbage_on_the_wire_breaks_the_receiver() {
    let mut receiver = Receiver::new().unwrap();
    let first = receiver.feed(b"this is not a zstd stream at all").unwrap_err();
    assert!(matches!(first, CodecError::Outside(_)));
    assert_eq!(first.kind(), Error::Io);
    let second = receiver.feed(b"").unwrap_err();
    assert!(matches!(second, CodecError::Broken));
    assert_eq!(second.kind(), Error::Io);
}

#[test]
fn stream_cut_inside_a_frame_is_a_violation() {
    let mut sender = Sender::new(0).unwrap();
    let mut receiver = Receiver::new().unwrap();
    let whole = sender.send(&frame(b"{\"x\":1}")).unwrap();
    receiver.feed(&whole).unwrap();
    assert_eq!(next_payload(&mut receiver, false), Some(b"{\"x\":1}".to_vec()));
    let mut plain = snapshot_relay::frame::FrameBuffer::new();
    plain.push(b"{\"x\":");
    assert!(matches!(plain.read_frame(false), Ok(FrameRead::Pending)));
    assert_eq!(plain.read_frame(true).unwrap_err(), ProtocolViolation::TruncatedFrame);
}

#[test]
fn finished_stream_is_one_whole_zstd_stream() {
    let mut sender = Sender::new(0).unwrap();
    let mut wire = sender.send(&frame(b"twc2")).unwrap();
    wire.extend(sender.send(&frame(b"{\"x\":1}")).unwrap());
    wire.extend(sender.finish().unwrap());
    let plain = zstd::stream::decode_all(&wire[..]).unwrap();
    assert_eq!(plain, b"twc2\n{\"x\":1}\n".to_vec());
}

#[test]
fn receiver_reads_what_any_zstd_encoder_wrote() {
    let wire = zstd::stream::encode_all(&b"twc2\n{\"x\":1}\n{\"x\":2}\n"[..], 0).unwrap();
    let mut receiver = Receiver::new().unwrap();
    receiver.feed(&wire).unwrap();
    assert_eq!(next_payload(&mut receiver, true), Some(b"twc2".to_vec()));
    assert_eq!(next_payload(&mut receiver, true), Some(b"{\"x\":1}".to_vec()));
    assert_eq!(next_payload(&mut receiver, true), Some(b"{\"x\":2}".to_vec()));
    assert!(matches!(receiver.read_frame(true), Ok(FrameRead::EndOfStream)));
}

#[test]
fn each_frame_can_be_decoded_as_soon_as_it_is_sent() {
    let mut sender = Sender::new(0).unwrap();
    let mut receiver = Receiver::new().unwrap();
    for round in 0..50u32 {
        let payload = format!("{{\"round\":{}}}", round).into_bytes();
        let wire = sender.send(&frame(&payload)).unwrap();
        receiver.feed(&wire).unwrap();
        assert_eq!(next_payload(&mut receiver, false), Some(payload));
        assert!(matches!(receiver.read_frame(false), Ok(FrameRead::Pending)));
    }
}

#[test]
fn payload_with_an_interior_newline_never_reaches_the_wire() {
    let mut sender = Sender::new(0).unwrap();
    let mut receiver = Receiver::new().unwrap();
    let refused = sender.write_frame(b"{\"x\":\n1}\n".to_vec()).unwrap_err();
    assert!(matches!(
        refused,
        CodecError::Protocol(ProtocolViolation::InteriorNewline { at: 5 })
    ));
    assert_eq!(refused.kind(), Error::Protocol(ProtocolViolation::InteriorNewline { at: 5 }));
    let wire = sender.write_frame(b"{\"x\":1}".to_vec()).unwrap();
    receiver.feed(&wire).unwrap();
    assert_eq!(next_payload(&mut receiver, false), Some(b"{\"x\":1}".to_vec()));
    assert!(matches!(receiver.read_frame(true), Ok(FrameRead::EndOfStream)));
}

#[test]
fn written_payloads_are_terminated_once() {
    let mut sender = Sender::new(0).unwrap();
    let mut wire = sender.write_frame(b"a".to_vec()).unwrap();
    wire.extend(sender.write_frame(b"b\n".to_vec()).unwrap());
    wire.extend(sender.write_frame(Vec::new()).unwrap());
    wire.extend(sender.finish().unwrap());
    assert_eq!(zstd::stream::decode_all(&wire[..]).unwrap(), b"a\nb\n\n".to_vec());
}

#[test]
fn broken_receiver_keeps_what_it_had_decoded() {
    let mut sender = Sender::new(0).unwrap();
    let mut receiver = Receiver::new().unwrap();
    receiver.feed(&sender.send(&frame(b"kept")).unwrap()).unwrap();
    assert!(matches!(receiver.feed(b"\xff\xff\xff\xff not zstd"), Err(CodecError::Outside(_))));
    assert!(matches!(
        receiver.feed(&sender.send(&frame(b"late")).unwrap()),
        Err(CodecError::Broken)
    ));
    assert_eq!(next_payload(&mut receiver, true), Some(b"kept".to_vec()));
    assert!(matches!(receiver.read_frame(true), Ok(FrameRead::EndOfStream)));
}

#[test]
fn same_frames_compress_to_the_same_wire() {
    let mut one = Sender::new(0).unwrap();
    let mut other = Sender::new(0).unwrap();
    for payload in [&b"twc2"[..], b"{\"x\":1}", b"{\"x\":1}", b""] {
        assert_eq!(one.send(&frame(payload)).unwrap(), other.send(&frame(payload)).unwrap());
    }
    assert_eq!(one.finish().unwrap(), other.finish().unwrap());
}

#[test]
fn both_ends_can_always_be_made() {
    for level in [i32::MIN, -1000, -7, -1, 0, 1, 3, 19, 22, 23, 1000, i32::MAX] {
        assert!(Sender::new(level).is_ok());
    }
    assert!(Receiver::new().is_ok());
}

#[test]
fn level_decides_how_hard_the_sender_compresses() {
    let payload: Vec<u8> = (0..60000u32).map(|i| b'a' + ((i * i / 7) % 26) as u8).collect();
    let fast = Sender::new(1).unwrap().send(&frame(&payload)).unwrap();
    let hard = Sender::new(19).unwrap().send(&frame(&payload)).unwrap();
    let plain = Sender::new(0).unwrap().send(&frame(&payload)).unwrap();
    let third = Sender::new(3).unwrap().send(&frame(&payload)).unwrap();
    assert_ne!(fast, hard);
    assert_eq!(plain, third);
    for wire in [fast, hard, plain] {
        let mut receiver = Receiver::new().unwrap();
        receiver.feed(&wire).unwrap();
        assert_eq!(next_payload(&mut receiver, false), Some(payload.clone()));
    }
}

#[test]
fn cause_of_a_failure_is_handed_on() {
    let mut receiver = Receiver::new().unwrap();
    match receiver.feed(b"this is not a zstd stream at all") {
        Err(CodecError::Outside(cause)) => assert!(!cause.to_string().is_empty()),
        other => panic!("{:?}", other),
    }
}
