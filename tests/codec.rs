use apples2apples::codec::DEFAULT_MAX_PAYLOAD_LEN;
use apples2apples::{Frame, FrameCodec, Header, HeaderError, Kind, ProtoError, MAGIC, VERSION};
use bytes::{Bytes, BytesMut};

fn wire(kind: Kind, flags: u8, payload: &'static [u8]) -> BytesMut {
    let codec = FrameCodec::default();
    let frame = Frame::new(kind, flags, Bytes::from_static(payload)).expect("frame");
    let mut buffer = BytesMut::new();
    codec.encode(frame, &mut buffer).expect("encode");
    buffer
}

#[test]
fn roundtrip_zero_copy() {
    let codec = FrameCodec::default();
    let payload = Bytes::from_static(b"payload");
    let frame = Frame::new(Kind::Game, 0, payload.clone()).expect("frame");

    let mut buffer = BytesMut::new();
    codec.encode(frame.clone(), &mut buffer).expect("encode");

    let expected_header = Header::new(Kind::Game, 0, payload.len() as u32);
    let mut expected = BytesMut::from(expected_header.as_bytes());
    expected.extend_from_slice(&payload);

    assert_eq!(buffer, expected);

    let decoded = codec.decode(&mut buffer).expect("decode").expect("frame");
    assert_eq!(decoded.payload(), &payload);
    assert_eq!(decoded.header().kind(), Kind::Game);
    assert_eq!(decoded.header().flags(), 0);
    assert_eq!(decoded.header().version(), VERSION);
    assert_eq!(decoded.header().as_bytes()[..4], MAGIC);

    assert!(buffer.is_empty());
}

#[test]
fn game_frame_has_exact_wire_bytes() {
    let mut buffer = wire(Kind::Game, 0, b"payload");
    let mut expected: Vec<u8> = b"A2A!".to_vec();
    expected.extend_from_slice(&[0x00, 0x01, 0x01, 0x00, 0x00, 0x00, 0x00, 0x07]);
    expected.extend_from_slice(b"payload");
    assert_eq!(buffer.len(), 19);
    assert_eq!(&buffer[..], &expected[..]);

    let decoded = FrameCodec::default().decode(&mut buffer).expect("decode").expect("frame");
    assert_eq!(decoded.header().kind(), Kind::Game);
    assert_eq!(decoded.header().flags(), 0);
    assert_eq!(&decoded.payload()[..], b"payload");
    assert!(buffer.is_empty());
}

#[test]
fn round_trip_keeps_kind_flags_and_payload() {
    for (kind, flags) in [(Kind::Control, 0xffu8), (Kind::Game, 3), (Kind::Error, 0x80)] {
        let mut buffer = wire(kind, flags, b"some bytes \x00\x01\xff");
        let decoded = FrameCodec::default().decode(&mut buffer).expect("decode").expect("frame");
        assert_eq!(decoded.header().kind(), kind);
        assert_eq!(decoded.header().flags(), flags);
        assert_eq!(decoded.header().payload_len(), 14);
        assert_eq!(&decoded.into_payload()[..], b"some bytes \x00\x01\xff");
        assert!(buffer.is_empty());
    }
}

#[test]
fn empty_payload_round_trips() {
    let mut buffer = wire(Kind::Control, 1, b"");
    assert_eq!(buffer.len(), 12);
    let decoded = FrameCodec::default().decode(&mut buffer).expect("decode").expect("frame");
    assert_eq!(decoded.header().payload_len(), 0);
    assert!(decoded.payload().is_empty());
}

#[test]
fn byte_at_a_time_needs_more_until_last() {
    let full = wire(Kind::Game, 9, b"hello");
    let codec = FrameCodec::default();
    let mut buffer = BytesMut::new();
    for (i, byte) in full.iter().enumerate() {
        buffer.extend_from_slice(&[*byte]);
        let step = codec.decode(&mut buffer).expect("no error mid-stream");
        if i + 1 < full.len() {
            assert!(step.is_none());
            assert_eq!(buffer.len(), i + 1);
        } else {
            let frame = step.expect("complete frame");
            assert_eq!(&frame.payload()[..], b"hello");
            assert_eq!(frame.header().flags(), 9);
        }
    }
    assert!(buffer.is_empty());
}

#[test]
fn second_frame_stays_buffered() {
    let mut buffer = wire(Kind::Game, 0, b"one");
    buffer.extend_from_slice(&wire(Kind::Error, 2, b"two"));
    let codec = FrameCodec::default();
    let first = codec.decode(&mut buffer).expect("decode").expect("frame");
    assert_eq!(&first.payload()[..], b"one");
    assert_eq!(buffer.len(), 15);
    let second = codec.decode(&mut buffer).expect("decode").expect("frame");
    assert_eq!(second.header().kind(), Kind::Error);
    assert_eq!(&second.payload()[..], b"two");
    assert!(codec.decode(&mut buffer).expect("decode").is_none());
}

#[test]
fn oversized_header_is_rejected_before_payload() {
    let header = Header::new(Kind::Game, 0, 11);
    let mut buffer = BytesMut::from(header.as_bytes());
    let codec = FrameCodec::new(10);
    match codec.decode(&mut buffer) {
        Err(ProtoError::PayloadTooLarge { len, max }) => {
            assert_eq!(len, 11);
            assert_eq!(max, 10);
        }
        other => panic!("unexpected {:?}", other),
    }
    assert_eq!(buffer.len(), 12);
}

#[test]
fn payload_at_limit_is_accepted() {
    let mut buffer = wire(Kind::Game, 0, b"0123456789");
    let frame = FrameCodec::new(10).decode(&mut buffer).expect("decode").expect("frame");
    assert_eq!(frame.payload().len(), 10);
}

#[test]
fn default_limit_is_one_mebibyte() {
    assert_eq!(DEFAULT_MAX_PAYLOAD_LEN, 1_048_576);
    let header = Header::new(Kind::Game, 0, 1_048_577);
    let mut buffer = BytesMut::from(header.as_bytes());
    match FrameCodec::with_default_limit().decode(&mut buffer) {
        Err(ProtoError::PayloadTooLarge { len, max }) => {
            assert_eq!(len, 1_048_577);
            assert_eq!(max, 1_048_576);
        }
        other => panic!("unexpected {:?}", other),
    }
}

#[test]
fn encode_refuses_oversized_payload_and_writes_nothing() {
    let frame = Frame::new(Kind::Game, 0, Bytes::from_static(b"too long")).expect("frame");
    let mut buffer = BytesMut::from(&b"xy"[..]);
    match FrameCodec::new(4).encode(frame, &mut buffer) {
        Err(ProtoError::PayloadTooLarge { len, max }) => {
            assert_eq!(len, 8);
            assert_eq!(max, 4);
        }
        other => panic!("unexpected {:?}", other),
    }
    assert_eq!(&buffer[..], b"xy");
}

#[test]
fn encode_appends_after_existing_bytes() {
    let frame = Frame::new(Kind::Error, 5, Bytes::from_static(b"ab")).expect("frame");
    let mut buffer = BytesMut::from(&b"xy"[..]);
    FrameCodec::default().encode(frame, &mut buffer).expect("encode");
    assert_eq!(&buffer[..2], b"xy");
    assert_eq!(&buffer[2..6], b"A2A!");
    assert_eq!(&buffer[6..], &[0, 1, 2, 5, 0, 0, 0, 2, b'a', b'b'][..]);
}

#[test]
fn corrupted_magic_is_rejected_without_consuming() {
    let mut buffer = wire(Kind::Game, 0, b"payload");
    buffer[..4].copy_from_slice(b"XXXX");
    match FrameCodec::default().decode(&mut buffer) {
        Err(ProtoError::Header(HeaderError::InvalidMagic(m))) => assert_eq!(&m, b"XXXX"),
        other => panic!("unexpected {:?}", other),
    }
    assert_eq!(buffer.len(), 19);
}

#[test]
fn version_mismatch_is_reported() {
    let mut buffer = wire(Kind::Game, 0, b"payload");
    buffer[4] = 0x00;
    buffer[5] = 0x02;
    match FrameCodec::default().decode(&mut buffer) {
        Err(ProtoError::Header(e)) => {
            assert_eq!(e, HeaderError::UnsupportedVersion { found: 2, expected: 1 })
        }
        other => panic!("unexpected {:?}", other),
    }
    assert_eq!(buffer.len(), 19);
}

#[test]
fn unknown_kind_is_reported() {
    let mut buffer = wire(Kind::Game, 0, b"");
    buffer[6] = 7;
    match FrameCodec::default().decode(&mut buffer) {
        Err(ProtoError::Header(e)) => assert_eq!(e, HeaderError::InvalidKind(7)),
        other => panic!("unexpected {:?}", other),
    }
}

#[test]
fn short_buffer_needs_more_data() {
    let mut buffer = BytesMut::from(&b"A2A!\x00\x01"[..]);
    assert!(FrameCodec::default().decode(&mut buffer).expect("decode").is_none());
    assert_eq!(buffer.len(), 6);
}

#[test]
fn from_parts_rejects_length_mismatch() {
    let header = Header::new(Kind::Game, 0, 3);
    match Frame::from_parts(header, Bytes::from_static(b"four")) {
        Err(ProtoError::LengthMismatch { expected, actual }) => {
            assert_eq!(expected, 3);
            assert_eq!(actual, 4);
        }
        other => panic!("unexpected {:?}", other),
    }
    let frame = Frame::from_parts(header, Bytes::from_static(b"abc")).expect("frame");
    assert_eq!(frame.header(), header);
}
