use apples2apples::{Header, HeaderError, Kind, ProtoError, MAGIC, VERSION};

#[test]
fn header_layout_is_big_endian() {
    let header = Header::new(Kind::Error, 0xab, 0x0102_0304);
    assert_eq!(
        header.as_bytes(),
        &[b'A', b'2', b'A', b'!', 0, 1, 2, 0xab, 1, 2, 3, 4][..]
    );
    assert_eq!(header.payload_len(), 0x0102_0304);
    assert_eq!(header.version(), VERSION);
    assert_eq!(header.kind(), Kind::Error);
    assert_eq!(header.flags(), 0xab);
    assert_eq!(MAGIC, *b"A2A!");
}

#[test]
fn builders_change_one_field() {
    let header = Header::new(Kind::Control, 1, 10);
    let flagged = header.with_flags(0x42);
    assert_eq!(flagged.flags(), 0x42);
    assert_eq!(flagged.payload_len(), 10);
    assert_eq!(flagged.kind(), Kind::Control);
    let longer = header.with_payload_len(70_000);
    assert_eq!(longer.payload_len(), 70_000);
    assert_eq!(longer.flags(), 1);
    assert_eq!(&longer.as_bytes()[8..], &[0, 1, 0x11, 0x70][..]);
}

#[test]
fn parse_accepts_what_new_writes() {
    let header = Header::new(Kind::Game, 7, 300);
    let mut bytes = header.as_bytes().to_vec();
    bytes.extend_from_slice(b"trailing");
    assert_eq!(Header::parse(&bytes), Ok(header));
}

#[test]
fn parse_reports_truncation() {
    let header = Header::new(Kind::Game, 7, 300);
    assert_eq!(Header::parse(&header.as_bytes()[..11]), Err(HeaderError::Truncated));
    assert_eq!(Header::parse(&[]), Err(HeaderError::Truncated));
}

#[test]
fn parse_checks_magic_before_version() {
    let bytes = [b'B', b'2', b'A', b'!', 0, 9, 5, 0, 0, 0, 0, 0];
    assert_eq!(Header::parse(&bytes), Err(HeaderError::InvalidMagic(*b"B2A!")));
    let bytes = [b'A', b'2', b'A', b'!', 1, 0, 5, 0, 0, 0, 0, 0];
    assert_eq!(
        Header::parse(&bytes),
        Err(HeaderError::UnsupportedVersion { found: 256, expected: 1 })
    );
    let bytes = [b'A', b'2', b'A', b'!', 0, 1, 3, 0, 0, 0, 0, 0];
    assert_eq!(Header::parse(&bytes), Err(HeaderError::InvalidKind(3)));
}

#[test]
fn kind_bytes_convert_both_ways() {
    assert_eq!(Kind::try_from(0u8), Ok(Kind::Control));
    assert_eq!(Kind::try_from(1u8), Ok(Kind::Game));
    assert_eq!(Kind::try_from(2u8), Ok(Kind::Error));
    assert_eq!(Kind::try_from(9u8), Err(HeaderError::InvalidKind(9)));
    assert_eq!(u8::from(Kind::Error), 2);
    assert!(matches!(
        ProtoError::from(HeaderError::Truncated),
        ProtoError::Header(HeaderError::Truncated)
    ));
}
