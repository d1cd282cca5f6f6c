use gameboy::rdb_packet::{ParseError, RdbPacket};

#[test]
fn packetify_frames_and_checksums() {
    let out = RdbPacket::packetify(b"hwbreak+");
    assert_eq!(out, b"$hwbreak+#0F".to_vec());
    let empty = RdbPacket::packetify(b"");
    assert_eq!(empty, b"$#00".to_vec());
}

#[test]
fn parse_accepts_a_checksummed_packet() {
    let packet = RdbPacket::parse(b"vMustReplyEmpty#3a").unwrap();
    assert_eq!(packet.data.len(), 1);
    assert_eq!(packet.data[0], b"vMustReplyEmpty".to_vec());
}

#[test]
fn parse_trims_acknowledgements_and_splits_fields() {
    // "qSupported:multiprocess" with leading acknowledgement byte;
    // checksum of the payload is 0x6F + ... computed below.
    let payload = b"ab;cd:ef,gh";
    let mut sum: u32 = 0;
    for b in payload.iter() {
        sum += *b as u32;
    }
    let framed = format!("+{}#{:02x}", "ab;cd:ef,gh", sum % 256);
    let packet = RdbPacket::parse(framed.as_bytes()).unwrap();
    assert_eq!(packet.data.len(), 4);
    assert_eq!(packet.data[0], b"ab".to_vec());
    assert_eq!(packet.data[1], b"cd".to_vec());
    assert_eq!(packet.data[2], b"ef".to_vec());
    assert_eq!(packet.data[3], b"gh".to_vec());
}

#[test]
fn parse_keeps_prefixed_queries_whole() {
    let payload = b"qL1160";
    let mut sum: u32 = 0;
    for b in payload.iter() {
        sum += *b as u32;
    }
    let framed = format!("qL1160#{:02x}", sum % 256);
    let packet = RdbPacket::parse(framed.as_bytes()).unwrap();
    assert_eq!(packet.data.len(), 1);
    assert_eq!(packet.data[0], b"qL".to_vec());
}

#[test]
fn parse_rejects_missing_frame_byte() {
    match RdbPacket::parse(b"qSupported") {
        Err(ParseError::MalformedPacket) => (),
        _ => panic!("expected a malformed-packet error"),
    }
}

#[test]
fn parse_rejects_bad_checksum() {
    match RdbPacket::parse(b"vMustReplyEmpty#3b") {
        Err(ParseError::IncorrectChecksum) => (),
        _ => panic!("expected a checksum error"),
    }
}

#[test]
fn parse_rejects_unreadable_checksum() {
    match RdbPacket::parse(b"abc#zz") {
        Err(ParseError::MalformedPacket) => (),
        _ => panic!("expected a malformed-packet error"),
    }
    match RdbPacket::parse(b"abc#") {
        Err(ParseError::MalformedPacket) => (),
        _ => panic!("expected a malformed-packet error"),
    }
}
