use switch_ldn_tool::crypto::aes_128_ctr_dec;
use switch_ldn_tool::keys::Keys;
use switch_ldn_tool::ldn_frame::{LdnFrame, LdnFrameBuilder, LdnFrameHeader, ParseError};

const CHECKSUM: [u8; 32] = [
    0x02, 0xd8, 0xf8, 0x62, 0x8d, 0xb2, 0xf1, 0xfc, 0xc2, 0xa8, 0xb4, 0x80, 0x48, 0xa3, 0xc6, 0x88,
    0x48, 0xea, 0x37, 0xc9, 0xaa, 0xc2, 0xba, 0x3d, 0x54, 0x2b, 0x17, 0x65, 0x1d, 0x0c, 0xf3, 0x8d,
];
const FRAME_KEY: [u8; 16] = [
    0x9f, 0x9e, 0x6c, 0x2c, 0x6f, 0x79, 0x42, 0x17, 0x29, 0xd5, 0xc3, 0xa9, 0x44, 0x67, 0xce, 0xaa,
];
const CIPHER_BODY: [u8; 37] = [
    0xaa, 0x45, 0x78, 0x78, 0xf1, 0xc7, 0xa4, 0xce, 0xa7, 0xc6, 0x96, 0x26, 0x27, 0x6e, 0x82, 0x35,
    0x0a, 0xb0, 0xb1, 0x73, 0x1b, 0x87, 0x79, 0x62, 0x1d, 0xa5, 0x74, 0x6b, 0x08, 0x9e, 0xc7, 0x11,
    0xa9, 0x39, 0x9d, 0x5d, 0x60,
];

fn fixed_keys() -> Keys {
    let mut keys = Keys::new();
    let lines: Vec<Vec<u8>> = vec![
        b"master_key_00 = 00112233445566778899aabbccddeeff".to_vec(),
        b"aes_kek_generation_source = 0f0e0d0c0b0a09080706050403020100".to_vec(),
        b"aes_key_generation_source = 101112131415161718191a1b1c1d1e1f".to_vec(),
    ];
    keys.read_from_lines(&lines).expect("fixed keys load");
    keys
}

/// Header bytes 1..=34, then content length 5, then nonce aa bb cc dd.
fn header_bytes() -> Vec<u8> {
    let mut h: Vec<u8> = (1..=34).collect();
    h.extend_from_slice(&[0x00, 0x05, 0xaa, 0xbb, 0xcc, 0xdd]);
    h
}

fn plain_frame(checksum: &[u8]) -> Vec<u8> {
    let mut f = header_bytes();
    f.extend_from_slice(checksum);
    f.extend_from_slice(b"hello");
    f
}

#[test]
fn parse_reads_header_and_declared_body() {
    let mut buf = plain_frame(&CHECKSUM);
    buf.extend_from_slice(&[9, 9, 9]);
    let frame = LdnFrame::parse(&buf).expect("complete frame");
    assert_eq!(frame.header().bytes().to_vec(), header_bytes());
    assert_eq!(frame.header().content_length(), 5);
    assert_eq!(frame.content().len(), 37);
    assert_eq!(frame.sha256(), CHECKSUM);
    assert_eq!(frame.to_bytes(), plain_frame(&CHECKSUM));
}

#[test]
fn parse_short_header_is_truncated() {
    assert_eq!(LdnFrame::parse(&[0u8; 39]).err(), Some(ParseError::Truncated));
    assert_eq!(LdnFrame::parse(&[]).err(), Some(ParseError::Truncated));
}

#[test]
fn parse_short_body_is_truncated() {
    let buf = plain_frame(&CHECKSUM);
    assert_eq!(LdnFrame::parse(&buf[..buf.len() - 1]).err(), Some(ParseError::Truncated));
    assert!(LdnFrame::parse(&buf).is_ok());
}

#[test]
fn parse_largest_declared_length() {
    let mut buf = vec![0u8; 40 + 32 + 0xffff];
    buf[34] = 0xff;
    buf[35] = 0xff;
    let frame = LdnFrame::parse(&buf).expect("largest frame");
    assert_eq!(frame.header().content_length(), 0xffff);
    assert_eq!(LdnFrame::parse(&buf[..buf.len() - 1]).err(), Some(ParseError::Truncated));
}

#[test]
fn header_fields() {
    let frame = LdnFrame::parse(&plain_frame(&CHECKSUM)).unwrap();
    let header = frame.header();
    assert_eq!(header.unk1(), [1, 2, 3, 4]);
    assert_eq!(header.unk2(), [11, 12]);
    assert_eq!(header.ssid_str(), "1112131415161718191a1b1c1d1e1f20");
    assert_eq!(
        header.nonce(),
        [0xaa, 0xbb, 0xcc, 0xdd, 0, 0, 0, 0, 0, 0, 0, 0, 0, 0, 0, 0]
    );
}

#[test]
fn empty_frame_and_header() {
    let frame = LdnFrame::new();
    assert_eq!(frame.to_bytes(), vec![0u8; 72]);
    assert_eq!(LdnFrameHeader::new().bytes(), &[0u8; 40]);
    assert_eq!(LdnFrameHeader::new().content_length(), 0);
}

#[test]
fn calculate_sha256_matches_golden_value() {
    let frame = LdnFrame::parse(&plain_frame(&[0u8; 32])).unwrap();
    assert_eq!(frame.calculate_sha256(), CHECKSUM);
}

#[test]
fn refresh_checksum_replaces_only_stale_checksum() {
    let mut frame = LdnFrame::parse(&plain_frame(&[7u8; 32])).unwrap();
    assert!(frame.refresh_checksum());
    assert_eq!(frame.sha256(), CHECKSUM);
    assert!(!frame.refresh_checksum());
    assert_eq!(frame.to_bytes(), plain_frame(&CHECKSUM));
}

#[test]
fn set_sha256_overwrites_checksum_only() {
    let mut frame = LdnFrame::parse(&plain_frame(&CHECKSUM)).unwrap();
    frame.set_sha256(&[0x55; 32]);
    assert_eq!(frame.to_bytes(), plain_frame(&[0x55; 32]));
}

#[test]
fn frame_key_matches_golden_value() {
    let builder = LdnFrameBuilder::new(fixed_keys());
    let frame = LdnFrame::parse(&plain_frame(&CHECKSUM)).unwrap();
    assert_eq!(builder.get_key(frame.header()), FRAME_KEY);
}

#[test]
fn ctr_transform_is_an_involution() {
    let key = [0u8; 16];
    let nonce = [1, 2, 3, 4, 0, 0, 0, 0, 0, 0, 0, 0, 0, 0, 0, 0];
    let mut data = vec![0u8; 20];
    aes_128_ctr_dec(&mut data, &key, &nonce);
    assert_eq!(
        data,
        vec![
            0x1e, 0x1a, 0x81, 0x38, 0xc5, 0xd0, 0x85, 0x26, 0x09, 0xf7, 0x5f, 0x24, 0x8a, 0x98,
            0xa5, 0xae, 0xd7, 0x37, 0x07, 0x24
        ]
    );
    aes_128_ctr_dec(&mut data, &key, &nonce);
    assert_eq!(data, vec![0u8; 20]);
    let mut text = b"any bytes at all, of odd length".to_vec();
    let plain = text.clone();
    aes_128_ctr_dec(&mut text, &FRAME_KEY, &nonce);
    assert_ne!(text, plain);
    aes_128_ctr_dec(&mut text, &FRAME_KEY, &nonce);
    assert_eq!(text, plain);
}

#[test]
fn frame_encrypt_matches_golden_ciphertext() {
    let mut frame = LdnFrame::parse(&plain_frame(&CHECKSUM)).unwrap();
    frame.encrypt(&FRAME_KEY);
    assert_eq!(frame.content(), &CIPHER_BODY[..]);
    frame.decrypt(&FRAME_KEY);
    assert_eq!(frame.to_bytes(), plain_frame(&CHECKSUM));
}

#[test]
fn builder_encrypt_refreshes_stale_checksum() {
    let builder = LdnFrameBuilder::new(fixed_keys());
    let (out, changed) = builder.encrypt(&plain_frame(&[0u8; 32])).unwrap();
    assert!(changed);
    let mut expected = header_bytes();
    expected.extend_from_slice(&CIPHER_BODY);
    assert_eq!(out, expected);
    let plain = builder.decrypt(&out).unwrap();
    assert_eq!(&plain[40..72], &CHECKSUM[..]);
    assert_eq!(plain, plain_frame(&CHECKSUM));
}

#[test]
fn builder_round_trip_keeps_valid_frame() {
    let builder = LdnFrameBuilder::new(fixed_keys());
    let frame = plain_frame(&CHECKSUM);
    let (sealed, changed) = builder.encrypt(&frame).unwrap();
    assert!(!changed);
    assert_ne!(sealed, frame);
    assert_eq!(builder.decrypt(&sealed).unwrap(), frame);
}

#[test]
fn builder_offset_and_padding() {
    let mut builder = LdnFrameBuilder::new(fixed_keys());
    builder.offset = 3;
    builder.padding = 4;
    let mut input = vec![0xe0, 0xe1, 0xe2];
    input.extend_from_slice(&plain_frame(&CHECKSUM));
    input.extend_from_slice(&[0x77; 6]);
    let (sealed, _) = builder.encrypt(&input).unwrap();
    assert_eq!(sealed.len(), 3 + 77 + 4);
    assert_eq!(&sealed[..3], &[0xe0, 0xe1, 0xe2]);
    assert_eq!(&sealed[43..80], &CIPHER_BODY[..]);
    assert_eq!(&sealed[80..], &[0, 0, 0, 0]);
    builder.padding = 0;
    let plain = builder.decrypt(&sealed).unwrap();
    let mut expected = vec![0xe0, 0xe1, 0xe2];
    expected.extend_from_slice(&plain_frame(&CHECKSUM));
    assert_eq!(plain, expected);
}

#[test]
fn builder_truncated_inputs() {
    let mut builder = LdnFrameBuilder::new(fixed_keys());
    let frame = plain_frame(&CHECKSUM);
    assert_eq!(builder.decrypt(&frame[..70]).err(), Some(ParseError::Truncated));
    assert_eq!(builder.encrypt(&frame[..39]).err(), Some(ParseError::Truncated));
    builder.offset = 100;
    assert_eq!(builder.decrypt(&frame).err(), Some(ParseError::Truncated));
    assert_eq!(builder.encrypt(&frame).err(), Some(ParseError::Truncated));
}
