//! Byte codecs, framing, checksums and the handshake step rule, on
//! concrete values.
use penumbra::bytes::{
    push_be16, push_be32, push_le16, push_le32, push_le64, read_be16, read_be32, read_le16,
    read_le32, read_le64,
};
use penumbra::framing::{generate_header, parse_header, DataType};
use penumbra::port::{
    build_line_coding, default_baud, handshake_step, known_port_kind, ConnectionType,
    HandshakeProgress,
};
use penumbra::xflash::flash::checksum16;
use penumbra::xml::proto::{parse_dec, parse_hex, parse_ok_value, parse_packet_length};

#[test]
fn endian_readers_concrete() {
    let data = [0x01u8, 0x02, 0x03, 0x04, 0x05, 0x06, 0x07, 0x08];
    assert_eq!(read_le16(&data, 0), 0x0201);
    assert_eq!(read_be16(&data, 0), 0x0102);
    assert_eq!(read_le32(&data, 0), 0x04030201);
    assert_eq!(read_be32(&data, 0), 0x01020304);
    assert_eq!(read_le64(&data, 0), 0x0807060504030201);
}

#[test]
fn endian_writers_round_trip() {
    let mut out = Vec::new();
    push_le16(&mut out, 0x0707);
    assert_eq!(out, vec![0x07, 0x07]);
    let mut out = Vec::new();
    push_be16(&mut out, 0x1234);
    assert_eq!(out, vec![0x12, 0x34]);
    let mut out = Vec::new();
    push_le32(&mut out, 0xFEEEEEEF);
    assert_eq!(out, vec![0xEF, 0xEE, 0xEE, 0xFE]);
    assert_eq!(read_le32(&out, 0), 0xFEEEEEEF);
    let mut out = Vec::new();
    push_be32(&mut out, 0x00201000);
    assert_eq!(out, vec![0x00, 0x20, 0x10, 0x00]);
    let mut out = Vec::new();
    push_le64(&mut out, 0x4000_0000);
    assert_eq!(out, vec![0x00, 0x00, 0x00, 0x40, 0, 0, 0, 0]);
}

#[test]
fn frame_round_trip() {
    // Encoding a frame then parsing its header gives the data type and the
    // payload length back, and the payload follows unchanged.
    let payload = [0xAAu8, 0xBB, 0xCC];
    let mut frame = generate_header(1, payload.len());
    frame.extend_from_slice(&payload);
    assert_eq!(frame.len(), 12 + 3);
    let (dtype, len) = parse_header(&frame).unwrap();
    assert_eq!(dtype, 1);
    assert_eq!(len, 3);
    assert_eq!(&frame[12..], &payload);
}

#[test]
fn frame_magic_mismatch_rejected() {
    let mut frame = generate_header(1, 0);
    frame[0] = 0x00;
    assert!(parse_header(&frame).is_err());
}

#[test]
fn frame_header_bytes() {
    let hdr = generate_header(1, 4);
    assert_eq!(hdr, vec![0xEF, 0xEE, 0xEE, 0xFE, 0x01, 0, 0, 0, 0x04, 0, 0, 0]);
}

#[test]
fn data_type_codes() {
    assert_eq!(DataType::ProtocolFlow.code(), 1);
    assert_eq!(DataType::Message.code(), 2);
}

#[test]
fn checksum_is_sum_mod_0x10000() {
    assert_eq!(checksum16(&[]), 0);
    assert_eq!(checksum16(&[1, 2, 3]), 6);
    assert_eq!(checksum16(&[0xFF; 0x101]), (0xFFu32 * 0x101) % 0x10000);
    let chunk: Vec<u8> = (0..=255u8).collect();
    let expected: u32 = chunk.iter().map(|&b| b as u32).sum::<u32>() % 0x10000;
    assert_eq!(checksum16(&chunk), expected);
}

#[test]
fn handshake_step_rules() {
    // An echoed greeting byte at step zero means already past handshake.
    assert_eq!(handshake_step(0, 0xA0), HandshakeProgress::Done);
    // The expected complements advance; the fourth completes.
    assert_eq!(handshake_step(0, 0x5F), HandshakeProgress::Step(1));
    assert_eq!(handshake_step(1, 0xF5), HandshakeProgress::Step(2));
    assert_eq!(handshake_step(2, 0xAF), HandshakeProgress::Step(3));
    assert_eq!(handshake_step(3, 0xFA), HandshakeProgress::Done);
    // Any single mutated reply byte forces a full restart.
    assert_eq!(handshake_step(1, 0xF4), HandshakeProgress::Step(0));
    assert_eq!(handshake_step(2, 0x00), HandshakeProgress::Step(0));
    assert_eq!(handshake_step(3, 0xFB), HandshakeProgress::Step(0));
    assert_eq!(handshake_step(0, 0x5E), HandshakeProgress::Step(0));
}

#[test]
fn known_ports_and_bauds() {
    assert_eq!(known_port_kind(0x0E8D, 0x0003), Some(ConnectionType::Brom));
    assert_eq!(known_port_kind(0x0E8D, 0x2000), Some(ConnectionType::Preloader));
    assert_eq!(known_port_kind(0x0E8D, 0x2001), Some(ConnectionType::Da));
    assert_eq!(known_port_kind(0x0E8D, 0x2002), Some(ConnectionType::Da));
    assert_eq!(known_port_kind(0x0E8D, 0x9999), None);
    assert_eq!(known_port_kind(0x1234, 0x0003), None);
    assert_eq!(default_baud(ConnectionType::Brom), 115200);
    assert_eq!(default_baud(ConnectionType::Preloader), 921600);
    assert_eq!(default_baud(ConnectionType::Da), 921600);
}

#[test]
fn line_coding_layout() {
    // Baud little-endian, one stop bit, no parity, eight data bits.
    assert_eq!(build_line_coding(921600), vec![0x00, 0x10, 0x0E, 0x00, 0x00, 0x00, 0x08]);
    assert_eq!(build_line_coding(115200), vec![0x00, 0xC2, 0x01, 0x00, 0x00, 0x00, 0x08]);
}

#[test]
fn number_parsers() {
    assert_eq!(parse_hex(b"2000"), Some(0x2000));
    assert_eq!(parse_hex(b"dEaD"), Some(0xDEAD));
    assert_eq!(parse_hex(b""), None);
    assert_eq!(parse_hex(b"12g4"), None);
    assert_eq!(parse_dec(b"512"), Some(512));
    assert_eq!(parse_dec(b"0x12"), None);
    assert_eq!(parse_packet_length(b"0x1000"), Some(0x1000));
    assert_eq!(parse_packet_length(b"4096"), Some(4096));
    assert_eq!(parse_ok_value(b"OK@0x200\0"), Some(0x200));
    assert_eq!(parse_ok_value(b"OK@0xff"), Some(0xFF));
    assert_eq!(parse_ok_value(b"NO@0x200\0"), None);
}
