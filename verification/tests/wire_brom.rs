//! The boot-ROM dialog over a scripted port: handshake replays, echo
//! discipline, and the per-command endianness.
use penumbra::connection::Connection;
use penumbra::port::{brom_handshake, ConnectionType, MtkPort, ReplayPort};

fn brom_port(input: Vec<u8>) -> ReplayPort {
    ReplayPort::new(input, ConnectionType::Brom, 115200)
}

#[test]
fn handshake_completes_on_clean_transcript() {
    let mut port = brom_port(vec![0x5F, 0xF5, 0xAF, 0xFA]);
    assert!(brom_handshake(&mut port).is_ok());
    assert_eq!(port.written(), &vec![0xA0, 0x0A, 0x50, 0x05]);
    assert_eq!(port.remaining(), 0);
}

#[test]
fn handshake_restarts_after_a_mutated_reply() {
    // The second reply byte is off once; the exchange restarts from the
    // beginning and then completes.
    let mut port = brom_port(vec![0x5F, 0xF4, 0x5F, 0xF5, 0xAF, 0xFA]);
    assert!(brom_handshake(&mut port).is_ok());
    assert_eq!(port.written(), &vec![0xA0, 0x0A, 0xA0, 0x0A, 0x50, 0x05]);
}

#[test]
fn handshake_stops_on_echoed_greeting() {
    // A device already past the handshake echoes the greeting byte.
    let mut port = brom_port(vec![0xA0]);
    assert!(brom_handshake(&mut port).is_ok());
    assert_eq!(port.written(), &vec![0xA0]);
}

#[test]
fn handshake_gives_up_without_replies() {
    let mut port = brom_port(vec![]);
    assert!(brom_handshake(&mut port).is_err());
}

#[test]
fn handshake_skipped_in_agent_stage() {
    let mut port = ReplayPort::new(vec![], ConnectionType::Da, 921600);
    assert!(brom_handshake(&mut port).is_ok());
    assert_eq!(port.written().len(), 0);
}

#[test]
fn preloader_handshake_sends_wake_byte() {
    let mut port = ReplayPort::new(vec![0x5F, 0xF5, 0xAF, 0xFA], ConnectionType::Preloader, 921600);
    assert!(brom_handshake(&mut port).is_ok());
    assert_eq!(port.written(), &vec![0xA0, 0xA0, 0x0A, 0x50, 0x05]);
}

#[test]
fn echo_requires_byte_exact_reply() {
    let mut conn = Connection::new(brom_port(vec![0xAA]));
    assert!(conn.echo(&[0xAA]).is_ok());
    let mut conn = Connection::new(brom_port(vec![0xAB]));
    assert!(conn.echo(&[0xAA]).is_err());
}

#[test]
fn check_compares_whole_buffers() {
    let conn = Connection::new(brom_port(vec![]));
    assert!(conn.check(&[1, 2], &[1, 2]).is_ok());
    assert!(conn.check(&[1, 2], &[1, 3]).is_err());
    assert!(conn.check(&[1], &[1, 2]).is_err());
}

#[test]
fn hw_code_payload_is_big_endian_status_little() {
    // The device reports 0x707: payload big-endian, status little-endian.
    let mut conn = Connection::new(brom_port(vec![0xFD, 0x07, 0x07, 0x00, 0x00]));
    assert_eq!(conn.get_hw_code().unwrap(), 0x707);
    assert_eq!(conn.port.written(), &vec![0xFD]);
    // A non-zero status surfaces as a preloader error.
    let mut conn = Connection::new(brom_port(vec![0xFD, 0x07, 0x07, 0x01, 0x00]));
    assert!(conn.get_hw_code().is_err());
}

#[test]
fn target_config_is_big_endian() {
    let mut conn = Connection::new(brom_port(vec![0xD8, 0x00, 0x00, 0x00, 0x07, 0x00, 0x00]));
    assert_eq!(conn.get_target_config().unwrap(), 0x00000007);
}

#[test]
fn hw_sw_ver_fields_little_endian() {
    let mut conn = Connection::new(brom_port(vec![
        0xFC, 0x00, 0xCA, 0x01, 0x00, 0x02, 0x00, 0x00, 0x00,
    ]));
    assert_eq!(conn.get_hw_sw_ver().unwrap(), (0xCA00, 0x0001, 0x0002));
}

#[test]
fn soc_id_reads_length_prefixed_blob() {
    let mut conn = Connection::new(brom_port(vec![
        0xE7, 0x00, 0x00, 0x00, 0x04, 0xDE, 0xAD, 0xBE, 0xEF, 0x00, 0x00,
    ]));
    assert_eq!(conn.get_soc_id().unwrap(), vec![0xDE, 0xAD, 0xBE, 0xEF]);
}

#[test]
fn soc_id_silence_means_unsupported() {
    // The device echoes the opcode and stays silent: no identifier.
    let mut conn = Connection::new(brom_port(vec![0xE7]));
    assert_eq!(conn.get_soc_id().unwrap(), Vec::<u8>::new());
}

#[test]
fn send_da_arguments_travel_big_endian() {
    let data = [0x11u8, 0x22, 0x33, 0x44];
    let mut input = vec![0xD7];
    input.extend_from_slice(&[0x00, 0x20, 0x10, 0x00]);  // address 0x201000
    input.extend_from_slice(&[0x00, 0x00, 0x00, 0x04]);  // length
    input.extend_from_slice(&[0x00, 0x00, 0x00, 0x00]);  // signature length
    input.extend_from_slice(&[0x00, 0x00]);  // status, big-endian
    input.extend_from_slice(&[0xBE, 0xEF]);  // device checksum
    input.extend_from_slice(&[0x00, 0x00]);  // final status
    let mut conn = Connection::new(brom_port(input));
    assert!(conn.send_da(&data, 4, 0x201000, 0).is_ok());
    let mut expected = vec![0xD7];
    expected.extend_from_slice(&[0x00, 0x20, 0x10, 0x00]);
    expected.extend_from_slice(&[0x00, 0x00, 0x00, 0x04]);
    expected.extend_from_slice(&[0x00, 0x00, 0x00, 0x00]);
    expected.extend_from_slice(&data);
    assert_eq!(conn.port.written(), &expected);
}

#[test]
fn send_da_rejects_little_endian_echo() {
    // A device echoing the address little-endian breaks the exchange.
    let mut input = vec![0xD7];
    input.extend_from_slice(&[0x00, 0x10, 0x20, 0x00]);
    let mut conn = Connection::new(brom_port(input));
    assert!(conn.send_da(&[0x11], 1, 0x201000, 0).is_err());
}

#[test]
fn jump_da_argument_travels_little_endian() {
    let mut input = vec![0xD5];
    input.extend_from_slice(&[0x00, 0x10, 0x20, 0x00]);  // address 0x201000 little-endian
    input.extend_from_slice(&[0x00, 0x00]);  // status, little-endian
    let mut conn = Connection::new(brom_port(input));
    assert!(conn.jump_da(0x201000).is_ok());
    let mut expected = vec![0xD5];
    expected.extend_from_slice(&[0x00, 0x10, 0x20, 0x00]);
    assert_eq!(conn.port.written(), &expected);
    // The same transcript with a big-endian echo fails.
    let mut input = vec![0xD5];
    input.extend_from_slice(&[0x00, 0x20, 0x10, 0x00]);
    let mut conn = Connection::new(brom_port(input));
    assert!(conn.jump_da(0x201000).is_err());
}

#[test]
fn read32_round_trip() {
    let mut input = vec![0xD1];
    input.extend_from_slice(&[0x00, 0xA0, 0x00, 0x10]);  // address little-endian
    input.extend_from_slice(&[0x08, 0x00, 0x00, 0x00]);  // byte count little-endian
    input.extend_from_slice(&[0x00, 0x00]);  // status
    input.extend_from_slice(&[1, 2, 3, 4, 5, 6, 7, 8]);  // payload
    input.extend_from_slice(&[0x00, 0x00]);  // closing status
    let mut conn = Connection::new(brom_port(input));
    assert_eq!(conn.read32(0x1000A000, 8).unwrap(), vec![1, 2, 3, 4, 5, 6, 7, 8]);
}
