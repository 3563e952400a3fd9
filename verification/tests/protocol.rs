use kwoo_sensor_collector::clock::{epoch_ms, now_ms};
use kwoo_sensor_collector::crc::{crc16, crc_valid};
use kwoo_sensor_collector::decimal::decimal_text;
use kwoo_sensor_collector::frames::{read_gateway, Response};
use kwoo_sensor_collector::gateway::{Gateway, GatewayError};
use kwoo_sensor_collector::hex_text::hex_bytes;
use kwoo_sensor_collector::modbus::{frame_len, read_frame};

const TWO_REGISTERS: [u8; 9] = [1, 3, 4, 0, 1, 0, 2, 0x2a, 0x32];
const ONE_INPUT: [u8; 7] = [1, 4, 2, 0x12, 0x34, 0xb4, 0x47];
const FROM_STAR: [u8; 11] = [0x2a, 3, 6, 0, 1, 0, 2, 0, 3, 0x17, 0x85];
const REGISTRATION: &[u8] = b"*26051501*";

fn decode_all(bytes: &[u8]) -> (Vec<Response>, Vec<u8>) {
    let mut buf = Vec::new();
    let out = read_gateway(&mut buf, bytes);
    (out, buf)
}

#[test]
fn crc_and_frame() {
    assert_eq!(
        hex_bytes(&read_frame(0x0b, 3, 0, 32)),
        "0B 03 00 00 00 20 44 B8"
    );
}

#[test]
fn parse_len() {
    assert_eq!(frame_len(&[1, 3, 4]), Some(9));
    assert_eq!(frame_len(&[1, 6, 0, 0, 0, 1, 0, 0]), Some(8));
}

#[test]
fn frame_len_edges() {
    assert_eq!(frame_len(&[]), None);
    assert_eq!(frame_len(&[1, 3]), None);
    assert_eq!(frame_len(&[1, 4, 255]), Some(260));
    assert_eq!(frame_len(&[1, 4, 0]), Some(5));
    assert_eq!(frame_len(&[1, 0x83, 2]), Some(0));
    assert_eq!(frame_len(&[1, 16, 2]), Some(0));
}

#[test]
fn crc_of_known_messages() {
    assert_eq!(crc16(b"123456789"), 0x4b37);
    assert_eq!(crc16(&[]), 0xffff);
    assert_eq!(crc16(&[0]), 0x40bf);
}

#[test]
fn crc_valid_needs_a_matching_trailer() {
    assert!(crc_valid(&TWO_REGISTERS));
    assert!(crc_valid(&[0xff, 0xff]));
    assert!(!crc_valid(&[]));
    assert!(!crc_valid(&[0xff]));
    assert!(!crc_valid(&[0, 0]));
}

#[test]
fn crc_leaves_zero_over_a_sealed_frame() {
    assert_eq!(crc16(&TWO_REGISTERS), 0);
    assert_eq!(crc16(&read_frame(17, 4, 0x1234, 0xabcd)), 0);
}

#[test]
fn every_damage_of_two_neighbours_is_seen() {
    for at in 0..TWO_REGISTERS.len() - 1 {
        for mask in 1..=u16::MAX {
            let mut damaged = TWO_REGISTERS;
            damaged[at] ^= (mask & 0xff) as u8;
            damaged[at + 1] ^= (mask >> 8) as u8;
            assert!(!crc_valid(&damaged));
        }
    }
}

#[test]
fn messages_of_one_byte_have_different_crcs() {
    let mut crcs: Vec<u16> = (0..=u8::MAX).map(|b| crc16(&[b])).collect();
    crcs.sort();
    crcs.dedup();
    assert_eq!(crcs.len(), 256);
}

#[test]
fn read_frame_puts_high_bytes_first() {
    let frame = read_frame(17, 4, 0x1234, 0xabcd);
    assert_eq!(&frame[..6], &[17, 4, 0x12, 0x34, 0xab, 0xcd]);
    assert_eq!(frame.len(), 8);
    assert!(crc_valid(&frame));
}

#[test]
fn hex_bytes_edges() {
    assert_eq!(hex_bytes(&[]), "");
    assert_eq!(hex_bytes(&[0xaf]), "AF");
    assert_eq!(hex_bytes(&[0, 0x9a, 0xff]), "00 9A FF");
}

#[test]
fn different_requests_differ_on_the_wire() {
    let first = read_frame(1, 3, 0x0102, 0x0304);
    assert_ne!(first, read_frame(2, 3, 0x0102, 0x0304));
    assert_ne!(first, read_frame(1, 4, 0x0102, 0x0304));
    assert_ne!(first, read_frame(1, 3, 0x0201, 0x0304));
    assert_ne!(first, read_frame(1, 3, 0x0102, 0x0403));
}

#[test]
fn hex_bytes_differ_where_bytes_do() {
    assert_ne!(hex_bytes(&[1, 0x11]), hex_bytes(&[0x11, 1]));
    assert_ne!(hex_bytes(&[0]), hex_bytes(&[0, 0]));
}

#[test]
fn a_frame_becomes_a_response() {
    let (out, rest) = decode_all(&TWO_REGISTERS);
    assert_eq!(out.len(), 1);
    assert_eq!((out[0].addr, out[0].func, out[0].crc_ok), (1, 3, true));
    assert_eq!(out[0].raw, TWO_REGISTERS);
    assert!(rest.is_empty());
}

#[test]
fn a_wrong_crc_is_told() {
    let mut damaged = ONE_INPUT;
    damaged[3] ^= 1;
    let (out, _) = decode_all(&damaged);
    assert_eq!(out.len(), 1);
    assert!(!out[0].crc_ok);
    assert_eq!(out[0].raw, damaged);
}

#[test]
fn heartbeats_and_registrations_are_dropped() {
    let mut stream = vec![0x56, 0x56];
    stream.extend_from_slice(REGISTRATION);
    stream.push(0x56);
    stream.extend_from_slice(&ONE_INPUT);
    stream.extend_from_slice(REGISTRATION);
    stream.extend_from_slice(&TWO_REGISTERS);
    let (out, rest) = decode_all(&stream);
    assert_eq!(out.len(), 2);
    assert_eq!(out[0].raw, ONE_INPUT);
    assert_eq!(out[1].raw, TWO_REGISTERS);
    assert!(rest.is_empty());
}

#[test]
fn pieces_make_no_difference() {
    let mut stream = vec![0x56];
    stream.extend_from_slice(REGISTRATION);
    stream.extend_from_slice(&TWO_REGISTERS);
    stream.extend_from_slice(&[9, 9, 9]);
    stream.extend_from_slice(&FROM_STAR);
    stream.extend_from_slice(&[7, 6, 0, 0, 0, 1, 0, 0]);
    stream.extend_from_slice(&ONE_INPUT);
    stream.extend_from_slice(&[1, 3]);
    let (whole, whole_rest) = decode_all(&stream);
    for size in 1..stream.len() {
        let mut buf = Vec::new();
        let mut out = Vec::new();
        for piece in stream.chunks(size) {
            out.extend(read_gateway(&mut buf, piece));
            assert!(buf.len() < 260);
        }
        assert_eq!(buf, whole_rest);
        assert_eq!(out.len(), whole.len());
        for (a, b) in out.iter().zip(&whole) {
            assert_eq!((a.addr, a.func, a.crc_ok), (b.addr, b.func, b.crc_ok));
            assert_eq!(a.raw, b.raw);
        }
    }
}

#[test]
fn unfinished_frames_wait() {
    let (out, rest) = decode_all(&TWO_REGISTERS[..8]);
    assert!(out.is_empty());
    assert_eq!(rest, &TWO_REGISTERS[..8]);
    let (out, rest) = decode_all(b"*2605");
    assert!(out.is_empty());
    assert_eq!(rest, b"*2605");
    let (out, rest) = decode_all(&[]);
    assert!(out.is_empty() && rest.is_empty());
}

#[test]
fn a_short_answer_of_unit_42_waits_for_more() {
    let short = [0x2a, 3, 2, 0, 1, 0, 0];
    let (out, rest) = decode_all(&short);
    assert!(out.is_empty());
    assert_eq!(rest, short);
    let (out, rest) = decode_all(&FROM_STAR);
    assert_eq!(out.len(), 1);
    assert!(out[0].crc_ok);
    assert!(rest.is_empty());
}

#[test]
fn answers_of_unit_86_are_taken_for_heartbeats() {
    let (out, _) = decode_all(&[0x56, 3, 2, 0, 1, 0, 0]);
    assert!(out.is_empty());
}

#[test]
fn write_answers_are_swallowed() {
    let mut stream = vec![7, 6, 0, 0, 0, 1, 0, 0];
    stream.extend_from_slice(&ONE_INPUT);
    let (out, rest) = decode_all(&stream);
    assert_eq!(out.len(), 1);
    assert_eq!(out[0].raw, ONE_INPUT);
    assert!(rest.is_empty());
}

#[test]
fn unknown_functions_are_skipped_byte_by_byte() {
    let mut stream = vec![1, 0x83, 2];
    stream.extend_from_slice(&TWO_REGISTERS);
    let (out, _) = decode_all(&stream);
    assert!(out.iter().all(|r| r.func == 3 || r.func == 4));
    let (out, rest) = decode_all(&[1, 0x83, 2, 0xc0, 0xf1]);
    assert!(out.is_empty());
    assert_eq!(rest, [0xc0, 0xf1]);
}

#[test]
fn the_longest_answer_is_260_bytes() {
    let mut raw = vec![5, 4, 255];
    raw.resize(258, 0xaa);
    let crc = crc16(&raw);
    raw.push((crc & 0xff) as u8);
    raw.push((crc >> 8) as u8);
    assert_eq!(raw.len(), 260);
    let (out, rest) = decode_all(&raw);
    assert_eq!(out.len(), 1);
    assert!(out[0].crc_ok);
    assert!(rest.is_empty());
}

#[test]
fn decimal_text_agrees_with_std() {
    for n in [0, 1, 9, 10, 99, 100, 1700000000, -1, -10, -987654321, i64::MAX, i64::MIN] {
        assert_eq!(decimal_text(n), n.to_string());
    }
}

#[test]
fn stamps_before_1970_are_zero() {
    assert_eq!(epoch_ms(None), 0);
    assert_eq!(epoch_ms(Some(0)), 0);
    assert_eq!(epoch_ms(Some(1_700_000_000_123)), 1_700_000_000_123);
    assert_eq!(epoch_ms(Some(i64::MAX as u128)), i64::MAX);
    assert_eq!(epoch_ms(Some(i64::MAX as u128 + 1)), i64::MIN);
}

#[test]
fn the_clock_has_passed_2023() {
    let first = now_ms();
    assert!(first > 1_672_531_200_000);
    assert!(now_ms() >= first);
}

#[test]
fn one_gateway_at_a_time() {
    let mut gateway: Gateway<Vec<u8>> = Gateway::new();
    assert!(gateway.admits());
    assert_eq!(gateway.send_to().err(), Some(GatewayError::NotConnected));
    assert_eq!(GatewayError::NotConnected.message(), "no gateway connected");
    gateway.connect(vec![1]);
    assert!(!gateway.admits());
    gateway.send_to().unwrap().push(2);
    assert_eq!(gateway.writer, Some(vec![1, 2]));
    gateway.disconnect();
    assert!(gateway.admits());
}
