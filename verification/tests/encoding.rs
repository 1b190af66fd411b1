use bitcoin_handshake::digest::checksum;
use bitcoin_handshake::encoding::{
    get_compact_size, get_le, put_bytes, put_compact_size, put_le, to_signed32, to_signed64,
    to_unsigned32, to_unsigned64,
};
use bitcoin_handshake::message::{Address, VersionMessage};

fn le(value: u64, width: usize) -> Vec<u8> {
    let mut out = vec![0xEE];
    put_le(&mut out, value, width);
    assert_eq!(out[0], 0xEE);
    out[1..].to_vec()
}

fn compact(n: u64) -> Vec<u8> {
    let mut out = Vec::new();
    put_compact_size(&mut out, n);
    out
}

#[test]
fn little_endian_words() {
    assert_eq!(le(0x1234_5678, 4), vec![0x78, 0x56, 0x34, 0x12]);
    assert_eq!(le(0x0102_0304_0506_0708, 8), vec![8, 7, 6, 5, 4, 3, 2, 1]);
    assert_eq!(le(0xABCD, 2), vec![0xCD, 0xAB]);
    assert_eq!(le(0x1234_5678, 2), vec![0x78, 0x56]);
    assert_eq!(le(7, 0), Vec::<u8>::new());
    assert_eq!(le(u64::MAX, 8), vec![0xFF; 8]);
}

#[test]
fn little_endian_words_read_back() {
    let bytes = [0xEE, 0x78, 0x56, 0x34, 0x12, 0xFF, 0xFF, 0xFF, 0xFF, 0xFF];
    assert_eq!(get_le(&bytes, 1, 4), 0x1234_5678);
    assert_eq!(get_le(&bytes, 1, 2), 0x5678);
    assert_eq!(get_le(&bytes, 2, 8), 0xFFFF_FFFF_FF12_3456);
    assert_eq!(get_le(&bytes, 3, 0), 0);
}

#[test]
fn signed_words_are_twos_complement() {
    assert_eq!(to_unsigned32(0), 0);
    assert_eq!(to_unsigned32(70001), 70001);
    assert_eq!(to_unsigned32(-1), 0xFFFF_FFFF);
    assert_eq!(to_unsigned32(i32::MIN), 0x8000_0000);
    assert_eq!(to_unsigned32(i32::MAX), 0x7FFF_FFFF);
    assert_eq!(to_signed32(0xFFFF_FFFF), -1);
    assert_eq!(to_signed32(0x8000_0000), i32::MIN);
    assert_eq!(to_signed32(0x7FFF_FFFF), i32::MAX);
    assert_eq!(to_unsigned64(-2), 0xFFFF_FFFF_FFFF_FFFE);
    assert_eq!(to_unsigned64(i64::MIN), 0x8000_0000_0000_0000);
    assert_eq!(to_unsigned64(1_700_000_000), 1_700_000_000);
    assert_eq!(to_signed64(0xFFFF_FFFF_FFFF_FFFE), -2);
    assert_eq!(to_signed64(0x8000_0000_0000_0000), i64::MIN);
    assert_eq!(to_signed64(u64::MAX >> 1), i64::MAX);
    for value in [i32::MIN, -70001, -1, 0, 1, 70001, i32::MAX] {
        assert_eq!(to_signed32(to_unsigned32(value)), value);
        assert_eq!(to_unsigned32(value), value as u32);
    }
    for value in [i64::MIN, -1, 0, 1, i64::MAX] {
        assert_eq!(to_signed64(to_unsigned64(value)), value);
        assert_eq!(to_unsigned64(value), value as u64);
    }
}

#[test]
fn compact_sizes_take_the_shortest_form() {
    assert_eq!(compact(0), vec![0]);
    assert_eq!(compact(0xFC), vec![0xFC]);
    assert_eq!(compact(0xFD), vec![0xFD, 0xFD, 0x00]);
    assert_eq!(compact(0xFFFF), vec![0xFD, 0xFF, 0xFF]);
    assert_eq!(compact(0x1_0000), vec![0xFE, 0x00, 0x00, 0x01, 0x00]);
    assert_eq!(compact(0xFFFF_FFFF), vec![0xFE, 0xFF, 0xFF, 0xFF, 0xFF]);
    assert_eq!(compact(0x1_0000_0000), vec![0xFF, 0, 0, 0, 0, 1, 0, 0, 0]);
    assert_eq!(compact(u64::MAX), vec![0xFF; 9]);
}

#[test]
fn compact_sizes_read_back() {
    for n in [0, 1, 0xFC, 0xFD, 0xFFFF, 0x1_0000, 0xFFFF_FFFF, 0x1_0000_0000, u64::MAX] {
        let mut bytes = vec![0xAA, 0xBB];
        put_compact_size(&mut bytes, n);
        let width = bytes.len() - 2;
        bytes.push(0xCC);
        assert_eq!(get_compact_size(&bytes, 2), Some((n, width)));
    }
}

#[test]
fn compact_sizes_that_are_not_read() {
    assert_eq!(get_compact_size(&[], 0), None);
    assert_eq!(get_compact_size(&[1, 2], 2), None);
    assert_eq!(get_compact_size(&[0xFD, 0xFC, 0x00], 0), None);
    assert_eq!(get_compact_size(&[0xFD, 0xFD], 0), None);
    assert_eq!(get_compact_size(&[0xFE, 0xFF, 0xFF, 0x00, 0x00], 0), None);
    assert_eq!(get_compact_size(&[0xFE, 0, 0, 1], 0), None);
    assert_eq!(get_compact_size(&[0xFF, 0xFF, 0xFF, 0xFF, 0xFF, 0, 0, 0, 0], 0), None);
    assert_eq!(get_compact_size(&[0xFF, 0, 0, 0, 0, 1, 0, 0], 0), None);
}

#[test]
fn bytes_are_appended_as_they_are() {
    let mut out = vec![1];
    put_bytes(&mut out, &[2, 3, 4]);
    put_bytes(&mut out, &[]);
    assert_eq!(out, vec![1, 2, 3, 4]);
}

#[test]
fn checksum_is_the_start_of_the_double_hash() {
    assert_eq!(checksum(&[]), [0x5D, 0xF6, 0xE0, 0xE2]);
    assert_eq!(checksum(b"hello"), [0x95, 0x95, 0xC9, 0xDF]);
    assert_ne!(checksum(&[0, 0, 0, 0]), [0, 0, 0, 0]);
}

#[test]
fn address_record_layout() {
    let address = Address {
        services: 0x0102_0304_0506_0708,
        address: [0, 0, 0, 0, 0, 0, 0, 0, 0, 0, 0xFF, 0xFF, 10, 0, 0, 1],
        port: 8333,
    };
    let mut record = vec![0x77];
    address.write_to(&mut record);
    assert_eq!(
        record,
        vec![
            0x77, 8, 7, 6, 5, 4, 3, 2, 1, 0, 0, 0, 0, 0, 0, 0, 0, 0, 0, 0xFF, 0xFF, 10, 0, 0, 1,
            0x20, 0x8D
        ]
    );
    assert_eq!(Address::read_from(&record, 1), address);
}

#[test]
fn version_payload_layout() {
    let message = VersionMessage {
        version: 70001,
        services: 1,
        timestamp: -2,
        receiver: Address { services: 0, address: [0x11; 16], port: 0x0102 },
        sender: Address { services: 3, address: [0x22; 16], port: 0xFFFE },
        nonce: 0x0807_0605_0403_0201,
        user_agent: "/x/".to_string(),
        start_height: -1,
        relay: true,
    };
    let mut payload = Vec::new();
    message.write_to(&mut payload);
    let mut expected = vec![0x71, 0x11, 0x01, 0x00];
    expected.extend_from_slice(&[1, 0, 0, 0, 0, 0, 0, 0]);
    expected.extend_from_slice(&[0xFE, 0xFF, 0xFF, 0xFF, 0xFF, 0xFF, 0xFF, 0xFF]);
    expected.extend_from_slice(&[0; 8]);
    expected.extend_from_slice(&[0x11; 16]);
    expected.extend_from_slice(&[0x01, 0x02]);
    expected.extend_from_slice(&[3, 0, 0, 0, 0, 0, 0, 0]);
    expected.extend_from_slice(&[0x22; 16]);
    expected.extend_from_slice(&[0xFF, 0xFE]);
    expected.extend_from_slice(&[1, 2, 3, 4, 5, 6, 7, 8]);
    expected.extend_from_slice(&[3, b'/', b'x', b'/']);
    expected.extend_from_slice(&[0xFF, 0xFF, 0xFF, 0xFF]);
    expected.push(1);
    assert_eq!(payload, expected);
    assert_eq!(VersionMessage::read_from(&payload), Some(message));
    assert_eq!(VersionMessage::read_from(&payload[..79]), None);
    assert_eq!(VersionMessage::read_from(&payload[..payload.len() - 1]), None);
}
