use process_memory_reader::decode::decode_bool;
use process_memory_reader::decode::decode_i32_le;
use process_memory_reader::decode::decode_i64_le;
use process_memory_reader::decode::decode_le_bytes;
use process_memory_reader::decode::decode_u128_le;
use process_memory_reader::decode::decode_u32_le;
use process_memory_reader::decode::decode_u64_le;

#[test]
fn u32_one_from_little_endian_pattern() {
    let bytes: Vec<u8> = vec![0x01, 0x00, 0x00, 0x00];
    assert_eq!(decode_u32_le(&bytes), 1);
}

#[test]
fn u32_byte_order_is_little_endian() {
    let bytes: Vec<u8> = vec![0x78, 0x56, 0x34, 0x12];
    assert_eq!(decode_u32_le(&bytes), 0x1234_5678);
}

#[test]
fn u32_maximum_value() {
    let bytes: Vec<u8> = vec![0xFF, 0xFF, 0xFF, 0xFF];
    assert_eq!(decode_u32_le(&bytes), u32::MAX);
}

#[test]
fn u64_byte_order_is_little_endian() {
    let bytes: Vec<u8> = vec![0xEF, 0xCD, 0xAB, 0x89, 0x67, 0x45, 0x23, 0x01];
    assert_eq!(decode_u64_le(&bytes), 0x0123_4567_89AB_CDEF);
}

#[test]
fn u128_round_trips_known_value() {
    let value: u128 = 0x0102_0304_0506_0708_090A_0B0C_0D0E_0F10;
    let bytes: Vec<u8> = value.to_le_bytes().to_vec();
    assert_eq!(decode_u128_le(&bytes), value);
}

#[test]
fn i32_negative_one_is_all_ones() {
    let bytes: Vec<u8> = vec![0xFF, 0xFF, 0xFF, 0xFF];
    assert_eq!(decode_i32_le(&bytes), -1);
}

#[test]
fn i32_most_negative_value() {
    let bytes: Vec<u8> = vec![0x00, 0x00, 0x00, 0x80];
    assert_eq!(decode_i32_le(&bytes), i32::MIN);
}

#[test]
fn i32_positive_value_unchanged() {
    let bytes: Vec<u8> = vec![0x2A, 0x00, 0x00, 0x00];
    assert_eq!(decode_i32_le(&bytes), 42);
}

#[test]
fn i64_round_trips_negative_value() {
    let value: i64 = -123_456_789_012_345;
    let bytes: Vec<u8> = value.to_le_bytes().to_vec();
    assert_eq!(decode_i64_le(&bytes), value);
}

#[test]
fn short_runs_decode_as_their_value() {
    let bytes: Vec<u8> = vec![0x05, 0x01];
    assert_eq!(decode_le_bytes(&bytes), 0x0105);
    let empty: Vec<u8> = vec![];
    assert_eq!(decode_le_bytes(&empty), 0);
}

#[test]
fn bool_true_only_on_exactly_one() {
    assert!(!decode_bool(0));
    assert!(decode_bool(1));
    assert!(!decode_bool(2));
    assert!(!decode_bool(255));
}
