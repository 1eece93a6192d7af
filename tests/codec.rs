use seesaw::codec::{decode_be, decode_be_signed, encode_be, encode_be_signed};
use seesaw::driver::{read_i16, read_i32, read_i64, read_i8, read_u16, read_u32, read_u64, read_u8};

#[test]
fn encode_is_big_endian() {
    assert_eq!(encode_be(0x1234, 2), vec![0x12, 0x34]);
    assert_eq!(encode_be(0x0102_0304, 4), vec![1, 2, 3, 4]);
    assert_eq!(encode_be(7, 1), vec![7]);
    assert_eq!(encode_be(0x0102_0304_0506_0708, 8), vec![1, 2, 3, 4, 5, 6, 7, 8]);
}

#[test]
fn decode_is_big_endian() {
    assert_eq!(decode_be(&[0x12, 0x34]), 0x1234);
    assert_eq!(decode_be(&[]), 0);
    assert_eq!(decode_be(&[0xff; 8]), u64::MAX);
}

#[test]
fn signed_encoding_is_twos_complement() {
    assert_eq!(encode_be_signed(-1, 4), vec![0xff, 0xff, 0xff, 0xff]);
    assert_eq!(encode_be_signed(-2, 2), vec![0xff, 0xfe]);
    assert_eq!(encode_be_signed(i8::MIN as i64, 1), vec![0x80]);
    assert_eq!(encode_be_signed(i64::MIN, 8), vec![0x80, 0, 0, 0, 0, 0, 0, 0]);
    assert_eq!(decode_be_signed(&[0xff, 0xfe]), -2);
    assert_eq!(decode_be_signed(&[0x7f]), 127);
}

#[test]
fn unsigned_round_trip_every_width() {
    for &v in &[0u64, 1, 0x7f, 0xff] {
        assert_eq!(read_u8(&encode_be(v, 1)) as u64, v);
    }
    for &v in &[0u64, 0x100, 0xbeef, 0xffff] {
        assert_eq!(read_u16(&encode_be(v, 2)) as u64, v);
    }
    for &v in &[0u64, 0x1_0000, 0xdead_beef, u32::MAX as u64] {
        assert_eq!(read_u32(&encode_be(v, 4)) as u64, v);
    }
    for &v in &[0u64, 1 << 40, u64::MAX] {
        assert_eq!(read_u64(&encode_be(v, 8)), v);
    }
}

#[test]
fn signed_round_trip_every_width() {
    for &v in &[i8::MIN, -1, 0, 1, i8::MAX] {
        assert_eq!(read_i8(&encode_be_signed(v as i64, 1)), v);
    }
    for &v in &[i16::MIN, -300, 0, 300, i16::MAX] {
        assert_eq!(read_i16(&encode_be_signed(v as i64, 2)), v);
    }
    for &v in &[i32::MIN, -70000, 0, 70000, i32::MAX] {
        assert_eq!(read_i32(&encode_be_signed(v as i64, 4)), v);
    }
    for &v in &[i64::MIN, -1, 0, i64::MAX] {
        assert_eq!(read_i64(&encode_be_signed(v, 8)), v);
    }
}
