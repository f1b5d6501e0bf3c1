//! Tests of the LEB128 codec and the integer parsers built on it.

use raftik::leb128::{decode_sleb128_i64, decode_uleb128_u64, Leb128Err};
use raftik::parse_num::{parse_varint32, parse_varint64, parse_varuint32, parse_varuint64};

#[test]
fn test_decode_uleb128_u64() {
    let input = [0xE5, 0x8E, 0x26];
    let result = decode_uleb128_u64(&input, 3, 64);
    assert_eq!(result, Ok((624485, 3)));
}

#[test]
fn test_decode_uleb128_u64_overflow() {
    let input = [0xFF, 0xFF, 0xFF, 0xFF, 0xFF, 0xFF, 0xFF, 0xFF];
    let result = decode_uleb128_u64(&input, 8, 64);
    assert!(result.is_err());
    matches!(result.err(), Some(Leb128Err::Overflow));
}

#[test]
fn test_decode_uleb128_u64_unterminated() {
    let input = [0xE5, 0x8E];
    let result = decode_uleb128_u64(&input, 2, 64);
    assert!(result.is_err());
    matches!(result.err(), Some(Leb128Err::Unterminated));
}

#[test]
fn test_decode_sleb128_i64() {
    let input = [0xC0, 0xBB, 0x78];
    let result = decode_sleb128_i64(&input, 4, 64);
    assert_eq!(result, Ok((-123456, 3)));
}

#[test]
fn test_decode_sleb128_i32() {
    let input = [0xff, 0x7f];
    let result = decode_sleb128_i64(&input, 2, 16);
    assert_eq!(result, Ok((-1, 2)));
}

#[test]
fn test_parse_varuint32() {
    let input = [0xE5, 0x8E, 0x26];
    let result = parse_varuint32(&input, 0);
    assert_eq!(result, Ok((624485, 3)));
}

#[test]
fn test_parse_varuint64() {
    let input = [0xE5, 0x8E, 0x26];
    let result = parse_varuint64(&input, 0);
    assert_eq!(result, Ok((624485, 3)));
}

#[test]
fn test_parse_varint32() {
    let input = [0x7f];
    let result = parse_varint32(&input, 0);
    assert_eq!(result, Ok((-1, 1)));
}

#[test]
fn test_parse_varint64() {
    let input = [0x7f];
    let result = parse_varint64(&input, 0);
    assert_eq!(result, Ok((-1, 1)));
}

/// The canonical unsigned encoding of a value, least significant seven
/// bits first.
fn uleb_bytes(mut v: u64) -> Vec<u8> {
    let mut out = Vec::new();
    loop {
        if v < 0x80 {
            out.push(v as u8);
            return out;
        }
        out.push((v % 0x80 + 0x80) as u8);
        v /= 0x80;
    }
}

/// The canonical signed encoding of a value.
fn sleb_bytes(mut v: i64) -> Vec<u8> {
    let mut out = Vec::new();
    loop {
        if (-64..64).contains(&v) {
            out.push((v & 0x7f) as u8);
            return out;
        }
        out.push((v & 0x7f) as u8 | 0x80);
        v >>= 7;
    }
}

#[test]
fn uleb128_round_trip_u32() {
    for v in [0u32, 1, 127, 128, 624485, u32::MAX - 1, u32::MAX] {
        let e = uleb_bytes(v as u64);
        assert!(e.len() <= 5);
        assert_eq!(decode_uleb128_u64(&e, 5, 32), Ok((v as u64, e.len())));
    }
}

#[test]
fn uleb128_round_trip_u64() {
    for v in [0u64, 128, 1 << 32, u64::MAX - 1, u64::MAX] {
        let e = uleb_bytes(v);
        assert!(e.len() <= 10);
        assert_eq!(decode_uleb128_u64(&e, 10, 64), Ok((v, e.len())));
    }
}

#[test]
fn sleb128_round_trip_i32() {
    for v in [0i32, 1, -1, 63, 64, -64, -65, i32::MAX, i32::MIN] {
        let e = sleb_bytes(v as i64);
        assert!(e.len() <= 5);
        assert_eq!(decode_sleb128_i64(&e, 5, 32), Ok((v as i64, e.len())));
        assert_eq!(parse_varint32(&e, 0), Ok((v, e.len())));
    }
}

#[test]
fn sleb128_round_trip_i64() {
    for v in [0i64, -1, i64::MAX, i64::MIN, 0x1234_5678_9abc_def0] {
        let e = sleb_bytes(v);
        assert!(e.len() <= 10);
        assert_eq!(decode_sleb128_i64(&e, 10, 64), Ok((v, e.len())));
    }
}

#[test]
fn uleb128_overflow_wide_value() {
    // The canonical encoding of 2^32 does not fit 32 bits.
    let e = uleb_bytes(1u64 << 32);
    assert_eq!(decode_uleb128_u64(&e, 5, 32), Err(Leb128Err::Overflow));
    // Neither does u32::MAX + 1 worth of set bits above the window.
    let input = [0x80, 0x80, 0x80, 0x80, 0x10];
    assert_eq!(decode_uleb128_u64(&input, 5, 32), Err(Leb128Err::Overflow));
}

#[test]
fn uleb128_overflow_too_many_continuation_bytes() {
    // More than the five continuation bytes a 32-bit value may take.
    let input = [0x80, 0x80, 0x80, 0x80, 0x80, 0x01];
    assert_eq!(decode_uleb128_u64(&input, 6, 32), Err(Leb128Err::Overflow));
    assert_eq!(decode_sleb128_i64(&input, 6, 32), Err(Leb128Err::Overflow));
}

#[test]
fn sleb128_overflow_out_of_window() {
    // 2^31 and -2^31 - 1 lie just outside the signed 32-bit window;
    // the window bounds themselves decode.
    let e = sleb_bytes(1i64 << 31);
    assert_eq!(decode_sleb128_i64(&e, 5, 32), Err(Leb128Err::Overflow));
    let e = sleb_bytes(-(1i64 << 31) - 1);
    assert_eq!(decode_sleb128_i64(&e, 5, 32), Err(Leb128Err::Overflow));
    assert_eq!(decode_sleb128_i64(&sleb_bytes((1i64 << 31) - 1), 5, 32), Ok(((1i64 << 31) - 1, 5)));
    assert_eq!(decode_sleb128_i64(&sleb_bytes(-(1i64 << 31)), 5, 32), Ok((-(1i64 << 31), 5)));
}

#[test]
fn leb128_empty_input_unterminated() {
    assert_eq!(decode_uleb128_u64(&[], 5, 32), Err(Leb128Err::Unterminated));
    assert_eq!(decode_sleb128_i64(&[], 5, 32), Err(Leb128Err::Unterminated));
}
