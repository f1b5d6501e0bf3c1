//! Variable-width integer parsers: LEB128 decoding at a cursor position,
//! with the byte budget and bit width of each WebAssembly integer shape.

use vstd::prelude::*;
use vstd::arithmetic::power2::{pow2, lemma2_to64, lemma2_to64_rest};
use vstd::slice::slice_subrange;
use crate::leb128::{
    decode_uleb128_u64, decode_sleb128_i64, in_signed_window, lemma_terminator_unique,
    lemma_uleb_value_agree, lemma_uleb128_round_trip, sleb_ok_at, sleb_overflow, sleb_value,
    terminator_at, uleb_encode, uleb_ok_at, uleb_overflow, uleb_value, Leb128Err,
};
use crate::parse_error::ParseError;

verus! {

/// What a 32-bit unsigned LEB128 parse at `pos` yields: the value and the
/// position after it, or the exact error.
pub open spec fn spec_parse_varuint32(s: Seq<u8>, pos: int) -> Result<(u32, int), ParseError> {
    let tail = s.subrange(pos, s.len() as int);
    if exists|t: int| uleb_ok_at(tail, 5, 32, t) {
        let t = choose|t: int| uleb_ok_at(tail, 5, 32, t);
        Ok((uleb_value(tail, t + 1) as u32, pos + t + 1))
    } else if uleb_overflow(tail, 5, 32) {
        Err(ParseError::IntegerOverflow)
    } else {
        Err(ParseError::IntegerUnterminated)
    }
}

/// What a 64-bit unsigned LEB128 parse at `pos` yields.
pub open spec fn spec_parse_varuint64(s: Seq<u8>, pos: int) -> Result<(u64, int), ParseError> {
    let tail = s.subrange(pos, s.len() as int);
    if exists|t: int| uleb_ok_at(tail, 10, 64, t) {
        let t = choose|t: int| uleb_ok_at(tail, 10, 64, t);
        Ok((uleb_value(tail, t + 1) as u64, pos + t + 1))
    } else if uleb_overflow(tail, 10, 64) {
        Err(ParseError::IntegerOverflow)
    } else {
        Err(ParseError::IntegerUnterminated)
    }
}

/// What a 32-bit signed LEB128 parse at `pos` yields.
pub open spec fn spec_parse_varint32(s: Seq<u8>, pos: int) -> Result<(i32, int), ParseError> {
    let tail = s.subrange(pos, s.len() as int);
    if exists|t: int| sleb_ok_at(tail, 5, 32, t) {
        let t = choose|t: int| sleb_ok_at(tail, 5, 32, t);
        Ok((sleb_value(tail, t + 1) as i32, pos + t + 1))
    } else if sleb_overflow(tail, 5, 32) {
        Err(ParseError::IntegerOverflow)
    } else {
        Err(ParseError::IntegerUnterminated)
    }
}

/// What a 64-bit signed LEB128 parse at `pos` yields.
pub open spec fn spec_parse_varint64(s: Seq<u8>, pos: int) -> Result<(i64, int), ParseError> {
    let tail = s.subrange(pos, s.len() as int);
    if exists|t: int| sleb_ok_at(tail, 10, 64, t) {
        let t = choose|t: int| sleb_ok_at(tail, 10, 64, t);
        Ok((sleb_value(tail, t + 1) as i64, pos + t + 1))
    } else if sleb_overflow(tail, 10, 64) {
        Err(ParseError::IntegerOverflow)
    } else {
        Err(ParseError::IntegerUnterminated)
    }
}

/// Parses an unsigned 32-bit integer (at most five bytes) at `pos`.
pub fn parse_varuint32(input: &[u8], pos: usize) -> (r: Result<(u32, usize), ParseError>)
    requires
        pos <= input@.len(),
    ensures
        match r {
            Ok(p) => spec_parse_varuint32(input@, pos as int) == Ok::<(u32, int), ParseError>(
                (p.0, p.1 as int),
            ) && pos < p.1 <= input@.len(),
            Err(e) => spec_parse_varuint32(input@, pos as int) == Err::<(u32, int), ParseError>(e),
        },
{
    let tail = slice_subrange(input, pos, input.len());
    proof {
        lemma2_to64();
        lemma2_to64_rest();
    }
    match decode_uleb128_u64(tail, 5, 32) {
        Ok((v, used)) => {
            proof {
                let t = choose|t: int| uleb_ok_at(tail@, 5, 32, t);
                crate::leb128::lemma_terminator_unique(tail@, t, used - 1);
            }
            Ok((v as u32, pos + used))
        },
        Err(Leb128Err::Overflow) => Err(ParseError::IntegerOverflow),
        Err(Leb128Err::Unterminated) => Err(ParseError::IntegerUnterminated),
    }
}

/// Parses an unsigned 64-bit integer (at most ten bytes) at `pos`.
pub fn parse_varuint64(input: &[u8], pos: usize) -> (r: Result<(u64, usize), ParseError>)
    requires
        pos <= input@.len(),
    ensures
        match r {
            Ok(p) => spec_parse_varuint64(input@, pos as int) == Ok::<(u64, int), ParseError>(
                (p.0, p.1 as int),
            ) && pos < p.1 <= input@.len(),
            Err(e) => spec_parse_varuint64(input@, pos as int) == Err::<(u64, int), ParseError>(e),
        },
{
    let tail = slice_subrange(input, pos, input.len());
    match decode_uleb128_u64(tail, 10, 64) {
        Ok((v, used)) => {
            proof {
                let t = choose|t: int| uleb_ok_at(tail@, 10, 64, t);
                crate::leb128::lemma_terminator_unique(tail@, t, used - 1);
            }
            Ok((v, pos + used))
        },
        Err(Leb128Err::Overflow) => Err(ParseError::IntegerOverflow),
        Err(Leb128Err::Unterminated) => Err(ParseError::IntegerUnterminated),
    }
}

/// Parses a signed 32-bit integer (at most five bytes) at `pos`.
pub fn parse_varint32(input: &[u8], pos: usize) -> (r: Result<(i32, usize), ParseError>)
    requires
        pos <= input@.len(),
    ensures
        match r {
            Ok(p) => spec_parse_varint32(input@, pos as int) == Ok::<(i32, int), ParseError>(
                (p.0, p.1 as int),
            ) && pos < p.1 <= input@.len(),
            Err(e) => spec_parse_varint32(input@, pos as int) == Err::<(i32, int), ParseError>(e),
        },
{
    let tail = slice_subrange(input, pos, input.len());
    proof {
        lemma2_to64();
    }
    match decode_sleb128_i64(tail, 5, 32) {
        Ok((v, used)) => {
            proof {
                let t = choose|t: int| sleb_ok_at(tail@, 5, 32, t);
                crate::leb128::lemma_terminator_unique(tail@, t, used - 1);
                assert(in_signed_window(v as int, 32));
                assert(pow2(32) == 0x100000000);
            }
            Ok((v as i32, pos + used))
        },
        Err(Leb128Err::Overflow) => Err(ParseError::IntegerOverflow),
        Err(Leb128Err::Unterminated) => Err(ParseError::IntegerUnterminated),
    }
}

/// Parses a signed 64-bit integer (at most ten bytes) at `pos`.
pub fn parse_varint64(input: &[u8], pos: usize) -> (r: Result<(i64, usize), ParseError>)
    requires
        pos <= input@.len(),
    ensures
        match r {
            Ok(p) => spec_parse_varint64(input@, pos as int) == Ok::<(i64, int), ParseError>(
                (p.0, p.1 as int),
            ) && pos < p.1 <= input@.len(),
            Err(e) => spec_parse_varint64(input@, pos as int) == Err::<(i64, int), ParseError>(e),
        },
{
    let tail = slice_subrange(input, pos, input.len());
    match decode_sleb128_i64(tail, 10, 64) {
        Ok((v, used)) => {
            proof {
                let t = choose|t: int| sleb_ok_at(tail@, 10, 64, t);
                crate::leb128::lemma_terminator_unique(tail@, t, used - 1);
            }
            Ok((v, pos + used))
        },
        Err(Leb128Err::Overflow) => Err(ParseError::IntegerOverflow),
        Err(Leb128Err::Unterminated) => Err(ParseError::IntegerUnterminated),
    }
}


/// A canonical unsigned encoding embedded at `pos` parses back to its
/// value, consuming exactly the encoding.
pub proof fn lemma_parse_varuint32_embedded(s: Seq<u8>, pos: int, v: u32)
    requires
        0 <= pos,
        pos + uleb_encode(v as nat).len() <= s.len(),
        s.subrange(pos, pos + uleb_encode(v as nat).len() as int) == uleb_encode(v as nat),
    ensures
        spec_parse_varuint32(s, pos) == Ok::<(u32, int), ParseError>(
            (v, pos + uleb_encode(v as nat).len()),
        ),
{
    let e = uleb_encode(v as nat);
    let n = e.len() as int;
    let tail = s.subrange(pos, s.len() as int);
    lemma2_to64();
    lemma_uleb128_round_trip(v as u64, 32);
    assert forall|j: int| 0 <= j < n implies tail[j] == e[j] by {
        assert(s.subrange(pos, pos + n)[j] == s[pos + j]);
        assert(tail[j] == s[pos + j]);
    }
    assert(terminator_at(tail, n - 1));
    lemma_uleb_value_agree(e, tail, n);
    assert(uleb_ok_at(tail, 5, 32, n - 1));
    let t = choose|t: int| uleb_ok_at(tail, 5, 32, t);
    lemma_terminator_unique(tail, t, n - 1);
}

} // verus!
