//! Instruction-level parsers: the raw expression span, and single opcodes.

use vstd::prelude::*;
use vstd::slice::{slice_subrange, slice_to_vec};
use crate::instructions::{Opcode, RawExpression};
use crate::parse_error::ParseError;
use crate::parse_items::ParseItem;
use crate::parse_num::{
    parse_varint32, parse_varint64, parse_varuint32, spec_parse_varint32, spec_parse_varint64,
    spec_parse_varuint32,
};
use crate::parse_types::{parse_reference_type, spec_parse_reference_type};

verus! {

/// Byte `e` ends the expression starting at `pos`: it is the first 0x0b at
/// or after `pos`.
pub open spec fn expr_end_at(s: Seq<u8>, pos: int, e: int) -> bool {
    &&& pos <= e < s.len()
    &&& s[e] == 0x0b
    &&& forall|j: int| pos <= j < e ==> s[j] != 0x0b
}

/// An expression ends at one position only.
pub proof fn lemma_expr_end_unique(s: Seq<u8>, pos: int, e1: int, e2: int)
    requires
        expr_end_at(s, pos, e1),
        expr_end_at(s, pos, e2),
    ensures
        e1 == e2,
{
}

/// What an expression parse at `pos` yields: the bytes before the first end
/// opcode, and the position after that opcode.
pub open spec fn spec_parse_expression(s: Seq<u8>, pos: int) -> Result<(Seq<u8>, int), ParseError> {
    if exists|e: int| expr_end_at(s, pos, e) {
        let e = choose|e: int| expr_end_at(s, pos, e);
        Ok((s.subrange(pos, e), e + 1))
    } else {
        Err(ParseError::MissingEndOpcode)
    }
}

/// Parses an expression at `pos`: all bytes up to the first end opcode
/// (0x0b), which is consumed but not kept.
pub fn parse_expression(input: &[u8], pos: usize) -> (r: Result<(RawExpression, usize), ParseError>)
    requires
        pos <= input@.len(),
    ensures
        match r {
            Ok(p) => spec_parse_expression(input@, pos as int) == Ok::<(Seq<u8>, int), ParseError>(
                (p.0.deep_view(), p.1 as int),
            ) && pos < p.1 <= input@.len(),
            Err(e) => spec_parse_expression(input@, pos as int) == Err::<(Seq<u8>, int), ParseError>(
                e,
            ),
        },
{
    let ghost s = input@;
    let mut i: usize = pos;
    while i < input.len()
        invariant
            pos <= i <= s.len(),
            s == input@,
            forall|j: int| pos <= j < i ==> s[j] != 0x0b,
        decreases s.len() - i,
    {
        if input[i] == 0x0b {
            let bytes = slice_to_vec(slice_subrange(input, pos, i));
            proof {
                assert(expr_end_at(s, pos as int, i as int));
                let e = choose|e: int| expr_end_at(s, pos as int, e);
                lemma_expr_end_unique(s, pos as int, e, i as int);
            }
            return Ok((RawExpression { instructions: bytes }, i + 1));
        }
        i = i + 1;
    }
    proof {
        assert forall|e: int| !expr_end_at(s, pos as int, e) by {
            if pos <= e < s.len() {
                assert(s[e] != 0x0b);
            }
        }
    }
    Err(ParseError::MissingEndOpcode)
}

impl ParseItem for RawExpression {
    open spec fn spec_parse(s: Seq<u8>, pos: int) -> Result<(Seq<u8>, int), ParseError> {
        spec_parse_expression(s, pos)
    }

    proof fn spec_parse_bounds(s: Seq<u8>, pos: int) {
        if exists|e: int| expr_end_at(s, pos, e) {
            let e = choose|e: int| expr_end_at(s, pos, e);
            assert(pos <= e < s.len());
        }
    }

    fn parse(input: &[u8], pos: usize) -> (r: Result<(RawExpression, usize), ParseError>) {
        parse_expression(input, pos)
    }
}

/// The little-endian 32-bit word at `i`.
pub open spec fn spec_le_u32_at(s: Seq<u8>, i: int) -> u32 {
    (s[i] + 0x100 * s[i + 1] + 0x10000 * s[i + 2] + 0x1000000 * s[i + 3]) as u32
}

/// The little-endian 64-bit word at `i`.
pub open spec fn spec_le_u64_at(s: Seq<u8>, i: int) -> u64 {
    (s[i] + 0x100 * s[i + 1] + 0x10000 * s[i + 2] + 0x1000000 * s[i + 3] + 0x100000000 * s[i + 4]
        + 0x10000000000 * s[i + 5] + 0x1000000000000 * s[i + 6] + 0x100000000000000 * s[i
        + 7]) as u64
}

/// Reads the little-endian 32-bit word at `i`.
pub fn le_u32_at(input: &[u8], i: usize) -> (r: u32)
    requires
        i + 4 <= input@.len(),
    ensures
        r == spec_le_u32_at(input@, i as int),
{
    let b0 = input[i] as u32;
    let b1 = input[i + 1] as u32;
    let b2 = input[i + 2] as u32;
    let b3 = input[i + 3] as u32;
    b0 + 0x100 * b1 + 0x10000 * b2 + 0x1000000 * b3
}

/// Reads the little-endian 64-bit word at `i`.
fn le_u64_at(input: &[u8], i: usize) -> (r: u64)
    requires
        i + 8 <= input@.len(),
    ensures
        r == spec_le_u64_at(input@, i as int),
{
    let b0 = input[i] as u64;
    let b1 = input[i + 1] as u64;
    let b2 = input[i + 2] as u64;
    let b3 = input[i + 3] as u64;
    let b4 = input[i + 4] as u64;
    let b5 = input[i + 5] as u64;
    let b6 = input[i + 6] as u64;
    let b7 = input[i + 7] as u64;
    b0 + 0x100 * b1 + 0x10000 * b2 + 0x1000000 * b3 + 0x100000000 * b4 + 0x10000000000 * b5
        + 0x1000000000000 * b6 + 0x100000000000000 * b7
}

/// What an opcode parse at `pos` yields: the decoded opcode and the
/// position after it, or the exact error.
pub open spec fn spec_parse_instruction(s: Seq<u8>, pos: int) -> Result<(Opcode, int), ParseError> {
    if pos >= s.len() {
        Err(ParseError::UnexpectedEof)
    } else {
        let b = s[pos];
        match b {
            0x20 => match spec_parse_varuint32(s, pos + 1) {
                Ok((i, p)) => Ok((Opcode::LocalGet(i), p)),
                Err(e) => Err(e),
            },
            0x21 => match spec_parse_varuint32(s, pos + 1) {
                Ok((i, p)) => Ok((Opcode::LocalSet(i), p)),
                Err(e) => Err(e),
            },
            0x22 => match spec_parse_varuint32(s, pos + 1) {
                Ok((i, p)) => Ok((Opcode::LocalTee(i), p)),
                Err(e) => Err(e),
            },
            0x23 => match spec_parse_varuint32(s, pos + 1) {
                Ok((i, p)) => Ok((Opcode::GlobalGet(i), p)),
                Err(e) => Err(e),
            },
            0x24 => match spec_parse_varuint32(s, pos + 1) {
                Ok((i, p)) => Ok((Opcode::GlobalSet(i), p)),
                Err(e) => Err(e),
            },
            0x41 => match spec_parse_varint32(s, pos + 1) {
                Ok((v, p)) => Ok((Opcode::I32Const(v), p)),
                Err(e) => Err(e),
            },
            0x42 => match spec_parse_varint64(s, pos + 1) {
                Ok((v, p)) => Ok((Opcode::I64Const(v), p)),
                Err(e) => Err(e),
            },
            0x43 => if pos + 5 <= s.len() {
                Ok((Opcode::F32Const(spec_le_u32_at(s, pos + 1)), pos + 5))
            } else {
                Err(ParseError::UnexpectedEof)
            },
            0x44 => if pos + 9 <= s.len() {
                Ok((Opcode::F64Const(spec_le_u64_at(s, pos + 1)), pos + 9))
            } else {
                Err(ParseError::UnexpectedEof)
            },
            0xd0 => match spec_parse_reference_type(s, pos + 1) {
                Ok((t, p)) => Ok((Opcode::RefNull(t), p)),
                Err(e) => Err(e),
            },
            0xd1 => Ok((Opcode::RefIsNull, pos + 1)),
            0xd2 => match spec_parse_varuint32(s, pos + 1) {
                Ok((i, p)) => Ok((Opcode::RefFunc(i), p)),
                Err(e) => Err(e),
            },
            0x6a => Ok((Opcode::I32Add, pos + 1)),
            _ => Err(ParseError::UnknownOpcode(b)),
        }
    }
}

/// Parses one opcode at `pos`.
pub fn parse_instruction(input: &[u8], pos: usize) -> (r: Result<(Opcode, usize), ParseError>)
    requires
        pos <= input@.len(),
    ensures
        match r {
            Ok(p) => spec_parse_instruction(input@, pos as int) == Ok::<(Opcode, int), ParseError>(
                (p.0, p.1 as int),
            ) && pos < p.1 <= input@.len(),
            Err(e) => spec_parse_instruction(input@, pos as int) == Err::<(Opcode, int), ParseError>(
                e,
            ),
        },
{
    if pos >= input.len() {
        return Err(ParseError::UnexpectedEof);
    }
    let b = input[pos];
    match b {
        0x20 => {
            let (i, p) = parse_varuint32(input, pos + 1)?;
            Ok((Opcode::LocalGet(i), p))
        },
        0x21 => {
            let (i, p) = parse_varuint32(input, pos + 1)?;
            Ok((Opcode::LocalSet(i), p))
        },
        0x22 => {
            let (i, p) = parse_varuint32(input, pos + 1)?;
            Ok((Opcode::LocalTee(i), p))
        },
        0x23 => {
            let (i, p) = parse_varuint32(input, pos + 1)?;
            Ok((Opcode::GlobalGet(i), p))
        },
        0x24 => {
            let (i, p) = parse_varuint32(input, pos + 1)?;
            Ok((Opcode::GlobalSet(i), p))
        },
        0x41 => {
            let (v, p) = parse_varint32(input, pos + 1)?;
            Ok((Opcode::I32Const(v), p))
        },
        0x42 => {
            let (v, p) = parse_varint64(input, pos + 1)?;
            Ok((Opcode::I64Const(v), p))
        },
        0x43 => {
            if input.len() - pos < 5 {
                return Err(ParseError::UnexpectedEof);
            }
            Ok((Opcode::F32Const(le_u32_at(input, pos + 1)), pos + 5))
        },
        0x44 => {
            if input.len() - pos < 9 {
                return Err(ParseError::UnexpectedEof);
            }
            Ok((Opcode::F64Const(le_u64_at(input, pos + 1)), pos + 9))
        },
        0xd0 => {
            let (t, p) = parse_reference_type(input, pos + 1)?;
            Ok((Opcode::RefNull(t), p))
        },
        0xd1 => Ok((Opcode::RefIsNull, pos + 1)),
        0xd2 => {
            let (i, p) = parse_varuint32(input, pos + 1)?;
            Ok((Opcode::RefFunc(i), p))
        },
        0x6a => Ok((Opcode::I32Add, pos + 1)),
        _ => Err(ParseError::UnknownOpcode(b)),
    }
}

} // verus!
