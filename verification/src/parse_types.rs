//! Parsers for the type grammar: value types, reference types, limits,
//! memory, table, global, and function types.

use vstd::prelude::*;
use crate::parse_error::ParseError;
use crate::parse_items::{lemma_spec_parse_items_bounds, parse_items, spec_parse_items, ParseItem};
use crate::parse_num::{parse_varuint32, spec_parse_varuint32};
use crate::types::{
    spec_reference_type, spec_value_type, reference_type_from_byte, value_type_from_byte,
    FunctionType, GlobalType, Limits, MemoryType, Mutability, ReferenceType, TableType, ValueType,
};
use crate::views::FunctionTypeV;

verus! {

/// What a value-type parse at `pos` yields.
pub open spec fn spec_parse_value_type(s: Seq<u8>, pos: int) -> Result<(ValueType, int), ParseError> {
    if pos >= s.len() {
        Err(ParseError::UnexpectedEof)
    } else {
        match spec_value_type(s[pos]) {
            Some(v) => Ok((v, pos + 1)),
            None => Err(ParseError::InvalidValueType(s[pos])),
        }
    }
}

/// Parses a value type at `pos`.
pub fn parse_value_type(input: &[u8], pos: usize) -> (r: Result<(ValueType, usize), ParseError>)
    requires
        pos <= input@.len(),
    ensures
        match r {
            Ok(p) => spec_parse_value_type(input@, pos as int) == Ok::<(ValueType, int), ParseError>(
                (p.0, p.1 as int),
            ) && pos < p.1 <= input@.len(),
            Err(e) => spec_parse_value_type(input@, pos as int) == Err::<
                (ValueType, int),
                ParseError,
            >(e),
        },
{
    if pos >= input.len() {
        return Err(ParseError::UnexpectedEof);
    }
    let b = input[pos];
    match value_type_from_byte(b) {
        Some(v) => Ok((v, pos + 1)),
        None => Err(ParseError::InvalidValueType(b)),
    }
}

impl ParseItem for ValueType {
    open spec fn spec_parse(s: Seq<u8>, pos: int) -> Result<(ValueType, int), ParseError> {
        spec_parse_value_type(s, pos)
    }

    proof fn spec_parse_bounds(s: Seq<u8>, pos: int) {
    }

    fn parse(input: &[u8], pos: usize) -> (r: Result<(ValueType, usize), ParseError>) {
        parse_value_type(input, pos)
    }
}

/// What a reference-type parse at `pos` yields.
pub open spec fn spec_parse_reference_type(s: Seq<u8>, pos: int) -> Result<
    (ReferenceType, int),
    ParseError,
> {
    if pos >= s.len() {
        Err(ParseError::UnexpectedEof)
    } else {
        match spec_reference_type(s[pos]) {
            Some(v) => Ok((v, pos + 1)),
            None => Err(ParseError::InvalidReferenceType(s[pos])),
        }
    }
}

/// Parses a reference type at `pos`.
pub fn parse_reference_type(input: &[u8], pos: usize) -> (r: Result<
    (ReferenceType, usize),
    ParseError,
>)
    requires
        pos <= input@.len(),
    ensures
        match r {
            Ok(p) => spec_parse_reference_type(input@, pos as int) == Ok::<
                (ReferenceType, int),
                ParseError,
            >((p.0, p.1 as int)) && pos < p.1 <= input@.len(),
            Err(e) => spec_parse_reference_type(input@, pos as int) == Err::<
                (ReferenceType, int),
                ParseError,
            >(e),
        },
{
    if pos >= input.len() {
        return Err(ParseError::UnexpectedEof);
    }
    let b = input[pos];
    match reference_type_from_byte(b) {
        Some(v) => Ok((v, pos + 1)),
        None => Err(ParseError::InvalidReferenceType(b)),
    }
}

/// What a mutability parse at `pos` yields: byte 0x00 is `Const`, 0x01 is
/// `Var`.
pub open spec fn spec_parse_mutability(s: Seq<u8>, pos: int) -> Result<(Mutability, int), ParseError> {
    if pos >= s.len() {
        Err(ParseError::UnexpectedEof)
    } else if s[pos] == 0x00 {
        Ok((Mutability::Const, pos + 1))
    } else if s[pos] == 0x01 {
        Ok((Mutability::Var, pos + 1))
    } else {
        Err(ParseError::InvalidMutability(s[pos]))
    }
}

/// Parses a mutability flag at `pos`.
pub fn parse_mutability(input: &[u8], pos: usize) -> (r: Result<(Mutability, usize), ParseError>)
    requires
        pos <= input@.len(),
    ensures
        match r {
            Ok(p) => spec_parse_mutability(input@, pos as int) == Ok::<(Mutability, int), ParseError>(
                (p.0, p.1 as int),
            ) && pos < p.1 <= input@.len(),
            Err(e) => spec_parse_mutability(input@, pos as int) == Err::<
                (Mutability, int),
                ParseError,
            >(e),
        },
{
    if pos >= input.len() {
        return Err(ParseError::UnexpectedEof);
    }
    let b = input[pos];
    if b == 0x00 {
        Ok((Mutability::Const, pos + 1))
    } else if b == 0x01 {
        Ok((Mutability::Var, pos + 1))
    } else {
        Err(ParseError::InvalidMutability(b))
    }
}

/// What a limits parse at `pos` yields: flag byte 0x00 brings a minimum
/// alone, 0x01 a minimum and a maximum.
pub open spec fn spec_parse_limits(s: Seq<u8>, pos: int) -> Result<(Limits, int), ParseError> {
    if pos >= s.len() {
        Err(ParseError::UnexpectedEof)
    } else if s[pos] == 0x00 {
        match spec_parse_varuint32(s, pos + 1) {
            Ok((min, p)) => Ok((Limits { min, max: None }, p)),
            Err(e) => Err(e),
        }
    } else if s[pos] == 0x01 {
        match spec_parse_varuint32(s, pos + 1) {
            Ok((min, p)) => match spec_parse_varuint32(s, p) {
                Ok((max, p2)) => Ok((Limits { min, max: Some(max) }, p2)),
                Err(e) => Err(e),
            },
            Err(e) => Err(e),
        }
    } else {
        Err(ParseError::InvalidLimitsFlag(s[pos]))
    }
}

/// Parses limits at `pos`.
pub fn parse_limits(input: &[u8], pos: usize) -> (r: Result<(Limits, usize), ParseError>)
    requires
        pos <= input@.len(),
    ensures
        match r {
            Ok(p) => spec_parse_limits(input@, pos as int) == Ok::<(Limits, int), ParseError>(
                (p.0, p.1 as int),
            ) && pos < p.1 <= input@.len(),
            Err(e) => spec_parse_limits(input@, pos as int) == Err::<(Limits, int), ParseError>(e),
        },
{
    if pos >= input.len() {
        return Err(ParseError::UnexpectedEof);
    }
    let b = input[pos];
    if b == 0x00 {
        let (min, p) = parse_varuint32(input, pos + 1)?;
        Ok((Limits { min, max: None }, p))
    } else if b == 0x01 {
        let (min, p) = parse_varuint32(input, pos + 1)?;
        let (max, p2) = parse_varuint32(input, p)?;
        Ok((Limits { min, max: Some(max) }, p2))
    } else {
        Err(ParseError::InvalidLimitsFlag(b))
    }
}

impl ParseItem for Limits {
    open spec fn spec_parse(s: Seq<u8>, pos: int) -> Result<(Limits, int), ParseError> {
        spec_parse_limits(s, pos)
    }

    proof fn spec_parse_bounds(s: Seq<u8>, pos: int) {
        if pos < s.len() {
            u32::spec_parse_bounds(s, pos + 1);
            match spec_parse_varuint32(s, pos + 1) {
                Ok(p) => {
                    assert(pos + 1 <= p.1 <= s.len());
                    u32::spec_parse_bounds(s, p.1);
                    match spec_parse_varuint32(s, p.1) {
                        Ok(p2) => {
                            assert(p.1 <= p2.1 <= s.len());
                        },
                        Err(_) => {},
                    }
                },
                Err(_) => {},
            }
        }
        assert(Limits::spec_parse(s, pos) == spec_parse_limits(s, pos));
        match spec_parse_limits(s, pos) {
            Ok(p) => {
                assert(pos <= p.1 <= s.len());
            },
            Err(_) => {},
        }
    }

    fn parse(input: &[u8], pos: usize) -> (r: Result<(Limits, usize), ParseError>) {
        parse_limits(input, pos)
    }
}

/// What a memory-type parse at `pos` yields: limits alone.
pub open spec fn spec_parse_memory_type(s: Seq<u8>, pos: int) -> Result<(MemoryType, int), ParseError> {
    match spec_parse_limits(s, pos) {
        Ok((limits, p)) => Ok((MemoryType { limits }, p)),
        Err(e) => Err(e),
    }
}

/// Parses a memory type at `pos`.
pub fn parse_memory_type(input: &[u8], pos: usize) -> (r: Result<(MemoryType, usize), ParseError>)
    requires
        pos <= input@.len(),
    ensures
        match r {
            Ok(p) => spec_parse_memory_type(input@, pos as int) == Ok::<(MemoryType, int), ParseError>(
                (p.0, p.1 as int),
            ) && pos < p.1 <= input@.len(),
            Err(e) => spec_parse_memory_type(input@, pos as int) == Err::<
                (MemoryType, int),
                ParseError,
            >(e),
        },
{
    let (limits, p) = parse_limits(input, pos)?;
    Ok((MemoryType { limits }, p))
}

impl ParseItem for MemoryType {
    open spec fn spec_parse(s: Seq<u8>, pos: int) -> Result<(MemoryType, int), ParseError> {
        spec_parse_memory_type(s, pos)
    }

    proof fn spec_parse_bounds(s: Seq<u8>, pos: int) {
        Limits::spec_parse_bounds(s, pos);
    }

    fn parse(input: &[u8], pos: usize) -> (r: Result<(MemoryType, usize), ParseError>) {
        parse_memory_type(input, pos)
    }
}

/// What a table-type parse at `pos` yields: a reference type, then limits.
pub open spec fn spec_parse_table_type(s: Seq<u8>, pos: int) -> Result<(TableType, int), ParseError> {
    match spec_parse_reference_type(s, pos) {
        Ok((ref_type, p)) => match spec_parse_limits(s, p) {
            Ok((limits, p2)) => Ok((TableType { ref_type, limits }, p2)),
            Err(e) => Err(e),
        },
        Err(e) => Err(e),
    }
}

/// Parses a table type at `pos`.
pub fn parse_table_type(input: &[u8], pos: usize) -> (r: Result<(TableType, usize), ParseError>)
    requires
        pos <= input@.len(),
    ensures
        match r {
            Ok(p) => spec_parse_table_type(input@, pos as int) == Ok::<(TableType, int), ParseError>(
                (p.0, p.1 as int),
            ) && pos < p.1 <= input@.len(),
            Err(e) => spec_parse_table_type(input@, pos as int) == Err::<
                (TableType, int),
                ParseError,
            >(e),
        },
{
    let (ref_type, p) = parse_reference_type(input, pos)?;
    let (limits, p2) = parse_limits(input, p)?;
    Ok((TableType { ref_type, limits }, p2))
}

impl ParseItem for TableType {
    open spec fn spec_parse(s: Seq<u8>, pos: int) -> Result<(TableType, int), ParseError> {
        spec_parse_table_type(s, pos)
    }

    proof fn spec_parse_bounds(s: Seq<u8>, pos: int) {
        match spec_parse_reference_type(s, pos) {
            Ok(p) => {
                Limits::spec_parse_bounds(s, p.1);
            },
            Err(_) => {},
        }
    }

    fn parse(input: &[u8], pos: usize) -> (r: Result<(TableType, usize), ParseError>) {
        parse_table_type(input, pos)
    }
}

/// What a global-type parse at `pos` yields: a value type, then mutability.
pub open spec fn spec_parse_global_type(s: Seq<u8>, pos: int) -> Result<(GlobalType, int), ParseError> {
    match spec_parse_value_type(s, pos) {
        Ok((val_type, p)) => match spec_parse_mutability(s, p) {
            Ok((mutability, p2)) => Ok((GlobalType { val_type, mutability }, p2)),
            Err(e) => Err(e),
        },
        Err(e) => Err(e),
    }
}

/// Parses a global type at `pos`.
pub fn parse_global_type(input: &[u8], pos: usize) -> (r: Result<(GlobalType, usize), ParseError>)
    requires
        pos <= input@.len(),
    ensures
        match r {
            Ok(p) => spec_parse_global_type(input@, pos as int) == Ok::<(GlobalType, int), ParseError>(
                (p.0, p.1 as int),
            ) && pos < p.1 <= input@.len(),
            Err(e) => spec_parse_global_type(input@, pos as int) == Err::<
                (GlobalType, int),
                ParseError,
            >(e),
        },
{
    let (val_type, p) = parse_value_type(input, pos)?;
    let (mutability, p2) = parse_mutability(input, p)?;
    Ok((GlobalType { val_type, mutability }, p2))
}

/// What a function-type parse at `pos` yields: the 0x60 tag, then the
/// parameter vector, then the result vector.
pub open spec fn spec_parse_function_type(s: Seq<u8>, pos: int) -> Result<
    (FunctionTypeV, int),
    ParseError,
> {
    if pos >= s.len() {
        Err(ParseError::UnexpectedEof)
    } else if s[pos] != 0x60 {
        Err(ParseError::InvalidFunctionTypeTag(s[pos]))
    } else {
        match spec_parse_varuint32(s, pos + 1) {
            Ok((n, p1)) => match spec_parse_items::<ValueType>(s, p1, n as int) {
                Ok((params, p2)) => match spec_parse_varuint32(s, p2) {
                    Ok((m, p3)) => match spec_parse_items::<ValueType>(s, p3, m as int) {
                        Ok((results, p4)) => Ok((FunctionTypeV { params, results }, p4)),
                        Err(e) => Err(e),
                    },
                    Err(e) => Err(e),
                },
                Err(e) => Err(e),
            },
            Err(e) => Err(e),
        }
    }
}

/// Parses a function type at `pos`.
pub fn parse_function_type(input: &[u8], pos: usize) -> (r: Result<
    (FunctionType, usize),
    ParseError,
>)
    requires
        pos <= input@.len(),
    ensures
        match r {
            Ok(p) => spec_parse_function_type(input@, pos as int) == Ok::<
                (FunctionTypeV, int),
                ParseError,
            >((p.0.deep_view(), p.1 as int)) && pos < p.1 <= input@.len(),
            Err(e) => spec_parse_function_type(input@, pos as int) == Err::<
                (FunctionTypeV, int),
                ParseError,
            >(e),
        },
{
    if pos >= input.len() {
        return Err(ParseError::UnexpectedEof);
    }
    let b = input[pos];
    if b != 0x60 {
        return Err(ParseError::InvalidFunctionTypeTag(b));
    }
    let (n, p1) = parse_varuint32(input, pos + 1)?;
    let (params, p2) = parse_items::<ValueType>(input, p1, n)?;
    let (m, p3) = parse_varuint32(input, p2)?;
    let (results, p4) = parse_items::<ValueType>(input, p3, m)?;
    Ok((FunctionType { params, results }, p4))
}

impl ParseItem for FunctionType {
    open spec fn spec_parse(s: Seq<u8>, pos: int) -> Result<(FunctionTypeV, int), ParseError> {
        spec_parse_function_type(s, pos)
    }

    proof fn spec_parse_bounds(s: Seq<u8>, pos: int) {
        if pos < s.len() && s[pos] == 0x60 {
            u32::spec_parse_bounds(s, pos + 1);
            match spec_parse_varuint32(s, pos + 1) {
                Ok((n, p1)) => {
                    lemma_spec_parse_items_bounds::<ValueType>(s, p1, n as int);
                    match spec_parse_items::<ValueType>(s, p1, n as int) {
                        Ok((_, p2)) => {
                            u32::spec_parse_bounds(s, p2);
                            match spec_parse_varuint32(s, p2) {
                                Ok((m, p3)) => {
                                    lemma_spec_parse_items_bounds::<ValueType>(s, p3, m as int);
                                },
                                Err(_) => {},
                            }
                        },
                        Err(_) => {},
                    }
                },
                Err(_) => {},
            }
        }
    }

    fn parse(input: &[u8], pos: usize) -> (r: Result<(FunctionType, usize), ParseError>) {
        parse_function_type(input, pos)
    }
}

} // verus!
