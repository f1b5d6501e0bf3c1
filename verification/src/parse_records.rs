//! Parsers for the records inside section payloads: imports, exports,
//! globals, locals, element segments, function bodies, and data segments.

use vstd::prelude::*;
use vstd::slice::{slice_subrange, slice_to_vec};
use crate::instructions::RawExpression;
use crate::parse_error::ParseError;
use crate::parse_instructions::{parse_expression, spec_parse_expression};
use crate::parse_items::{
    lemma_spec_parse_items_bounds, parse_items, spec_parse_items, ParseItem,
};
use crate::parse_name::{parse_name, spec_parse_name};
use crate::parse_num::{parse_varuint32, spec_parse_varuint32};
use crate::parse_types::{
    parse_global_type, parse_reference_type, parse_table_type, parse_memory_type,
    parse_value_type, spec_parse_global_type, spec_parse_memory_type, spec_parse_reference_type,
    spec_parse_table_type, spec_parse_value_type,
};
use crate::section::{
    DataMode, DataSegment, Element, ElementItems, ElementKind, Export, ExportDesc, FunctionBody,
    Global, Import, ImportDesc, Locals,
};
use crate::types::ReferenceType;
use crate::views::{
    DataModeV, DataSegmentV, ElementItemsV, ElementKindV, ElementV, ExportV, FunctionBodyV,
    GlobalV, ImportV,
};

verus! {

/// What an import-description parse at `pos` yields: a tag byte, then a
/// type index, table type, memory type, or global type.
pub open spec fn spec_parse_import_desc(s: Seq<u8>, pos: int) -> Result<(ImportDesc, int), ParseError> {
    if pos >= s.len() {
        Err(ParseError::UnexpectedEof)
    } else if s[pos] == 0x00 {
        match spec_parse_varuint32(s, pos + 1) {
            Ok((i, p)) => Ok((ImportDesc::TypeIndex(i), p)),
            Err(e) => Err(e),
        }
    } else if s[pos] == 0x01 {
        match spec_parse_table_type(s, pos + 1) {
            Ok((t, p)) => Ok((ImportDesc::Table(t), p)),
            Err(e) => Err(e),
        }
    } else if s[pos] == 0x02 {
        match spec_parse_memory_type(s, pos + 1) {
            Ok((t, p)) => Ok((ImportDesc::Memory(t), p)),
            Err(e) => Err(e),
        }
    } else if s[pos] == 0x03 {
        match spec_parse_global_type(s, pos + 1) {
            Ok((t, p)) => Ok((ImportDesc::Global(t), p)),
            Err(e) => Err(e),
        }
    } else {
        Err(ParseError::InvalidImportDescTag(s[pos]))
    }
}

/// Parses an import description at `pos`.
fn parse_import_desc(input: &[u8], pos: usize) -> (r: Result<(ImportDesc, usize), ParseError>)
    requires
        pos <= input@.len(),
    ensures
        match r {
            Ok(p) => spec_parse_import_desc(input@, pos as int) == Ok::<(ImportDesc, int), ParseError>(
                (p.0, p.1 as int),
            ) && pos < p.1 <= input@.len(),
            Err(e) => spec_parse_import_desc(input@, pos as int) == Err::<
                (ImportDesc, int),
                ParseError,
            >(e),
        },
{
    if pos >= input.len() {
        return Err(ParseError::UnexpectedEof);
    }
    let b = input[pos];
    if b == 0x00 {
        let (i, p) = parse_varuint32(input, pos + 1)?;
        Ok((ImportDesc::TypeIndex(i), p))
    } else if b == 0x01 {
        let (t, p) = parse_table_type(input, pos + 1)?;
        Ok((ImportDesc::Table(t), p))
    } else if b == 0x02 {
        let (t, p) = parse_memory_type(input, pos + 1)?;
        Ok((ImportDesc::Memory(t), p))
    } else if b == 0x03 {
        let (t, p) = parse_global_type(input, pos + 1)?;
        Ok((ImportDesc::Global(t), p))
    } else {
        Err(ParseError::InvalidImportDescTag(b))
    }
}

/// What an import parse at `pos` yields: two names, then a description.
pub open spec fn spec_parse_import(s: Seq<u8>, pos: int) -> Result<(ImportV, int), ParseError> {
    match spec_parse_name(s, pos) {
        Ok((module, p1)) => match spec_parse_name(s, p1) {
            Ok((name, p2)) => match spec_parse_import_desc(s, p2) {
                Ok((desc, p3)) => Ok((ImportV { module, name, desc }, p3)),
                Err(e) => Err(e),
            },
            Err(e) => Err(e),
        },
        Err(e) => Err(e),
    }
}

/// Parses an import at `pos`.
pub fn parse_import(input: &[u8], pos: usize) -> (r: Result<(Import, usize), ParseError>)
    requires
        pos <= input@.len(),
    ensures
        match r {
            Ok(p) => spec_parse_import(input@, pos as int) == Ok::<(ImportV, int), ParseError>(
                (p.0.deep_view(), p.1 as int),
            ) && pos < p.1 <= input@.len(),
            Err(e) => spec_parse_import(input@, pos as int) == Err::<(ImportV, int), ParseError>(e),
        },
{
    let (module, p1) = parse_name(input, pos)?;
    let (name, p2) = parse_name(input, p1)?;
    let (desc, p3) = parse_import_desc(input, p2)?;
    Ok((Import { module, name, desc }, p3))
}

impl ParseItem for Import {
    open spec fn spec_parse(s: Seq<u8>, pos: int) -> Result<(ImportV, int), ParseError> {
        spec_parse_import(s, pos)
    }

    proof fn spec_parse_bounds(s: Seq<u8>, pos: int) {
    }

    fn parse(input: &[u8], pos: usize) -> (r: Result<(Import, usize), ParseError>) {
        parse_import(input, pos)
    }
}

/// What an export parse at `pos` yields: a name, a tag byte, and an index.
pub open spec fn spec_parse_export(s: Seq<u8>, pos: int) -> Result<(ExportV, int), ParseError> {
    match spec_parse_name(s, pos) {
        Ok((name, p1)) => if p1 >= s.len() {
            Err(ParseError::UnexpectedEof)
        } else {
            match spec_parse_varuint32(s, p1 + 1) {
                Ok((i, p2)) => if s[p1] == 0x00 {
                    Ok((ExportV { name, desc: ExportDesc::FunctionIndex(i) }, p2))
                } else if s[p1] == 0x01 {
                    Ok((ExportV { name, desc: ExportDesc::TableIndex(i) }, p2))
                } else if s[p1] == 0x02 {
                    Ok((ExportV { name, desc: ExportDesc::MemoryIndex(i) }, p2))
                } else if s[p1] == 0x03 {
                    Ok((ExportV { name, desc: ExportDesc::GlobalIndex(i) }, p2))
                } else {
                    Err(ParseError::InvalidExportDescTag(s[p1]))
                },
                Err(e) => Err(e),
            }
        },
        Err(e) => Err(e),
    }
}

/// Parses an export at `pos`.
pub fn parse_export(input: &[u8], pos: usize) -> (r: Result<(Export, usize), ParseError>)
    requires
        pos <= input@.len(),
    ensures
        match r {
            Ok(p) => spec_parse_export(input@, pos as int) == Ok::<(ExportV, int), ParseError>(
                (p.0.deep_view(), p.1 as int),
            ) && pos < p.1 <= input@.len(),
            Err(e) => spec_parse_export(input@, pos as int) == Err::<(ExportV, int), ParseError>(e),
        },
{
    let (name, p1) = parse_name(input, pos)?;
    if p1 >= input.len() {
        return Err(ParseError::UnexpectedEof);
    }
    let tag = input[p1];
    let (i, p2) = parse_varuint32(input, p1 + 1)?;
    if tag == 0x00 {
        Ok((Export { name, desc: ExportDesc::FunctionIndex(i) }, p2))
    } else if tag == 0x01 {
        Ok((Export { name, desc: ExportDesc::TableIndex(i) }, p2))
    } else if tag == 0x02 {
        Ok((Export { name, desc: ExportDesc::MemoryIndex(i) }, p2))
    } else if tag == 0x03 {
        Ok((Export { name, desc: ExportDesc::GlobalIndex(i) }, p2))
    } else {
        Err(ParseError::InvalidExportDescTag(tag))
    }
}

impl ParseItem for Export {
    open spec fn spec_parse(s: Seq<u8>, pos: int) -> Result<(ExportV, int), ParseError> {
        spec_parse_export(s, pos)
    }

    proof fn spec_parse_bounds(s: Seq<u8>, pos: int) {
    }

    fn parse(input: &[u8], pos: usize) -> (r: Result<(Export, usize), ParseError>) {
        parse_export(input, pos)
    }
}

/// What a global parse at `pos` yields: a global type, then an initializer
/// expression.
pub open spec fn spec_parse_global(s: Seq<u8>, pos: int) -> Result<(GlobalV, int), ParseError> {
    match spec_parse_global_type(s, pos) {
        Ok((global_type, p1)) => match spec_parse_expression(s, p1) {
            Ok((expression, p2)) => Ok((GlobalV { global_type, expression }, p2)),
            Err(e) => Err(e),
        },
        Err(e) => Err(e),
    }
}

/// Parses a global declaration at `pos`.
pub fn parse_global(input: &[u8], pos: usize) -> (r: Result<(Global, usize), ParseError>)
    requires
        pos <= input@.len(),
    ensures
        match r {
            Ok(p) => spec_parse_global(input@, pos as int) == Ok::<(GlobalV, int), ParseError>(
                (p.0.deep_view(), p.1 as int),
            ) && pos < p.1 <= input@.len(),
            Err(e) => spec_parse_global(input@, pos as int) == Err::<(GlobalV, int), ParseError>(e),
        },
{
    let (global_type, p1) = parse_global_type(input, pos)?;
    let (expression, p2) = parse_expression(input, p1)?;
    Ok((Global { global_type, expression }, p2))
}

impl ParseItem for Global {
    open spec fn spec_parse(s: Seq<u8>, pos: int) -> Result<(GlobalV, int), ParseError> {
        spec_parse_global(s, pos)
    }

    proof fn spec_parse_bounds(s: Seq<u8>, pos: int) {
        match spec_parse_global_type(s, pos) {
            Ok((_, p1)) => {
                RawExpression::spec_parse_bounds(s, p1);
            },
            Err(_) => {},
        }
    }

    fn parse(input: &[u8], pos: usize) -> (r: Result<(Global, usize), ParseError>) {
        parse_global(input, pos)
    }
}

/// What a locals run parse at `pos` yields: a count, then a value type.
pub open spec fn spec_parse_locals(s: Seq<u8>, pos: int) -> Result<(Locals, int), ParseError> {
    match spec_parse_varuint32(s, pos) {
        Ok((count, p1)) => match spec_parse_value_type(s, p1) {
            Ok((value_type, p2)) => Ok((Locals { count, value_type }, p2)),
            Err(e) => Err(e),
        },
        Err(e) => Err(e),
    }
}

/// Parses a locals run at `pos`.
pub fn parse_locals(input: &[u8], pos: usize) -> (r: Result<(Locals, usize), ParseError>)
    requires
        pos <= input@.len(),
    ensures
        match r {
            Ok(p) => spec_parse_locals(input@, pos as int) == Ok::<(Locals, int), ParseError>(
                (p.0, p.1 as int),
            ) && pos < p.1 <= input@.len(),
            Err(e) => spec_parse_locals(input@, pos as int) == Err::<(Locals, int), ParseError>(e),
        },
{
    let (count, p1) = parse_varuint32(input, pos)?;
    let (value_type, p2) = parse_value_type(input, p1)?;
    Ok((Locals { count, value_type }, p2))
}

impl ParseItem for Locals {
    open spec fn spec_parse(s: Seq<u8>, pos: int) -> Result<(Locals, int), ParseError> {
        spec_parse_locals(s, pos)
    }

    proof fn spec_parse_bounds(s: Seq<u8>, pos: int) {
    }

    fn parse(input: &[u8], pos: usize) -> (r: Result<(Locals, usize), ParseError>) {
        parse_locals(input, pos)
    }
}

/// What an element-segment parse at `pos` yields.  A flag word picks the
/// placement kind with its low two bits and the items encoding with bit
/// two; flag words other than zero carry an element-kind byte (0x00) or an
/// explicit reference type before the items.
pub open spec fn spec_parse_element(s: Seq<u8>, pos: int) -> Result<(ElementV, int), ParseError> {
    match spec_parse_varuint32(s, pos) {
        Ok((flag, p0)) => match spec_parse_element_kind(s, p0, flag) {
            Ok((kind, p1)) => match spec_parse_element_items(s, p1, flag) {
                Ok((items, p2)) => Ok((ElementV { kind, items }, p2)),
                Err(e) => Err(e),
            },
            Err(e) => Err(e),
        },
        Err(e) => Err(e),
    }
}

/// What the placement part of an element segment parses to, under `flag`.
pub open spec fn spec_parse_element_kind(s: Seq<u8>, pos: int, flag: u32) -> Result<
    (ElementKindV, int),
    ParseError,
> {
    if flag & 0b11 == 0b00 {
        match spec_parse_expression(s, pos) {
            Ok((offset, p)) => Ok(
                (ElementKindV::Active { table_index: None, offset_expression: offset }, p),
            ),
            Err(e) => Err(e),
        }
    } else if flag & 0b11 == 0b10 {
        match spec_parse_varuint32(s, pos) {
            Ok((ti, p)) => match spec_parse_expression(s, p) {
                Ok((offset, p2)) => Ok(
                    (
                        ElementKindV::Active {
                            table_index: Some(ti),
                            offset_expression: offset,
                        },
                        p2,
                    ),
                ),
                Err(e) => Err(e),
            },
            Err(e) => Err(e),
        }
    } else if flag & 0b11 == 0b01 {
        Ok((ElementKindV::Passive, pos))
    } else {
        Ok((ElementKindV::Declarative, pos))
    }
}

/// What the items part of an element segment parses to, under `flag`.
pub open spec fn spec_parse_element_items(s: Seq<u8>, pos: int, flag: u32) -> Result<
    (ElementItemsV, int),
    ParseError,
> {
    if flag & 0b100 == 0 {
        let p0 = if flag == 0 {
            Ok::<int, ParseError>(pos)
        } else if pos >= s.len() {
            Err(ParseError::UnexpectedEof)
        } else if s[pos] == 0x00 {
            Ok(pos + 1)
        } else {
            Err(ParseError::InvalidElementKind(s[pos]))
        };
        match p0 {
            Ok(p1) => match spec_parse_varuint32(s, p1) {
                Ok((n, p2)) => match spec_parse_items::<u32>(s, p2, n as int) {
                    Ok((items, p3)) => Ok((ElementItemsV::Functions(items), p3)),
                    Err(e) => Err(e),
                },
                Err(e) => Err(e),
            },
            Err(e) => Err(e),
        }
    } else {
        let rt = if flag == 0b100 {
            Ok::<(ReferenceType, int), ParseError>((ReferenceType::FuncRef, pos))
        } else {
            spec_parse_reference_type(s, pos)
        };
        match rt {
            Ok((reftype, p1)) => match spec_parse_varuint32(s, p1) {
                Ok((n, p2)) => match spec_parse_items::<RawExpression>(s, p2, n as int) {
                    Ok((exprs, p3)) => Ok((ElementItemsV::Expressions(reftype, exprs), p3)),
                    Err(e) => Err(e),
                },
                Err(e) => Err(e),
            },
            Err(e) => Err(e),
        }
    }
}

/// Parses an element segment at `pos`.
pub fn parse_element(input: &[u8], pos: usize) -> (r: Result<(Element, usize), ParseError>)
    requires
        pos <= input@.len(),
    ensures
        match r {
            Ok(p) => spec_parse_element(input@, pos as int) == Ok::<(ElementV, int), ParseError>(
                (p.0.deep_view(), p.1 as int),
            ) && pos < p.1 <= input@.len(),
            Err(e) => spec_parse_element(input@, pos as int) == Err::<(ElementV, int), ParseError>(
                e,
            ),
        },
{
    let (flag, p0) = parse_varuint32(input, pos)?;
    let (kind, p1) = if flag & 0b11 == 0b00 {
        let (offset, p) = parse_expression(input, p0)?;
        (ElementKind::Active { table_index: None, offset_expression: offset }, p)
    } else if flag & 0b11 == 0b10 {
        let (ti, p) = parse_varuint32(input, p0)?;
        let (offset, p2) = parse_expression(input, p)?;
        (ElementKind::Active { table_index: Some(ti), offset_expression: offset }, p2)
    } else if flag & 0b11 == 0b01 {
        (ElementKind::Passive, p0)
    } else {
        (ElementKind::Declarative, p0)
    };
    let (items, p3) = if flag & 0b100 == 0 {
        let p1b = if flag == 0 {
            p1
        } else {
            if p1 >= input.len() {
                return Err(ParseError::UnexpectedEof);
            }
            let b = input[p1];
            if b != 0x00 {
                return Err(ParseError::InvalidElementKind(b));
            }
            p1 + 1
        };
        let (n, p2) = parse_varuint32(input, p1b)?;
        let (items, p3) = parse_items::<u32>(input, p2, n)?;
        proof {
            assert(items.deep_view() =~= items@);
        }
        (ElementItems::Functions(items), p3)
    } else {
        let (reftype, p1b) = if flag == 0b100 {
            (ReferenceType::FuncRef, p1)
        } else {
            parse_reference_type(input, p1)?
        };
        let (n, p2) = parse_varuint32(input, p1b)?;
        let (exprs, p3) = parse_items::<RawExpression>(input, p2, n)?;
        (ElementItems::Expressions(reftype, exprs), p3)
    };
    Ok((Element { kind, items }, p3))
}

impl ParseItem for Element {
    open spec fn spec_parse(s: Seq<u8>, pos: int) -> Result<(ElementV, int), ParseError> {
        spec_parse_element(s, pos)
    }

    proof fn spec_parse_bounds(s: Seq<u8>, pos: int) {
        match spec_parse_varuint32(s, pos) {
            Ok((flag, p0)) => {
                lemma_element_kind_bounds(s, p0, flag);
                match spec_parse_element_kind(s, p0, flag) {
                    Ok((_, p1)) => {
                        lemma_element_items_bounds(s, p1, flag);
                    },
                    Err(_) => {},
                }
            },
            Err(_) => {},
        }
    }

    fn parse(input: &[u8], pos: usize) -> (r: Result<(Element, usize), ParseError>) {
        parse_element(input, pos)
    }
}

/// The placement part of an element parse stays within bounds.
proof fn lemma_element_kind_bounds(s: Seq<u8>, pos: int, flag: u32)
    requires
        0 <= pos <= s.len(),
    ensures
        spec_parse_element_kind(s, pos, flag) matches Ok(p) ==> pos <= p.1 <= s.len(),
{
    RawExpression::spec_parse_bounds(s, pos);
    match spec_parse_varuint32(s, pos) {
        Ok((_, p)) => {
            RawExpression::spec_parse_bounds(s, p);
        },
        Err(_) => {},
    }
}

/// The items part of an element parse stays within bounds.
proof fn lemma_element_items_bounds(s: Seq<u8>, pos: int, flag: u32)
    requires
        0 <= pos <= s.len(),
    ensures
        spec_parse_element_items(s, pos, flag) matches Ok(p) ==> pos <= p.1 <= s.len(),
{
    if flag & 0b100 == 0 {
        let p1 = if flag == 0 {
            pos
        } else {
            pos + 1
        };
        if p1 <= s.len() {
            match spec_parse_varuint32(s, p1) {
                Ok((n, p2)) => {
                    lemma_spec_parse_items_bounds::<u32>(s, p2, n as int);
                },
                Err(_) => {},
            }
        }
    } else {
        let rp = if flag == 0b100 {
            Ok::<(ReferenceType, int), ParseError>((ReferenceType::FuncRef, pos))
        } else {
            spec_parse_reference_type(s, pos)
        };
        match rp {
            Ok((_, p1)) => {
                match spec_parse_varuint32(s, p1) {
                    Ok((n, p2)) => {
                        lemma_spec_parse_items_bounds::<RawExpression>(s, p2, n as int);
                    },
                    Err(_) => {},
                }
            },
            Err(_) => {},
        }
    }
}

/// What a function-body parse at `pos` yields: a body length, then, inside
/// exactly that many bytes, the locals runs and the expression.
pub open spec fn spec_parse_function_body(s: Seq<u8>, pos: int) -> Result<
    (FunctionBodyV, int),
    ParseError,
> {
    match spec_parse_varuint32(s, pos) {
        Ok((blen, p)) => if p + blen <= s.len() {
            let body = s.subrange(p, p + blen);
            match spec_parse_varuint32(body, 0) {
                Ok((n, q1)) => match spec_parse_items::<Locals>(body, q1, n as int) {
                    Ok((locals, q2)) => match spec_parse_expression(body, q2) {
                        Ok((expression, q3)) => if q3 == blen {
                            Ok((FunctionBodyV { locals, expression }, p + blen))
                        } else {
                            Err(ParseError::BodyTrailingBytes)
                        },
                        Err(e) => Err(e),
                    },
                    Err(e) => Err(e),
                },
                Err(e) => Err(e),
            }
        } else {
            Err(ParseError::UnexpectedEof)
        },
        Err(e) => Err(e),
    }
}

/// Parses a function body at `pos`.
pub fn parse_function_body(input: &[u8], pos: usize) -> (r: Result<
    (FunctionBody, usize),
    ParseError,
>)
    requires
        pos <= input@.len(),
    ensures
        match r {
            Ok(p) => spec_parse_function_body(input@, pos as int) == Ok::<
                (FunctionBodyV, int),
                ParseError,
            >((p.0.deep_view(), p.1 as int)) && pos < p.1 <= input@.len(),
            Err(e) => spec_parse_function_body(input@, pos as int) == Err::<
                (FunctionBodyV, int),
                ParseError,
            >(e),
        },
{
    let (blen, p) = parse_varuint32(input, pos)?;
    if (blen as usize) > input.len() - p {
        return Err(ParseError::UnexpectedEof);
    }
    let body = slice_subrange(input, p, p + blen as usize);
    let (n, q1) = parse_varuint32(body, 0)?;
    let (locals, q2) = parse_items::<Locals>(body, q1, n)?;
    let (expression, q3) = parse_expression(body, q2)?;
    if q3 != body.len() {
        return Err(ParseError::BodyTrailingBytes);
    }
    proof {
        assert(locals.deep_view() =~= locals@);
    }
    Ok((FunctionBody { locals, expression }, p + blen as usize))
}

impl ParseItem for FunctionBody {
    open spec fn spec_parse(s: Seq<u8>, pos: int) -> Result<(FunctionBodyV, int), ParseError> {
        spec_parse_function_body(s, pos)
    }

    proof fn spec_parse_bounds(s: Seq<u8>, pos: int) {
    }

    fn parse(input: &[u8], pos: usize) -> (r: Result<(FunctionBody, usize), ParseError>) {
        parse_function_body(input, pos)
    }
}

/// What a data-segment parse at `pos` yields: a mode flag word (0 active on
/// memory zero, 1 passive, 2 active on an explicit memory), then the
/// length-prefixed bytes.
pub open spec fn spec_parse_data_segment(s: Seq<u8>, pos: int) -> Result<
    (DataSegmentV, int),
    ParseError,
> {
    match spec_parse_varuint32(s, pos) {
        Ok((flag, p0)) => {
            let mode = if flag == 0 {
                match spec_parse_expression(s, p0) {
                    Ok((offset, p)) => Ok::<(DataModeV, int), ParseError>(
                        (DataModeV::Active { memory_index: None, offset_expression: offset }, p),
                    ),
                    Err(e) => Err(e),
                }
            } else if flag == 1 {
                Ok((DataModeV::Passive, p0))
            } else if flag == 2 {
                match spec_parse_varuint32(s, p0) {
                    Ok((mi, p)) => match spec_parse_expression(s, p) {
                        Ok((offset, p2)) => Ok(
                            (
                                DataModeV::Active {
                                    memory_index: Some(mi),
                                    offset_expression: offset,
                                },
                                p2,
                            ),
                        ),
                        Err(e) => Err(e),
                    },
                    Err(e) => Err(e),
                }
            } else {
                Err(ParseError::InvalidDataModeFlag(flag))
            };
            match mode {
                Ok((mode, p1)) => match spec_parse_varuint32(s, p1) {
                    Ok((len, p2)) => if p2 + len <= s.len() {
                        Ok(
                            (
                                DataSegmentV { mode, data: s.subrange(p2, p2 + len) },
                                p2 + len,
                            ),
                        )
                    } else {
                        Err(ParseError::UnexpectedEof)
                    },
                    Err(e) => Err(e),
                },
                Err(e) => Err(e),
            }
        },
        Err(e) => Err(e),
    }
}

/// Parses a data segment at `pos`.
pub fn parse_data_segment(input: &[u8], pos: usize) -> (r: Result<(DataSegment, usize), ParseError>)
    requires
        pos <= input@.len(),
    ensures
        match r {
            Ok(p) => spec_parse_data_segment(input@, pos as int) == Ok::<
                (DataSegmentV, int),
                ParseError,
            >((p.0.deep_view(), p.1 as int)) && pos < p.1 <= input@.len(),
            Err(e) => spec_parse_data_segment(input@, pos as int) == Err::<
                (DataSegmentV, int),
                ParseError,
            >(e),
        },
{
    let (flag, p0) = parse_varuint32(input, pos)?;
    let (mode, p1) = if flag == 0 {
        let (offset, p) = parse_expression(input, p0)?;
        (DataMode::Active { memory_index: None, offset_expression: offset }, p)
    } else if flag == 1 {
        (DataMode::Passive, p0)
    } else if flag == 2 {
        let (mi, p) = parse_varuint32(input, p0)?;
        let (offset, p2) = parse_expression(input, p)?;
        (DataMode::Active { memory_index: Some(mi), offset_expression: offset }, p2)
    } else {
        return Err(ParseError::InvalidDataModeFlag(flag));
    };
    let (len, p2) = parse_varuint32(input, p1)?;
    if (len as usize) > input.len() - p2 {
        return Err(ParseError::UnexpectedEof);
    }
    let data = slice_to_vec(slice_subrange(input, p2, p2 + len as usize));
    Ok((DataSegment { mode, data }, p2 + len as usize))
}

impl ParseItem for DataSegment {
    open spec fn spec_parse(s: Seq<u8>, pos: int) -> Result<(DataSegmentV, int), ParseError> {
        spec_parse_data_segment(s, pos)
    }

    proof fn spec_parse_bounds(s: Seq<u8>, pos: int) {
    }

    fn parse(input: &[u8], pos: usize) -> (r: Result<(DataSegment, usize), ParseError>) {
        parse_data_segment(input, pos)
    }
}

} // verus!
