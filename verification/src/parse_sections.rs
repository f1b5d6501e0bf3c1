//! Parsers for whole section payloads.  Each payload must be consumed in
//! full; what a sub-parser leaves over is a parse error.

use vstd::prelude::*;
use vstd::slice::slice_to_vec;
use crate::parse_error::ParseError;
use crate::parse_items::{parse_items, spec_parse_items, ParseItem};
use crate::parse_name::{parse_name, spec_parse_name};
use crate::parse_num::{parse_varuint32, spec_parse_varuint32};
use crate::section::{
    CodeSection, CustomSection, DataCountSection, DataSection, Element, ElementSection, Export,
    ExportSection, FunctionBody, FunctionSection, Global, GlobalSection, Import, ImportSection,
    MemorySection, Section, SectionID, StartSection, TableSection, TypeSection,
};
use crate::types::{FunctionType, MemoryType, TableType};
use crate::views::{CustomSectionV, SectionV};

verus! {

/// What a vector-shaped section payload parses to: a count, that many
/// items, and nothing left over.
pub open spec fn spec_parse_vec_section<T: ParseItem>(p: Seq<u8>, id: SectionID) -> Result<
    Seq<T::V>,
    ParseError,
> {
    match spec_parse_varuint32(p, 0) {
        Ok((n, q)) => match spec_parse_items::<T>(p, q, n as int) {
            Ok((items, end)) => if end == p.len() {
                Ok(items)
            } else {
                Err(ParseError::SectionTrailingBytes(id))
            },
            Err(e) => Err(e),
        },
        Err(e) => Err(e),
    }
}

/// Parses a vector-shaped section payload in full.
pub fn parse_vec_section<T: ParseItem>(payload: &[u8], id: SectionID) -> (r: Result<
    Vec<T>,
    ParseError,
>)
    ensures
        match r {
            Ok(items) => spec_parse_vec_section::<T>(payload@, id) == Ok::<Seq<T::V>, ParseError>(
                items.deep_view(),
            ),
            Err(e) => spec_parse_vec_section::<T>(payload@, id) == Err::<Seq<T::V>, ParseError>(e),
        },
{
    let (n, q) = parse_varuint32(payload, 0)?;
    let (items, end) = parse_items::<T>(payload, q, n)?;
    if end != payload.len() {
        return Err(ParseError::SectionTrailingBytes(id));
    }
    Ok(items)
}

/// What the start section's payload parses to: one function index.
pub open spec fn spec_parse_start_section(p: Seq<u8>) -> Result<u32, ParseError> {
    match spec_parse_varuint32(p, 0) {
        Ok((i, end)) => if end == p.len() {
            Ok(i)
        } else {
            Err(ParseError::SectionTrailingBytes(SectionID::Start))
        },
        Err(e) => Err(e),
    }
}

/// What the data-count section's payload parses to: one count.
pub open spec fn spec_parse_data_count_section(p: Seq<u8>) -> Result<u32, ParseError> {
    match spec_parse_varuint32(p, 0) {
        Ok((c, end)) => if end == p.len() {
            Ok(c)
        } else {
            Err(ParseError::SectionTrailingBytes(SectionID::DataCount))
        },
        Err(e) => Err(e),
    }
}

/// What a custom section's payload parses to: a name, then opaque bytes to
/// the end of the payload.
pub open spec fn spec_parse_custom_section(p: Seq<u8>) -> Result<CustomSectionV, ParseError> {
    match spec_parse_name(p, 0) {
        Ok((name, q)) => Ok(CustomSectionV { name, payload: p.subrange(q, p.len() as int) }),
        Err(e) => Err(e),
    }
}

/// What a section payload of the given kind parses to.
pub open spec fn spec_parse_section_payload(id: SectionID, p: Seq<u8>) -> Result<
    SectionV,
    ParseError,
> {
    match id {
        SectionID::Type => match spec_parse_vec_section::<FunctionType>(p, id) {
            Ok(types) => Ok(SectionV::Type(types)),
            Err(e) => Err(e),
        },
        SectionID::Import => match spec_parse_vec_section::<Import>(p, id) {
            Ok(imports) => Ok(SectionV::Import(imports)),
            Err(e) => Err(e),
        },
        SectionID::Function => match spec_parse_vec_section::<u32>(p, id) {
            Ok(indices) => Ok(SectionV::Function(indices)),
            Err(e) => Err(e),
        },
        SectionID::Table => match spec_parse_vec_section::<TableType>(p, id) {
            Ok(tables) => Ok(SectionV::Table(tables)),
            Err(e) => Err(e),
        },
        SectionID::Memory => match spec_parse_vec_section::<MemoryType>(p, id) {
            Ok(memories) => Ok(SectionV::Memory(memories)),
            Err(e) => Err(e),
        },
        SectionID::Global => match spec_parse_vec_section::<Global>(p, id) {
            Ok(globals) => Ok(SectionV::Global(globals)),
            Err(e) => Err(e),
        },
        SectionID::Export => match spec_parse_vec_section::<Export>(p, id) {
            Ok(exports) => Ok(SectionV::Export(exports)),
            Err(e) => Err(e),
        },
        SectionID::Start => match spec_parse_start_section(p) {
            Ok(i) => Ok(SectionV::Start(i)),
            Err(e) => Err(e),
        },
        SectionID::Element => match spec_parse_vec_section::<Element>(p, id) {
            Ok(elements) => Ok(SectionV::Element(elements)),
            Err(e) => Err(e),
        },
        SectionID::Code => match spec_parse_vec_section::<FunctionBody>(p, id) {
            Ok(code) => Ok(SectionV::Code(code)),
            Err(e) => Err(e),
        },
        SectionID::Data => match spec_parse_vec_section::<crate::section::DataSegment>(p, id) {
            Ok(segments) => Ok(SectionV::Data(segments)),
            Err(e) => Err(e),
        },
        SectionID::DataCount => match spec_parse_data_count_section(p) {
            Ok(c) => Ok(SectionV::DataCount(c)),
            Err(e) => Err(e),
        },
        SectionID::Custom => match spec_parse_custom_section(p) {
            Ok(c) => Ok(SectionV::Custom(c)),
            Err(e) => Err(e),
        },
    }
}

/// Parses a section payload of the given kind in full.
pub fn parse_section_payload(id: SectionID, payload: &[u8]) -> (r: Result<Section, ParseError>)
    ensures
        match r {
            Ok(sec) => spec_parse_section_payload(id, payload@) == Ok::<SectionV, ParseError>(
                sec.deep_view(),
            ),
            Err(e) => spec_parse_section_payload(id, payload@) == Err::<SectionV, ParseError>(e),
        },
{
    match id {
        SectionID::Type => {
            let types = parse_vec_section::<FunctionType>(payload, id)?;
            Ok(Section::Type(TypeSection { types }))
        },
        SectionID::Import => {
            let imports = parse_vec_section::<Import>(payload, id)?;
            Ok(Section::Import(ImportSection { imports }))
        },
        SectionID::Function => {
            let type_indices = parse_vec_section::<u32>(payload, id)?;
            proof {
                assert(type_indices.deep_view() =~= type_indices@);
            }
            Ok(Section::Function(FunctionSection { type_indices }))
        },
        SectionID::Table => {
            let tables = parse_vec_section::<TableType>(payload, id)?;
            proof {
                assert(tables.deep_view() =~= tables@);
            }
            Ok(Section::Table(TableSection { tables }))
        },
        SectionID::Memory => {
            let memories = parse_vec_section::<MemoryType>(payload, id)?;
            proof {
                assert(memories.deep_view() =~= memories@);
            }
            Ok(Section::Memory(MemorySection { memories }))
        },
        SectionID::Global => {
            let globals = parse_vec_section::<Global>(payload, id)?;
            Ok(Section::Global(GlobalSection { globals }))
        },
        SectionID::Export => {
            let exports = parse_vec_section::<Export>(payload, id)?;
            Ok(Section::Export(ExportSection { exports }))
        },
        SectionID::Start => {
            let (i, end) = parse_varuint32(payload, 0)?;
            if end != payload.len() {
                return Err(ParseError::SectionTrailingBytes(SectionID::Start));
            }
            Ok(Section::Start(StartSection { start_function_index: i }))
        },
        SectionID::Element => {
            let elements = parse_vec_section::<Element>(payload, id)?;
            Ok(Section::Element(ElementSection { elements }))
        },
        SectionID::Code => {
            let code = parse_vec_section::<FunctionBody>(payload, id)?;
            Ok(Section::Code(CodeSection { code }))
        },
        SectionID::Data => {
            let segments = parse_vec_section::<crate::section::DataSegment>(payload, id)?;
            Ok(Section::Data(DataSection { segments }))
        },
        SectionID::DataCount => {
            let (c, end) = parse_varuint32(payload, 0)?;
            if end != payload.len() {
                return Err(ParseError::SectionTrailingBytes(SectionID::DataCount));
            }
            Ok(Section::DataCount(DataCountSection { count: c }))
        },
        SectionID::Custom => {
            let (name, q) = parse_name(payload, 0)?;
            let rest = slice_to_vec(vstd::slice::slice_subrange(payload, q, payload.len()));
            Ok(Section::Custom(CustomSection { name, payload: rest }))
        },
    }
}

} // verus!
