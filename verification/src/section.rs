//! Sections: the thirteen kinds of a module, their record types, and the
//! section identifiers.

use vstd::prelude::*;
use crate::instructions::RawExpression;
use crate::types::{FunctionType, GlobalType, MemoryType, ReferenceType, TableType, ValueType};

verus! {

/// A decoded section, tagged by kind.
#[derive(Debug, PartialEq, Eq)]
pub enum Section {
    Type(TypeSection),
    Import(ImportSection),
    Function(FunctionSection),
    Table(TableSection),
    Memory(MemorySection),
    Global(GlobalSection),
    Export(ExportSection),
    Start(StartSection),
    Element(ElementSection),
    Code(CodeSection),
    Data(DataSection),
    DataCount(DataCountSection),
    Custom(CustomSection),
}

#[derive(Debug, PartialEq, Eq)]
pub struct TypeSection {
    pub types: Vec<FunctionType>,
}

#[derive(Debug, PartialEq, Eq)]
pub struct ImportSection {
    pub imports: Vec<Import>,
}

/// One import: the module and field names and what is imported.
#[derive(Debug, PartialEq, Eq)]
pub struct Import {
    pub module: String,
    pub name: String,
    pub desc: ImportDesc,
}

/// What an import brings in: a function (by type index), a table, a memory,
/// or a global.
#[derive(Debug, PartialEq, Eq)]
pub enum ImportDesc {
    TypeIndex(u32),
    Table(TableType),
    Memory(MemoryType),
    Global(GlobalType),
}

#[derive(Debug, PartialEq, Eq)]
pub struct FunctionSection {
    pub type_indices: Vec<u32>,
}

#[derive(Debug, PartialEq, Eq)]
pub struct TableSection {
    pub tables: Vec<TableType>,
}

#[derive(Debug, PartialEq, Eq)]
pub struct MemorySection {
    pub memories: Vec<MemoryType>,
}

#[derive(Debug, PartialEq, Eq)]
pub struct GlobalSection {
    pub globals: Vec<Global>,
}

/// One global declaration: its type and its initializer expression.
#[derive(Debug, PartialEq, Eq)]
pub struct Global {
    pub global_type: GlobalType,
    pub expression: RawExpression,
}

#[derive(Debug, PartialEq, Eq)]
pub struct ExportSection {
    pub exports: Vec<Export>,
}

/// One export: its name and what it exposes.
#[derive(Debug, PartialEq, Eq)]
pub struct Export {
    pub name: String,
    pub desc: ExportDesc,
}

/// What an export exposes, by index into the corresponding space.
#[derive(Debug, PartialEq, Eq, Clone, Copy, Structural)]
pub enum ExportDesc {
    FunctionIndex(u32),
    TableIndex(u32),
    MemoryIndex(u32),
    GlobalIndex(u32),
}

#[derive(Debug, PartialEq, Eq)]
pub struct StartSection {
    pub start_function_index: u32,
}

#[derive(Debug, PartialEq, Eq)]
pub struct ElementSection {
    pub elements: Vec<Element>,
}

/// One element segment: its placement kind and its items.
#[derive(Debug, PartialEq, Eq)]
pub struct Element {
    pub kind: ElementKind,
    pub items: ElementItems,
}

/// How an element segment is placed: active (into a table, at an offset),
/// passive, or declarative.
#[derive(Debug, PartialEq, Eq)]
pub enum ElementKind {
    Active { table_index: Option<u32>, offset_expression: RawExpression },
    Declarative,
    Passive,
}

/// The items of an element segment: function indices, or expressions of a
/// declared reference type.
#[derive(Debug, PartialEq, Eq)]
pub enum ElementItems {
    Functions(Vec<u32>),
    Expressions(ReferenceType, Vec<RawExpression>),
}

#[derive(Debug, PartialEq, Eq)]
pub struct CodeSection {
    pub code: Vec<FunctionBody>,
}

/// One function body: its local declarations and its expression.
#[derive(Debug, PartialEq, Eq)]
pub struct FunctionBody {
    pub locals: Vec<Locals>,
    pub expression: RawExpression,
}

/// A run of `count` locals sharing one value type.
#[derive(Debug, PartialEq, Eq)]
pub struct Locals {
    pub count: u32,
    pub value_type: ValueType,
}

#[derive(Debug, PartialEq, Eq)]
pub struct DataSection {
    pub segments: Vec<DataSegment>,
}

/// One data segment: its placement mode and its bytes.
#[derive(Debug, PartialEq, Eq)]
pub struct DataSegment {
    pub mode: DataMode,
    pub data: Vec<u8>,
}

/// How a data segment is placed: active (into a memory, at an offset) or
/// passive.
#[derive(Debug, PartialEq, Eq)]
pub enum DataMode {
    Active { memory_index: Option<u32>, offset_expression: RawExpression },
    Passive,
}

#[derive(Debug, PartialEq, Eq)]
pub struct DataCountSection {
    pub count: u32,
}

#[derive(Debug, PartialEq, Eq)]
pub struct CustomSection {
    pub name: String,
    pub payload: Vec<u8>,
}

/// The identifier of a section kind, encoded as bytes 0 through 12.
#[derive(Debug, Clone, Copy, PartialEq, Eq, Structural)]
pub enum SectionID {
    Custom,
    Type,
    Import,
    Function,
    Table,
    Memory,
    Global,
    Export,
    Start,
    Element,
    Code,
    Data,
    DataCount,
}

/// The section identifier a byte encodes, if any.
pub open spec fn spec_section_id(b: u8) -> Option<SectionID> {
    match b {
        0 => Some(SectionID::Custom),
        1 => Some(SectionID::Type),
        2 => Some(SectionID::Import),
        3 => Some(SectionID::Function),
        4 => Some(SectionID::Table),
        5 => Some(SectionID::Memory),
        6 => Some(SectionID::Global),
        7 => Some(SectionID::Export),
        8 => Some(SectionID::Start),
        9 => Some(SectionID::Element),
        10 => Some(SectionID::Code),
        11 => Some(SectionID::Data),
        12 => Some(SectionID::DataCount),
        _ => None,
    }
}

/// The encoding byte of a section identifier.
pub open spec fn spec_section_id_byte(id: SectionID) -> u8 {
    match id {
        SectionID::Custom => 0,
        SectionID::Type => 1,
        SectionID::Import => 2,
        SectionID::Function => 3,
        SectionID::Table => 4,
        SectionID::Memory => 5,
        SectionID::Global => 6,
        SectionID::Export => 7,
        SectionID::Start => 8,
        SectionID::Element => 9,
        SectionID::Code => 10,
        SectionID::Data => 11,
        SectionID::DataCount => 12,
    }
}

/// Decodes a section identifier from its byte.
pub fn section_id_from_byte(b: u8) -> (r: Option<SectionID>)
    ensures
        r == spec_section_id(b),
{
    match b {
        0 => Some(SectionID::Custom),
        1 => Some(SectionID::Type),
        2 => Some(SectionID::Import),
        3 => Some(SectionID::Function),
        4 => Some(SectionID::Table),
        5 => Some(SectionID::Memory),
        6 => Some(SectionID::Global),
        7 => Some(SectionID::Export),
        8 => Some(SectionID::Start),
        9 => Some(SectionID::Element),
        10 => Some(SectionID::Code),
        11 => Some(SectionID::Data),
        12 => Some(SectionID::DataCount),
        _ => None,
    }
}

impl SectionID {
    /// The encoding byte of this identifier.
    pub fn byte(&self) -> (r: u8)
        ensures
            r == spec_section_id_byte(*self),
    {
        match self {
            SectionID::Custom => 0,
            SectionID::Type => 1,
            SectionID::Import => 2,
            SectionID::Function => 3,
            SectionID::Table => 4,
            SectionID::Memory => 5,
            SectionID::Global => 6,
            SectionID::Export => 7,
            SectionID::Start => 8,
            SectionID::Element => 9,
            SectionID::Code => 10,
            SectionID::Data => 11,
            SectionID::DataCount => 12,
        }
    }
}

impl Section {
    /// The kind of this section, in spec form.
    pub open spec fn spec_id(&self) -> SectionID {
        match self {
            Section::Type(_) => SectionID::Type,
            Section::Import(_) => SectionID::Import,
            Section::Function(_) => SectionID::Function,
            Section::Table(_) => SectionID::Table,
            Section::Memory(_) => SectionID::Memory,
            Section::Global(_) => SectionID::Global,
            Section::Export(_) => SectionID::Export,
            Section::Start(_) => SectionID::Start,
            Section::Element(_) => SectionID::Element,
            Section::Code(_) => SectionID::Code,
            Section::Data(_) => SectionID::Data,
            Section::DataCount(_) => SectionID::DataCount,
            Section::Custom(_) => SectionID::Custom,
        }
    }

    /// The kind of this section.
    pub fn id(&self) -> (r: SectionID)
        ensures
            r == self.spec_id(),
    {
        match self {
            Section::Type(_) => SectionID::Type,
            Section::Import(_) => SectionID::Import,
            Section::Function(_) => SectionID::Function,
            Section::Table(_) => SectionID::Table,
            Section::Memory(_) => SectionID::Memory,
            Section::Global(_) => SectionID::Global,
            Section::Export(_) => SectionID::Export,
            Section::Start(_) => SectionID::Start,
            Section::Element(_) => SectionID::Element,
            Section::Code(_) => SectionID::Code,
            Section::Data(_) => SectionID::Data,
            Section::DataCount(_) => SectionID::DataCount,
            Section::Custom(_) => SectionID::Custom,
        }
    }
}

} // verus!
