//! Mathematical models of the syntax tree.
//!
//! Types whose fields are all plain values model themselves; types holding
//! vectors or strings get a model with `Seq` fields, reached through
//! `DeepView`.  The parser's contracts speak of these models.

use vstd::prelude::*;
use crate::instructions::RawExpression;
use crate::module::Module;
use crate::section::{
    CodeSection, CustomSection, DataCountSection, DataMode, DataSection, DataSegment, Element,
    ElementItems, ElementKind, ElementSection, Export, ExportDesc, ExportSection, FunctionBody,
    FunctionSection, Global, GlobalSection, Import, ImportDesc, ImportSection, Locals,
    MemorySection, Section, StartSection, TableSection, TypeSection,
};
use crate::types::{FunctionType, GlobalType, Limits, MemoryType, Mutability, TableType, ValueType};

verus! {

/// Model of a function type.
pub struct FunctionTypeV {
    pub params: Seq<ValueType>,
    pub results: Seq<ValueType>,
}

/// Model of an import.
pub struct ImportV {
    pub module: Seq<char>,
    pub name: Seq<char>,
    pub desc: ImportDesc,
}

/// Model of a global declaration.
pub struct GlobalV {
    pub global_type: GlobalType,
    pub expression: Seq<u8>,
}

/// Model of an export.
pub struct ExportV {
    pub name: Seq<char>,
    pub desc: ExportDesc,
}

/// Model of an element segment's placement.
pub enum ElementKindV {
    Active { table_index: Option<u32>, offset_expression: Seq<u8> },
    Declarative,
    Passive,
}

/// Model of an element segment's items.
pub enum ElementItemsV {
    Functions(Seq<u32>),
    Expressions(crate::types::ReferenceType, Seq<Seq<u8>>),
}

/// Model of an element segment.
pub struct ElementV {
    pub kind: ElementKindV,
    pub items: ElementItemsV,
}

/// Model of a function body.
pub struct FunctionBodyV {
    pub locals: Seq<Locals>,
    pub expression: Seq<u8>,
}

/// Model of a data segment's placement.
pub enum DataModeV {
    Active { memory_index: Option<u32>, offset_expression: Seq<u8> },
    Passive,
}

/// Model of a data segment.
pub struct DataSegmentV {
    pub mode: DataModeV,
    pub data: Seq<u8>,
}

/// Model of a custom section.
pub struct CustomSectionV {
    pub name: Seq<char>,
    pub payload: Seq<u8>,
}

/// Model of a section.
pub enum SectionV {
    Type(Seq<FunctionTypeV>),
    Import(Seq<ImportV>),
    Function(Seq<u32>),
    Table(Seq<TableType>),
    Memory(Seq<MemoryType>),
    Global(Seq<GlobalV>),
    Export(Seq<ExportV>),
    Start(u32),
    Element(Seq<ElementV>),
    Code(Seq<FunctionBodyV>),
    Data(Seq<DataSegmentV>),
    DataCount(u32),
    Custom(CustomSectionV),
}

/// Model of a module.
pub struct ModuleV {
    pub sections: Seq<SectionV>,
}

impl DeepView for RawExpression {
    type V = Seq<u8>;

    open spec fn deep_view(&self) -> Seq<u8> {
        self.instructions@
    }
}

impl DeepView for FunctionType {
    type V = FunctionTypeV;

    open spec fn deep_view(&self) -> FunctionTypeV {
        FunctionTypeV { params: self.params.deep_view(), results: self.results.deep_view() }
    }
}

impl DeepView for Limits {
    type V = Limits;

    open spec fn deep_view(&self) -> Limits {
        *self
    }
}

impl DeepView for MemoryType {
    type V = MemoryType;

    open spec fn deep_view(&self) -> MemoryType {
        *self
    }
}

impl DeepView for TableType {
    type V = TableType;

    open spec fn deep_view(&self) -> TableType {
        *self
    }
}

impl DeepView for GlobalType {
    type V = GlobalType;

    open spec fn deep_view(&self) -> GlobalType {
        *self
    }
}

impl DeepView for Mutability {
    type V = Mutability;

    open spec fn deep_view(&self) -> Mutability {
        *self
    }
}

impl DeepView for ValueType {
    type V = ValueType;

    open spec fn deep_view(&self) -> ValueType {
        *self
    }
}

impl DeepView for Locals {
    type V = Locals;

    open spec fn deep_view(&self) -> Locals {
        *self
    }
}

impl DeepView for Import {
    type V = ImportV;

    open spec fn deep_view(&self) -> ImportV {
        ImportV { module: self.module@, name: self.name@, desc: self.desc }
    }
}

impl DeepView for Global {
    type V = GlobalV;

    open spec fn deep_view(&self) -> GlobalV {
        GlobalV { global_type: self.global_type, expression: self.expression.instructions@ }
    }
}

impl DeepView for Export {
    type V = ExportV;

    open spec fn deep_view(&self) -> ExportV {
        ExportV { name: self.name@, desc: self.desc }
    }
}

impl DeepView for Element {
    type V = ElementV;

    open spec fn deep_view(&self) -> ElementV {
        ElementV { kind: self.kind.deep_view(), items: self.items.deep_view() }
    }
}

impl DeepView for ElementKind {
    type V = ElementKindV;

    open spec fn deep_view(&self) -> ElementKindV {
        match self {
            ElementKind::Active { table_index, offset_expression } => ElementKindV::Active {
                table_index: *table_index,
                offset_expression: offset_expression.instructions@,
            },
            ElementKind::Declarative => ElementKindV::Declarative,
            ElementKind::Passive => ElementKindV::Passive,
        }
    }
}

impl DeepView for ElementItems {
    type V = ElementItemsV;

    open spec fn deep_view(&self) -> ElementItemsV {
        match self {
            ElementItems::Functions(items) => ElementItemsV::Functions(items.deep_view()),
            ElementItems::Expressions(rt, exprs) => ElementItemsV::Expressions(
                *rt,
                exprs.deep_view(),
            ),
        }
    }
}

impl DeepView for FunctionBody {
    type V = FunctionBodyV;

    open spec fn deep_view(&self) -> FunctionBodyV {
        FunctionBodyV { locals: self.locals.deep_view(), expression: self.expression.instructions@ }
    }
}

impl DeepView for DataSegment {
    type V = DataSegmentV;

    open spec fn deep_view(&self) -> DataSegmentV {
        DataSegmentV { mode: self.mode.deep_view(), data: self.data@ }
    }
}

impl DeepView for DataMode {
    type V = DataModeV;

    open spec fn deep_view(&self) -> DataModeV {
        match self {
            DataMode::Active { memory_index, offset_expression } => DataModeV::Active {
                memory_index: *memory_index,
                offset_expression: offset_expression.instructions@,
            },
            DataMode::Passive => DataModeV::Passive,
        }
    }
}

impl DeepView for CustomSection {
    type V = CustomSectionV;

    open spec fn deep_view(&self) -> CustomSectionV {
        CustomSectionV { name: self.name@, payload: self.payload@ }
    }
}

impl DeepView for Section {
    type V = SectionV;

    open spec fn deep_view(&self) -> SectionV {
        match self {
            Section::Type(x) => SectionV::Type(x.types.deep_view()),
            Section::Import(x) => SectionV::Import(x.imports.deep_view()),
            Section::Function(x) => SectionV::Function(x.type_indices.deep_view()),
            Section::Table(x) => SectionV::Table(x.tables.deep_view()),
            Section::Memory(x) => SectionV::Memory(x.memories.deep_view()),
            Section::Global(x) => SectionV::Global(x.globals.deep_view()),
            Section::Export(x) => SectionV::Export(x.exports.deep_view()),
            Section::Start(x) => SectionV::Start(x.start_function_index),
            Section::Element(x) => SectionV::Element(x.elements.deep_view()),
            Section::Code(x) => SectionV::Code(x.code.deep_view()),
            Section::Data(x) => SectionV::Data(x.segments.deep_view()),
            Section::DataCount(x) => SectionV::DataCount(x.count),
            Section::Custom(x) => SectionV::Custom(x.deep_view()),
        }
    }
}

impl DeepView for Module {
    type V = ModuleV;

    open spec fn deep_view(&self) -> ModuleV {
        ModuleV { sections: self.sections.deep_view() }
    }
}

/// The section kind of a section model.
pub open spec fn section_v_id(sec: SectionV) -> crate::section::SectionID {
    match sec {
        SectionV::Type(_) => crate::section::SectionID::Type,
        SectionV::Import(_) => crate::section::SectionID::Import,
        SectionV::Function(_) => crate::section::SectionID::Function,
        SectionV::Table(_) => crate::section::SectionID::Table,
        SectionV::Memory(_) => crate::section::SectionID::Memory,
        SectionV::Global(_) => crate::section::SectionID::Global,
        SectionV::Export(_) => crate::section::SectionID::Export,
        SectionV::Start(_) => crate::section::SectionID::Start,
        SectionV::Element(_) => crate::section::SectionID::Element,
        SectionV::Code(_) => crate::section::SectionID::Code,
        SectionV::Data(_) => crate::section::SectionID::Data,
        SectionV::DataCount(_) => crate::section::SectionID::DataCount,
        SectionV::Custom(_) => crate::section::SectionID::Custom,
    }
}

} // verus!
