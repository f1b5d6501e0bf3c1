//! Errors of the validator.

use vstd::prelude::*;
use crate::instructions::Opcode;
use crate::parse_error::ParseError;
use crate::section::SectionID;
use crate::stacks::{ControlFrame, ControlFrameV, StackValue};
use crate::types::{FunctionType, Limits, ValueType};
use crate::views::FunctionTypeV;

verus! {

/// An index space a cross-section reference can point into or out of.
#[derive(Debug, Clone, Copy, PartialEq, Eq, Structural)]
pub enum IndexSpace {
    Type,
    Function,
    Table,
    Memory,
    Global,
    Export,
    Import,
    Start,
    Element,
    ElementItems,
    Code,
}

/// Where an expression under validation stands in the module.
#[derive(Debug, Clone, Copy, PartialEq, Eq, Structural)]
pub enum ExprLocation {
    /// The body of the code section entry with this index.
    CodeSection(usize),
    /// The initializer of the global with this index.
    GlobalSection(usize),
    /// The offset expression of the element segment with this index.
    ElementOffset(usize),
    /// An item expression of an element segment: segment, then item.
    ElementItem(usize, usize),
    /// The reference scan of the global initializer with this index.
    GlobalRefScan(usize),
    /// The reference scan of an element item expression: segment, then item.
    ElementRefScan(usize, usize),
}

/// Why one instruction failed to typecheck.
#[derive(Debug, Clone, Copy, PartialEq, Eq, Structural)]
pub enum VInstError {
    /// A frame was needed and the control stack was empty.
    ControlStackUnderflow,
    /// A value was needed below the current frame's floor.
    ValueStackUnderflow,
    /// The popped value had the wrong concrete type.
    PopValueTypeMismatch { expected: ValueType, actual: ValueType },
    /// The opcode stream did not decode.
    OpcodeParseFailed(ParseError),
    /// No local at this index.
    NoLocalAtIndex(u32),
    /// No global at this index.
    NoGlobalAtIndex(u32),
    /// No function (or no function type) at this index.
    NoFunctionAtIndex(u32),
    /// The function index is not declared for reference.
    NotIncludedInRefs(u32),
    /// The opcode is not allowed in a constant expression.
    OpcodeShouldBeConstant(Opcode),
    /// The global read in a constant expression is not immutable.
    GlobalGetShouldBeConstant(u32),
    /// The popped value should have been a reference type.
    StackValueShouldBeRefType(StackValue),
}

/// Why a module failed validation.
#[derive(Debug, PartialEq)]
pub enum ValidationError {
    /// A cross-section index does not resolve.
    IndexOutOfBoundsIn {
        referring: IndexSpace,
        referring_index: usize,
        referred: IndexSpace,
        referred_index: u32,
    },
    /// The function and code sections disagree on the number of functions.
    CodeSectionLengthMismatch { funcs_declared: usize, code_bodies: usize },
    /// An expression failed its stack-machine type check; carries the
    /// opcodes consumed so far and both stack snapshots for diagnosis.
    InstructionValidationError {
        desc: ExprLocation,
        error: VInstError,
        progress: Vec<Opcode>,
        value_stack: Vec<StackValue>,
        control_stack: Vec<ControlFrame>,
    },
    /// A reference scan of an expression failed to decode it.
    CollectFuncRefFromExprError { desc: ExprLocation, error: VInstError },
    /// A table's limits exceed the system maximum.
    TableSizeError { section: SectionID, index: usize, limits: Limits, maximum: u32 },
    /// A memory's limits exceed the system maximum in pages.
    MemorySizeError { section: SectionID, index: usize, limits: Limits, maximum: u32 },
    /// The start function's type is not empty-to-empty.
    StartFuncInvalid { functype: FunctionType },
}

/// Model of a validation error.
pub enum ValidationErrorV {
    IndexOutOfBoundsIn {
        referring: IndexSpace,
        referring_index: int,
        referred: IndexSpace,
        referred_index: u32,
    },
    CodeSectionLengthMismatch { funcs_declared: int, code_bodies: int },
    InstructionValidationError {
        desc: ExprLocation,
        error: VInstError,
        progress: Seq<Opcode>,
        value_stack: Seq<StackValue>,
        control_stack: Seq<ControlFrameV>,
    },
    CollectFuncRefFromExprError { desc: ExprLocation, error: VInstError },
    TableSizeError { section: SectionID, index: int, limits: Limits, maximum: u32 },
    MemorySizeError { section: SectionID, index: int, limits: Limits, maximum: u32 },
    StartFuncInvalid { functype: FunctionTypeV },
}

impl DeepView for ValidationError {
    type V = ValidationErrorV;

    open spec fn deep_view(&self) -> ValidationErrorV {
        match self {
            ValidationError::IndexOutOfBoundsIn {
                referring,
                referring_index,
                referred,
                referred_index,
            } => ValidationErrorV::IndexOutOfBoundsIn {
                referring: *referring,
                referring_index: *referring_index as int,
                referred: *referred,
                referred_index: *referred_index,
            },
            ValidationError::CodeSectionLengthMismatch { funcs_declared, code_bodies } =>
                ValidationErrorV::CodeSectionLengthMismatch {
                funcs_declared: *funcs_declared as int,
                code_bodies: *code_bodies as int,
            },
            ValidationError::InstructionValidationError {
                desc,
                error,
                progress,
                value_stack,
                control_stack,
            } => ValidationErrorV::InstructionValidationError {
                desc: *desc,
                error: *error,
                progress: progress@,
                value_stack: value_stack@,
                control_stack: control_stack.deep_view(),
            },
            ValidationError::CollectFuncRefFromExprError { desc, error } =>
                ValidationErrorV::CollectFuncRefFromExprError { desc: *desc, error: *error },
            ValidationError::TableSizeError { section, index, limits, maximum } =>
                ValidationErrorV::TableSizeError {
                section: *section,
                index: *index as int,
                limits: *limits,
                maximum: *maximum,
            },
            ValidationError::MemorySizeError { section, index, limits, maximum } =>
                ValidationErrorV::MemorySizeError {
                section: *section,
                index: *index as int,
                limits: *limits,
                maximum: *maximum,
            },
            ValidationError::StartFuncInvalid { functype } => ValidationErrorV::StartFuncInvalid {
                functype: functype.deep_view(),
            },
        }
    }
}

} // verus!
