//! Instructions: the raw byte span of an expression, and the decoded
//! opcodes the validator understands.

use vstd::prelude::*;
use crate::types::ReferenceType;

verus! {

/// The byte span of an initializer or body, up to (not including) the
/// terminating end opcode 0x0b.
#[derive(Debug, Clone, PartialEq, Eq)]
pub struct RawExpression {
    pub instructions: Vec<u8>,
}

/// A decoded opcode.  Floating-point constants keep their little-endian bit
/// patterns: the validator only ever looks at their type.
#[derive(Debug, Clone, Copy, PartialEq, Eq, Structural)]
pub enum Opcode {
    LocalGet(u32),
    LocalSet(u32),
    LocalTee(u32),
    GlobalGet(u32),
    GlobalSet(u32),
    I32Const(i32),
    I64Const(i64),
    F32Const(u32),
    F64Const(u64),
    RefNull(ReferenceType),
    RefIsNull,
    RefFunc(u32),
    I32Add,
}

/// The four families of supported opcodes.
#[derive(Debug, Clone, Copy, PartialEq, Eq, Structural)]
pub enum OpcodeCategory {
    Variable,
    Reference,
    NumericConst,
    Numeric,
}

/// The constant opcodes: exactly those allowed in constant expressions.
pub open spec fn spec_is_constant(op: Opcode) -> bool {
    match op {
        Opcode::GlobalGet(_) => true,
        Opcode::I32Const(_) => true,
        Opcode::I64Const(_) => true,
        Opcode::F32Const(_) => true,
        Opcode::F64Const(_) => true,
        Opcode::RefNull(_) => true,
        Opcode::RefFunc(_) => true,
        _ => false,
    }
}

/// The family an opcode belongs to.
pub open spec fn spec_category(op: Opcode) -> OpcodeCategory {
    match op {
        Opcode::LocalGet(_) => OpcodeCategory::Variable,
        Opcode::LocalSet(_) => OpcodeCategory::Variable,
        Opcode::LocalTee(_) => OpcodeCategory::Variable,
        Opcode::GlobalGet(_) => OpcodeCategory::Variable,
        Opcode::GlobalSet(_) => OpcodeCategory::Variable,
        Opcode::I32Const(_) => OpcodeCategory::NumericConst,
        Opcode::I64Const(_) => OpcodeCategory::NumericConst,
        Opcode::F32Const(_) => OpcodeCategory::NumericConst,
        Opcode::F64Const(_) => OpcodeCategory::NumericConst,
        Opcode::RefNull(_) => OpcodeCategory::Reference,
        Opcode::RefIsNull => OpcodeCategory::Reference,
        Opcode::RefFunc(_) => OpcodeCategory::Reference,
        Opcode::I32Add => OpcodeCategory::Numeric,
    }
}

impl Opcode {
    /// Whether this opcode may appear in a constant expression.
    pub fn is_constant(&self) -> (r: bool)
        ensures
            r == spec_is_constant(*self),
    {
        match self {
            Opcode::GlobalGet(_) => true,
            Opcode::I32Const(_) => true,
            Opcode::I64Const(_) => true,
            Opcode::F32Const(_) => true,
            Opcode::F64Const(_) => true,
            Opcode::RefNull(_) => true,
            Opcode::RefFunc(_) => true,
            _ => false,
        }
    }

    /// The family this opcode belongs to.
    pub fn category(&self) -> (r: OpcodeCategory)
        ensures
            r == spec_category(*self),
    {
        match self {
            Opcode::LocalGet(_)
            | Opcode::LocalSet(_)
            | Opcode::LocalTee(_)
            | Opcode::GlobalGet(_)
            | Opcode::GlobalSet(_) => OpcodeCategory::Variable,
            Opcode::I32Const(_)
            | Opcode::I64Const(_)
            | Opcode::F32Const(_)
            | Opcode::F64Const(_) => OpcodeCategory::NumericConst,
            Opcode::RefFunc(_) | Opcode::RefNull(_) | Opcode::RefIsNull => {
                OpcodeCategory::Reference
            },
            Opcode::I32Add => OpcodeCategory::Numeric,
        }
    }
}

} // verus!
