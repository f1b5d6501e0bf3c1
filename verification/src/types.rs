//! The type grammar of a module: value types, function types, limits, and
//! the table, memory, and global types built from them.

use vstd::prelude::*;

verus! {

/// A number type, with its canonical encoding byte 0x7f..0x7c.
#[derive(Debug, Clone, Copy, PartialEq, Eq, Structural)]
pub enum NumberType {
    I32,
    I64,
    F32,
    F64,
}

/// A vector type (byte 0x7b).
#[derive(Debug, Clone, Copy, PartialEq, Eq, Structural)]
pub enum VectorType {
    V128,
}

/// A reference type (bytes 0x70 and 0x6f).
#[derive(Debug, Clone, Copy, PartialEq, Eq, Structural)]
pub enum ReferenceType {
    FuncRef,
    ExternRef,
}

/// A value type: the flat sum of number, vector, and reference types.
#[derive(Debug, Clone, Copy, PartialEq, Eq, Structural)]
pub enum ValueType {
    Number(NumberType),
    Vector(VectorType),
    Reference(ReferenceType),
}

/// The value type a byte encodes, if any.
pub open spec fn spec_value_type(b: u8) -> Option<ValueType> {
    match b {
        0x7f => Some(ValueType::Number(NumberType::I32)),
        0x7e => Some(ValueType::Number(NumberType::I64)),
        0x7d => Some(ValueType::Number(NumberType::F32)),
        0x7c => Some(ValueType::Number(NumberType::F64)),
        0x7b => Some(ValueType::Vector(VectorType::V128)),
        0x70 => Some(ValueType::Reference(ReferenceType::FuncRef)),
        0x6f => Some(ValueType::Reference(ReferenceType::ExternRef)),
        _ => None,
    }
}

/// The reference type a byte encodes, if any.
pub open spec fn spec_reference_type(b: u8) -> Option<ReferenceType> {
    match b {
        0x70 => Some(ReferenceType::FuncRef),
        0x6f => Some(ReferenceType::ExternRef),
        _ => None,
    }
}

/// Decodes a value type from its single-byte encoding.
pub fn value_type_from_byte(b: u8) -> (r: Option<ValueType>)
    ensures
        r == spec_value_type(b),
{
    match b {
        0x7f => Some(ValueType::Number(NumberType::I32)),
        0x7e => Some(ValueType::Number(NumberType::I64)),
        0x7d => Some(ValueType::Number(NumberType::F32)),
        0x7c => Some(ValueType::Number(NumberType::F64)),
        0x7b => Some(ValueType::Vector(VectorType::V128)),
        0x70 => Some(ValueType::Reference(ReferenceType::FuncRef)),
        0x6f => Some(ValueType::Reference(ReferenceType::ExternRef)),
        _ => None,
    }
}

/// Decodes a reference type from its single-byte encoding.
pub fn reference_type_from_byte(b: u8) -> (r: Option<ReferenceType>)
    ensures
        r == spec_reference_type(b),
{
    match b {
        0x70 => Some(ReferenceType::FuncRef),
        0x6f => Some(ReferenceType::ExternRef),
        _ => None,
    }
}

/// A function type: ordered parameter and result types (binary prefix 0x60).
#[derive(Debug, Clone, PartialEq, Eq)]
pub struct FunctionType {
    pub params: Vec<ValueType>,
    pub results: Vec<ValueType>,
}

/// Size limits: a minimum and an optional maximum.
#[derive(Debug, Clone, PartialEq, Eq)]
pub struct Limits {
    pub min: u32,
    pub max: Option<u32>,
}

/// A memory type is its limits, counted in pages.
#[derive(Debug, Clone, PartialEq, Eq)]
pub struct MemoryType {
    pub limits: Limits,
}

/// A table type: the reference type of its elements and its limits.
#[derive(Debug, Clone, PartialEq, Eq)]
pub struct TableType {
    pub ref_type: ReferenceType,
    pub limits: Limits,
}

/// Whether a global may be written after instantiation.
#[derive(Debug, Clone, Copy, PartialEq, Eq, Structural)]
pub enum Mutability {
    Const,
    Var,
}

/// A global's value type together with its mutability.
#[derive(Debug, Clone, PartialEq, Eq)]
pub struct GlobalType {
    pub val_type: ValueType,
    pub mutability: Mutability,
}

} // verus!
