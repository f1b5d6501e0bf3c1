//! Errors of the binary decoder.

use vstd::prelude::*;
use crate::section::SectionID;

verus! {

/// Why a byte buffer failed to decode into a module.
#[derive(Debug, Clone, Copy, PartialEq, Eq, Structural)]
pub enum ParseError {
    /// The input ended before the grammar did.
    UnexpectedEof,
    /// The buffer does not begin with `\0asm`.
    MagicMismatch,
    /// The version field is not 1.
    VersionMismatch,
    /// A LEB128 integer does not fit its bit width.
    IntegerOverflow,
    /// A LEB128 integer ends with its continuation bit still set.
    IntegerUnterminated,
    /// The byte is not a value type encoding.
    InvalidValueType(u8),
    /// The byte is not a reference type encoding.
    InvalidReferenceType(u8),
    /// The byte is not a mutability flag.
    InvalidMutability(u8),
    /// The byte is not a limits flag.
    InvalidLimitsFlag(u8),
    /// A function type does not begin with 0x60.
    InvalidFunctionTypeTag(u8),
    /// The byte is not an import description tag.
    InvalidImportDescTag(u8),
    /// The byte is not an export description tag.
    InvalidExportDescTag(u8),
    /// The word is not a data segment mode.
    InvalidDataModeFlag(u32),
    /// The byte is not the element-kind marker an element flag calls for.
    InvalidElementKind(u8),
    /// The byte is not a section identifier.
    InvalidSectionId(u8),
    /// A name is not valid UTF-8.
    InvalidUtf8,
    /// An expression has no end opcode.
    MissingEndOpcode,
    /// The byte begins no supported opcode.
    UnknownOpcode(u8),
    /// A section's sub-parser did not consume its payload in full.
    SectionTrailingBytes(SectionID),
    /// A function body's sub-parser did not consume the body in full.
    BodyTrailingBytes,
    /// Non-custom section identifiers do not strictly ascend (earlier, later).
    SectionsOutOfOrder(u8, u8),
}

} // verus!
