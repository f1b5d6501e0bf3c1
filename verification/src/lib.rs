//! Decoding and static validation of WebAssembly binary modules.
//!
//! The crate is organised as a pipeline: the LEB128 integer codec and the
//! byte-level parsers turn an input buffer into a structured [`module::Module`],
//! and the validator checks that the module satisfies the well-formedness and
//! type-safety rules required before instantiation, including a stack-machine
//! type check of every function body and constant expression.

pub mod context;
pub mod instructions;
pub mod leb128;
pub mod module;
pub mod parse_error;
pub mod parse_instructions;
pub mod parse_items;
pub mod parse_name;
pub mod parse_num;
pub mod parse_records;
pub mod parse_sections;
pub mod parse_types;
pub mod parser;
pub mod raw;
pub mod section;
pub mod stacks;
pub mod types;
pub mod validation;
pub mod verror;
pub mod views;
pub mod vinstruction;
pub mod vsection;
