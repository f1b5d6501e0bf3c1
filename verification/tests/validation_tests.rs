//! Tests of the validator: whole-module scenarios assembled from text,
//! hand-crafted binaries for the rarer failures, and the stack machinery.

use raftik::instructions::Opcode;
use raftik::module::{Module, ModuleParsed};
use raftik::parse_error::ParseError;
use raftik::section::{Section, SectionID};
use raftik::stacks::{generate_stack, ControlFrame, StackValue};
use raftik::types::{NumberType, ValueType};
use raftik::validation::validate_module;
use raftik::verror::{ValidationError, VInstError};

fn with_wat(wat: impl AsRef<str>, test: impl Fn(ModuleParsed)) {
    let wasm = wat::parse_str(wat).unwrap();
    let module = ModuleParsed::from_slice(&wasm).unwrap();
    test(module)
}

#[test]
fn validation_test_minimal_wasm() {
    with_wat("(module)", |module| {
        assert!(validate_module(&module).is_ok());
    });
}

#[test]
fn test_add_module() {
    with_wat(
        "
(module
  (func $add (param $lhs i32) (param $rhs i32) (result i32)
    local.get $lhs
    local.get $rhs
    i32.add)
  (export \"add\" (func $add))
)
",
        |module| assert!(validate_module(&module).is_ok()),
    );
}

#[test]
fn test_invalid_add_module() {
    with_wat(
        "
(module
  (func $add (param $lhs i32) (param $rhs i64) (result i32)
    local.get $lhs
    local.get $rhs
    i32.add)
  (export \"add\" (func $add))
)
",
        |module| match validate_module(&module) {
            Ok(_) => unreachable!("should produce error"),
            Err(e) => match e {
                ValidationError::InstructionValidationError { error, .. } => {
                    if let VInstError::PopValueTypeMismatch { expected, actual } = error {
                        assert_eq!(ValueType::Number(NumberType::I32), expected);
                        assert_eq!(ValueType::Number(NumberType::I64), actual);
                    } else {
                        unreachable!("unexpected VInstError: {:?}", error);
                    }
                },
                _ => unreachable!("unexpected error type: {:?}", e),
            },
        },
    );
}

#[test]
fn test_table_module() {
    with_wat("(module (table 1 10 funcref))", |module| {
        assert!(validate_module(&module).is_ok());
    });
}

#[test]
fn test_invalid_table_module() {
    with_wat("(module (table 1 10 funcref))", |mut module| {
        let section: &mut Section = module.sec_by_id_mut(SectionID::Table).unwrap();
        let Section::Table(table_section) = section else { unreachable!("") };
        table_section.tables[0].limits.min = 12;

        match validate_module(&module) {
            Ok(_) => unreachable!("should produce error"),
            Err(e) => match e {
                ValidationError::TableSizeError { .. } => (),
                _ => unreachable!("unexpected error type: {:?}", e),
            },
        };
    });
}

#[test]
fn test_memory_module() {
    with_wat("(module (memory 10 100))", |module| {
        assert!(validate_module(&module).is_ok());
    });
}

#[test]
fn test_invalid_memory_module() {
    with_wat("(module (memory 10 100))", |mut module| {
        let section: &mut Section = module.sec_by_id_mut(SectionID::Memory).unwrap();
        let Section::Memory(memory_section) = section else { unreachable!("") };
        memory_section.memories[0].limits.max = Some(1);
        match validate_module(&module) {
            Ok(_) => unreachable!("should produce error"),
            Err(e) => match e {
                ValidationError::MemorySizeError { .. } => (),
                _ => unreachable!("unexpected error type: {:?}", e),
            },
        }
    });
}

#[test]
fn test_global_section_with_function_ref() {
    with_wat(
        "(module (global funcref ref.func 0) (func (param i32) (param i32) (result i32) local.get 0 local.get 1 i32.add))",
        |module| {
            assert!(validate_module(&module).is_ok());
        },
    );
}

#[test]
fn test_global_section_with_invalid_static() {
    with_wat(
        "(module (global i32 i32.const 0 i32.const 1 i32.add) (func (param i32) (param i32) (result i32) local.get 0 local.get 1 i32.add))",
        |module| {
            let r = validate_module(&module);
            if let Err(ValidationError::InstructionValidationError { error: e, .. }) = r {
                assert!(matches!(e, VInstError::OpcodeShouldBeConstant(_)));
            } else {
                unreachable!("result not expected: {:#?}", r);
            }
        },
    );
}

#[test]
fn memory_without_max_validates_against_page_cap() {
    // A memory with no maximum is held to the page cap through its minimum.
    with_wat("(module (memory 10))", |mut module| {
        assert!(validate_module(&module).is_ok());
        let Some(Section::Memory(memory_section)) = module.sec_by_id_mut(SectionID::Memory)
        else {
            unreachable!("")
        };
        memory_section.memories[0].limits.min = 0x10001;
        assert!(matches!(
            validate_module(&module),
            Err(ValidationError::MemorySizeError { .. })
        ));
    });
}

#[test]
fn validator_is_deterministic() {
    // The same module validates identically, run after run.
    with_wat(
        "(module (global i32 (i32.const 0) (i32.const 1) i32.add))",
        |module| {
            let first = validate_module(&module);
            let second = validate_module(&module);
            assert!(first.is_err());
            assert_eq!(first, second);
        },
    );
    with_wat("(module (table 1 10 funcref))", |module| {
        assert_eq!(validate_module(&module), validate_module(&module));
    });
}

#[test]
fn constant_mode_accepts_imported_const_global() {
    with_wat(
        "(module (import \"m\" \"g\" (global i32)) (global i32 (global.get 0)))",
        |module| {
            assert!(validate_module(&module).is_ok());
        },
    );
}

#[test]
fn constant_mode_rejects_imported_mutable_global() {
    with_wat(
        "(module (import \"m\" \"g\" (global (mut i32))) (global i32 (global.get 0)))",
        |module| {
            let r = validate_module(&module);
            if let Err(ValidationError::InstructionValidationError { error, .. }) = r {
                assert_eq!(error, VInstError::GlobalGetShouldBeConstant(0));
            } else {
                unreachable!("result not expected: {:#?}", r);
            }
        },
    );
}

#[test]
fn constant_mode_rejects_internal_global_reference() {
    // Under the primed context only imported globals remain, so an
    // initializer reading an internal global falls out of range.
    with_wat(
        "(module (global i32 (i32.const 1)) (global i32 (global.get 0)))",
        |module| {
            let r = validate_module(&module);
            if let Err(ValidationError::InstructionValidationError { error, .. }) = r {
                assert_eq!(error, VInstError::NoGlobalAtIndex(0));
            } else {
                unreachable!("result not expected: {:#?}", r);
            }
        },
    );
}

#[test]
fn ref_func_requires_declaration() {
    // Function 0 exists but is not exported, listed in an element, or
    // referenced by a constant expression, so `ref.func 0` in a body is
    // not a declared reference.
    with_wat("(module (func (result funcref) ref.func 0))", |module| {
        let r = validate_module(&module);
        if let Err(ValidationError::InstructionValidationError { error, .. }) = r {
            assert_eq!(error, VInstError::NotIncludedInRefs(0));
        } else {
            unreachable!("result not expected: {:#?}", r);
        }
    });
}

#[test]
fn ref_func_accepts_element_declared_function() {
    with_wat(
        "(module (func $f (result funcref) ref.func $f) (elem declare func $f))",
        |module| {
            assert!(validate_module(&module).is_ok());
        },
    );
}

#[test]
fn ref_is_null_requires_reference_operand() {
    with_wat(
        "(module (func (param i32) (result i32) local.get 0 ref.is_null))",
        |module| {
            let r = validate_module(&module);
            if let Err(ValidationError::InstructionValidationError { error, .. }) = r {
                assert_eq!(
                    error,
                    VInstError::StackValueShouldBeRefType(StackValue::Value(ValueType::Number(
                        NumberType::I32
                    )))
                );
            } else {
                unreachable!("result not expected: {:#?}", r);
            }
        },
    );
}

#[test]
fn value_stack_underflow_in_body() {
    with_wat("(module (func (result i32) i32.add))", |module| {
        let r = validate_module(&module);
        if let Err(ValidationError::InstructionValidationError { error, .. }) = r {
            assert_eq!(error, VInstError::ValueStackUnderflow);
        } else {
            unreachable!("result not expected: {:#?}", r);
        }
    });
}

#[test]
fn missing_local_and_global() {
    with_wat("(module (func local.get 0 local.set 0))", |module| {
        let r = validate_module(&module);
        if let Err(ValidationError::InstructionValidationError { error, .. }) = r {
            assert_eq!(error, VInstError::NoLocalAtIndex(0));
        } else {
            unreachable!("result not expected: {:#?}", r);
        }
    });
    with_wat("(module (func global.get 0 global.set 0))", |module| {
        let r = validate_module(&module);
        if let Err(ValidationError::InstructionValidationError { error, .. }) = r {
            assert_eq!(error, VInstError::NoGlobalAtIndex(0));
        } else {
            unreachable!("result not expected: {:#?}", r);
        }
    });
}

#[test]
fn ref_func_to_missing_function() {
    with_wat("(module (global funcref (ref.func 0)) (func))", |mut module| {
        assert!(validate_module(&module).is_ok());
        // Point the initializer at a function that does not exist.
        let Some(Section::Global(global_section)) = module.sec_by_id_mut(SectionID::Global)
        else {
            unreachable!("")
        };
        global_section.globals[0].expression.instructions = vec![0xd2, 0x05];
        let r = validate_module(&module);
        if let Err(ValidationError::InstructionValidationError { error, .. }) = r {
            assert_eq!(error, VInstError::NoFunctionAtIndex(5));
        } else {
            unreachable!("result not expected: {:#?}", r);
        }
    });
}

#[test]
fn opcode_parse_failure_in_initializer() {
    with_wat("(module (global i32 (i32.const 0)))", |mut module| {
        // Replace the initializer with an unsupported opcode byte.
        let Some(Section::Global(global_section)) = module.sec_by_id_mut(SectionID::Global)
        else {
            unreachable!("")
        };
        global_section.globals[0].expression.instructions = vec![0x01];
        let r = validate_module(&module);
        if let Err(ValidationError::CollectFuncRefFromExprError { error, .. }) = r {
            assert_eq!(
                error,
                VInstError::OpcodeParseFailed(ParseError::UnknownOpcode(0x01))
            );
        } else {
            unreachable!("result not expected: {:#?}", r);
        }
    });
}

/// The header every hand-built module starts with.
fn header() -> Vec<u8> {
    vec![0x00, 0x61, 0x73, 0x6d, 0x01, 0x00, 0x00, 0x00]
}

#[test]
fn function_section_with_unresolved_type_index() {
    // A function declares type 0 but there is no type section.
    let mut data = header();
    data.extend_from_slice(&[0x03, 0x02, 0x01, 0x00]); // function section: [0]
    data.extend_from_slice(&[0x0a, 0x04, 0x01, 0x02, 0x00, 0x0b]); // code: one empty body
    let module = Module::from_slice(&data).unwrap();
    let r = validate_module(&module);
    assert!(matches!(r, Err(ValidationError::IndexOutOfBoundsIn { .. })), "{:?}", r);
}

#[test]
fn code_section_length_mismatch() {
    // Two declared functions, one body.
    let mut data = header();
    data.extend_from_slice(&[0x01, 0x04, 0x01, 0x60, 0x00, 0x00]); // one type: [] -> []
    data.extend_from_slice(&[0x03, 0x03, 0x02, 0x00, 0x00]); // function section: [0, 0]
    data.extend_from_slice(&[0x0a, 0x04, 0x01, 0x02, 0x00, 0x0b]); // code: one empty body
    let module = Module::from_slice(&data).unwrap();
    match validate_module(&module) {
        Err(ValidationError::CodeSectionLengthMismatch { funcs_declared, code_bodies }) => {
            assert_eq!(funcs_declared, 2);
            assert_eq!(code_bodies, 1);
        },
        r => unreachable!("result not expected: {:#?}", r),
    }
}

#[test]
fn start_function_must_be_empty_to_empty() {
    with_wat("(module (func) (start 0))", |module| {
        assert!(validate_module(&module).is_ok());
    });
    // A start function taking a parameter is rejected.
    let mut data = header();
    data.extend_from_slice(&[0x01, 0x05, 0x01, 0x60, 0x01, 0x7f, 0x00]); // one type: [i32] -> []
    data.extend_from_slice(&[0x03, 0x02, 0x01, 0x00]); // function section: [0]
    data.extend_from_slice(&[0x08, 0x01, 0x00]); // start section: function 0
    data.extend_from_slice(&[0x0a, 0x04, 0x01, 0x02, 0x00, 0x0b]); // code: one empty body
    let module = Module::from_slice(&data).unwrap();
    assert!(matches!(
        validate_module(&module),
        Err(ValidationError::StartFuncInvalid { .. })
    ));
}

#[test]
fn export_with_unresolved_index() {
    let mut data = header();
    data.extend_from_slice(&[0x07, 0x05, 0x01, 0x01, b'f', 0x00, 0x03]); // export "f" func 3
    let module = Module::from_slice(&data).unwrap();
    assert!(matches!(
        validate_module(&module),
        Err(ValidationError::IndexOutOfBoundsIn { .. })
    ));
}

#[test]
fn element_with_unresolved_table() {
    // An active element on table 0 in a module that declares no table.
    let mut data = header();
    data.extend_from_slice(&[0x01, 0x04, 0x01, 0x60, 0x00, 0x00]); // one type: [] -> []
    data.extend_from_slice(&[0x03, 0x02, 0x01, 0x00]); // function section: [0]
    data.extend_from_slice(&[
        0x09, 0x07, 0x01, // element section, one segment
        0x00, 0x41, 0x00, 0x0b, // active on table 0, offset i32.const 0
        0x01, 0x00, // one function index: 0
    ]);
    data.extend_from_slice(&[0x0a, 0x04, 0x01, 0x02, 0x00, 0x0b]); // code: one empty body
    let module = Module::from_slice(&data).unwrap();
    assert!(matches!(
        validate_module(&module),
        Err(ValidationError::IndexOutOfBoundsIn { .. })
    ));
}

#[test]
fn import_with_oversized_memory() {
    // An imported memory whose maximum exceeds the page cap.
    let mut data = header();
    data.extend_from_slice(&[
        0x02, 0x0d, 0x01, // import section, one import
        0x01, b'm', // module "m"
        0x03, b'm', b'e', b'm', // name "mem"
        0x02, 0x01, 0x0a, 0xd0, 0x8d, 0x06, // memory, limits 10 .. 100000
    ]);
    let module = Module::from_slice(&data).unwrap();
    assert!(matches!(
        validate_module(&module),
        Err(ValidationError::MemorySizeError { .. })
    ));
}

#[test]
fn stacks_report_underflows() {
    // Popping with no frame at all underflows the control stack.
    let mut stack = generate_stack();
    assert_eq!(stack.pop_val(), Err(VInstError::ControlStackUnderflow));
    assert_eq!(stack.pop_ctrl().err(), Some(VInstError::ControlStackUnderflow));
    // At the floor of a reachable frame, popping underflows the values.
    stack.push_ctrl(ControlFrame {
        start_types: vec![],
        end_types: vec![],
        height_of_value_stack: 0,
        unreachable: false,
    });
    assert_eq!(stack.pop_val(), Err(VInstError::ValueStackUnderflow));
    // At the floor of an unreachable frame, Unknown materializes instead.
    stack.unreachable();
    assert_eq!(stack.pop_val(), Ok(StackValue::Unknown));
}

#[test]
fn stacks_type_check_pops() {
    let mut stack = generate_stack();
    stack.push_ctrl(ControlFrame {
        start_types: vec![],
        end_types: vec![ValueType::Number(NumberType::I32)],
        height_of_value_stack: 0,
        unreachable: false,
    });
    stack.push_val(StackValue::Value(ValueType::Number(NumberType::I64)));
    assert_eq!(
        stack.pop_expect_val(StackValue::Value(ValueType::Number(NumberType::I32))),
        Err(VInstError::PopValueTypeMismatch {
            expected: ValueType::Number(NumberType::I32),
            actual: ValueType::Number(NumberType::I64),
        })
    );
    // The mismatching value is gone; the frame expects an i32 that is no
    // longer there.
    assert_eq!(stack.pop_ctrl().err(), Some(VInstError::ValueStackUnderflow));
}

#[test]
fn opcode_classification() {
    assert!(Opcode::I32Const(5).is_constant());
    assert!(Opcode::RefFunc(0).is_constant());
    assert!(Opcode::GlobalGet(1).is_constant());
    assert!(!Opcode::I32Add.is_constant());
    assert!(!Opcode::LocalGet(0).is_constant());
    assert_eq!(
        Opcode::LocalTee(2).category(),
        raftik::instructions::OpcodeCategory::Variable
    );
    assert_eq!(
        Opcode::F32Const(0).category(),
        raftik::instructions::OpcodeCategory::NumericConst
    );
    assert_eq!(
        Opcode::RefIsNull.category(),
        raftik::instructions::OpcodeCategory::Reference
    );
    assert_eq!(Opcode::I32Add.category(), raftik::instructions::OpcodeCategory::Numeric);
}

#[test]
fn module_parses_every_section_kind() {
    // One module holding every decodable construct the validator accepts.
    with_wat(
        "
(module
  (type (func (param i32 i32) (result i32)))
  (import \"env\" \"tbl\" (table 1 funcref))
  (import \"env\" \"g\" (global i32))
  (func $add (type 0) local.get 0 local.get 1 i32.add)
  (memory 1 2)
  (global $g2 i64 (i64.const 7))
  (export \"add\" (func $add))
  (elem (i32.const 0) func $add)
  (data (i32.const 0) \"hi\")
)
",
        |module| {
            assert!(module.sec_by_id(SectionID::Type).is_some());
            assert!(module.sec_by_id(SectionID::Import).is_some());
            assert!(module.sec_by_id(SectionID::Function).is_some());
            assert!(module.sec_by_id(SectionID::Memory).is_some());
            assert!(module.sec_by_id(SectionID::Global).is_some());
            assert!(module.sec_by_id(SectionID::Export).is_some());
            assert!(module.sec_by_id(SectionID::Element).is_some());
            assert!(module.sec_by_id(SectionID::Code).is_some());
            assert!(module.sec_by_id(SectionID::Data).is_some());
            assert!(validate_module(&module).is_ok());
        },
    );
}
