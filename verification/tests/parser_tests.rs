//! Tests of the binary parser: leaf grammars, the raw module layer, and
//! whole-module decoding of assembled programs.

use raftik::instructions::{Opcode, RawExpression};
use raftik::parse_instructions::{parse_expression, parse_instruction};
use raftik::module::Module;
use raftik::parse_error::ParseError;
use raftik::parse_name::parse_name;
use raftik::parse_types::{
    parse_function_type, parse_global_type, parse_limits, parse_reference_type, parse_table_type,
    parse_value_type,
};
use raftik::raw::parse_raw_module;
use raftik::section::{
    CodeSection, Element, ElementItems, ElementKind, Export, ExportDesc, ExportSection,
    FunctionBody, FunctionSection, Global, GlobalSection, Import, ImportDesc, ImportSection,
    Locals, MemorySection, Section, SectionID, StartSection, TableSection, TypeSection,
};
use raftik::types::{
    FunctionType, GlobalType, Limits, MemoryType, Mutability, NumberType, ReferenceType, TableType,
    ValueType,
};

fn with_wat(wat: impl AsRef<str>, test: impl Fn(Module)) {
    let wasm = wat::parse_str(wat).unwrap();
    let module = Module::from_slice(&wasm).unwrap();
    test(module)
}

fn expr(bytes: &[u8]) -> RawExpression {
    RawExpression { instructions: bytes.to_vec() }
}

#[test]
fn test_parse_value_type() {
    // expected and result pairs
    let test_cases = vec![
        (0x7f, ValueType::Number(NumberType::I32)),
        (0x7e, ValueType::Number(NumberType::I64)),
        (0x7d, ValueType::Number(NumberType::F32)),
        (0x7c, ValueType::Number(NumberType::F64)),
        (0x7b, ValueType::Vector(raftik::types::VectorType::V128)),
        (0x70, ValueType::Reference(ReferenceType::FuncRef)),
        (0x6f, ValueType::Reference(ReferenceType::ExternRef)),
    ];
    for (input_byte, expected_value_type) in test_cases {
        let input = [input_byte];
        let result = parse_value_type(&input, 0);
        assert_eq!(result, Ok((expected_value_type, 1)));
    }
}

#[test]
fn test_parse_function_type() {
    let input = [0x60, 0x02, 0x7f, 0x7e, 0x01, 0x7d];
    let expected = FunctionType {
        params: vec![ValueType::Number(NumberType::I32), ValueType::Number(NumberType::I64)],
        results: vec![ValueType::Number(NumberType::F32)],
    };
    let result = parse_function_type(&input, 0);
    assert_eq!(result, Ok((expected, 6)));
}

#[test]
fn test_parse_reference_type() {
    let test_cases = vec![(0x70, ReferenceType::FuncRef), (0x6f, ReferenceType::ExternRef)];
    for (input_byte, expected_ref_type) in test_cases {
        let input = [input_byte];
        let result = parse_reference_type(&input, 0);
        assert_eq!(result, Ok((expected_ref_type, 1)));
    }
}

#[test]
fn test_parse_limits() {
    let input1 = [0x00, 0x01];
    let expected1 = Limits { min: 1, max: None };
    let result1 = parse_limits(&input1, 0);
    assert_eq!(result1, Ok((expected1, 2)));

    let input2 = [0x01, 0x02, 0x03];
    let expected2 = Limits { min: 2, max: Some(3) };
    let result2 = parse_limits(&input2, 0);
    assert_eq!(result2, Ok((expected2, 3)));
}

#[test]
fn test_parse_limits_fails() {
    let input1 = [0x02, 0x01]; // Invalid tag for limits
    let result1 = parse_limits(&input1, 0);
    assert!(result1.is_err());
}

#[test]
fn test_parse_table_type() {
    let input = [0x70, 0x00, 0x01];
    let expected = TableType {
        ref_type: ReferenceType::FuncRef,
        limits: Limits { min: 1, max: None },
    };
    let result = parse_table_type(&input, 0);
    assert_eq!(result, Ok((expected, 3)));
}

#[test]
fn test_parse_global_type() {
    let input = [0x7f, 0x01]; // I32 with Var mutability
    let expected = GlobalType {
        val_type: ValueType::Number(NumberType::I32),
        mutability: Mutability::Var,
    };
    let result = parse_global_type(&input, 0);
    assert_eq!(result, Ok((expected, 2)));
}

#[test]
fn test_parse_name() {
    let input = [0x05, b'H', b'e', b'l', b'l', b'o', b'W', b'o', b'r', b'l', b'd'];
    let result = parse_name(&input, 0);
    assert_eq!(result, Ok(("Hello".to_string(), 6)));
}

#[test]
fn test_parse_name_incomplete() {
    let input = [0x05, b'H', b'e', b'l', b'l'];
    let result = parse_name(&input, 0);
    assert!(result.is_err(), "Expected error for incomplete name");
}

#[test]
fn raw_module_test_minimal_wasm() {
    let wasm = wat::parse_str("(module)").unwrap();
    let module = parse_raw_module(wasm.as_ref()).unwrap();
    assert_eq!(module.magic, [0x00, 0x61, 0x73, 0x6d]);
    assert_eq!(module.version, 1);
    assert_eq!(module.sections.len(), 0);
}

#[test]
fn module_test_minimal_wasm() {
    let wasm = wat::parse_str("(module)").unwrap();
    let module = parse_raw_module(wasm.as_ref()).unwrap();
    assert_eq!(module.magic, [0x00, 0x61, 0x73, 0x6d]);
    assert_eq!(module.version, 1);
}

#[test]
fn test_module_with_only_type_section() {
    let wasm = wat::parse_str(
        "(module
            (type (func))
        )",
    )
    .unwrap();
    let module = parse_raw_module(wasm.as_ref()).unwrap();
    assert_eq!(module.magic, [0x00, 0x61, 0x73, 0x6d]);
    assert_eq!(module.version, 1);
    assert_eq!(module.sections.len(), 1);
    assert_eq!(module.sections[0].header.id, SectionID::Type);
    assert_eq!(module.sections[0].header.payload_length, 4);
}

#[test]
fn test_module_try_from_short_data() {
    let data: &[u8] = &[0x4d, 0x4f];
    let result = Module::from_slice(data);
    assert!(result.is_err());
}

#[test]
fn raw_module_test_module_try_from_short_data() {
    let data: &[u8] = &[0x4d, 0x4f];
    let result = parse_raw_module(data);
    assert!(result.is_err());
}

#[test]
fn parser_test_minimal_wasm() {
    with_wat("(module)", |module| assert_eq!(module, Module::default()));
}

#[test]
fn test_wasm_with_type_section() {
    with_wat("(module (type (func (param i32 i32) (result i64))))", |module| {
        assert_eq!(
            module,
            Module {
                sections: vec![Section::Type(TypeSection {
                    types: vec![FunctionType {
                        params: vec![
                            ValueType::Number(NumberType::I32),
                            ValueType::Number(NumberType::I32)
                        ],
                        results: vec![ValueType::Number(NumberType::I64)]
                    }]
                })]
            }
        )
    });
}

#[test]
fn test_wasm_with_import_section() {
    with_wat("(module (import \"console\" \"log\" (func $log (param i32))))", |module| {
        // type section and import section exists.
        assert_eq!(module.sections.len(), 3);
        assert_eq!(
            module.sections[0],
            Section::Type(TypeSection {
                types: vec![FunctionType {
                    params: vec![ValueType::Number(NumberType::I32)],
                    results: vec![]
                }]
            })
        );
        assert_eq!(
            module.sections[1],
            Section::Import(ImportSection {
                imports: vec![Import {
                    module: "console".to_string(),
                    name: "log".to_string(),
                    desc: ImportDesc::TypeIndex(0)
                }]
            })
        )
    });
}

#[test]
fn test_wasm_with_function_section() {
    with_wat("(module (func (param $l i32) (result i32) local.get $l))", |module| {
        assert_eq!(module.sections.len(), 4);
        assert_eq!(
            module.sections[0],
            Section::Type(TypeSection {
                types: vec![FunctionType {
                    params: vec![ValueType::Number(NumberType::I32)],
                    results: vec![ValueType::Number(NumberType::I32)]
                }]
            })
        );
        assert_eq!(
            module.sections[1],
            Section::Function(FunctionSection { type_indices: vec![0] })
        );
    });
}

#[test]
fn test_wasm_with_table_section() {
    with_wat("(module (table 1 10 funcref))", |module| {
        assert_eq!(module.sections.len(), 1);
        assert_eq!(
            module.sections[0],
            Section::Table(TableSection {
                tables: vec![TableType {
                    ref_type: ReferenceType::FuncRef,
                    limits: Limits { min: 1, max: Some(10) }
                }]
            })
        );
    });
}

#[test]
fn test_wasm_with_memory_section() {
    with_wat("(module (memory 100))", |module| {
        assert_eq!(module.sections.len(), 1);
        assert_eq!(
            module.sections[0],
            Section::Memory(MemorySection {
                memories: vec![MemoryType { limits: Limits { min: 100, max: None } }]
            })
        );
    });
}

#[test]
fn test_wasm_with_global_section() {
    with_wat("(module (global i32 (i32.const 32)))", |module| {
        assert_eq!(module.sections.len(), 1);
        assert_eq!(
            module.sections[0],
            Section::Global(GlobalSection {
                globals: vec![Global {
                    global_type: GlobalType {
                        val_type: ValueType::Number(NumberType::I32),
                        mutability: Mutability::Const,
                    },
                    expression: expr(&[0x41, 0x20])
                }]
            })
        );
    });
}

#[test]
fn test_wasm_with_export_section() {
    with_wat("(module (func (export \"the_answer\") (result i32) i32.const 42))", |module| {
        assert_eq!(module.sections.len(), 4); // Type, Function, Export, Code
        assert_eq!(module.sections[0].id(), SectionID::Type);
        assert_eq!(module.sections[1].id(), SectionID::Function);
        assert_eq!(
            module.sections[2],
            Section::Export(ExportSection {
                exports: vec![Export {
                    name: "the_answer".to_string(),
                    desc: ExportDesc::FunctionIndex(0),
                }]
            })
        );
    });
}

#[test]
fn test_wasm_with_start_section() {
    with_wat("(module (func) (start 0))", |module| {
        assert_eq!(module.sections.len(), 4); // Type, Function, Start, Code
        assert_eq!(module.sections[0].id(), SectionID::Type);
        assert_eq!(module.sections[1].id(), SectionID::Function);
        assert_eq!(
            module.sections[2],
            Section::Start(StartSection { start_function_index: 0 })
        );
    });
}

#[test]
fn test_wasm_with_element_section_0() {
    with_wat("(module (table 1 funcref) (func $f0) (elem (i32.const 0) func $f0))", |module| {
        let section = module.sec_by_id(SectionID::Element).unwrap();
        assert_eq!(
            *section,
            Section::Element(raftik::section::ElementSection {
                elements: vec![Element {
                    kind: ElementKind::Active {
                        table_index: None,
                        offset_expression: expr(&[0x41, 0x00])
                    },
                    items: ElementItems::Functions(vec![0])
                }],
            })
        );
    })
}

#[test]
fn test_wasm_with_element_section_1() {
    with_wat("(module (func $f0) (elem func $f0))", |module| {
        let section = module.sec_by_id(SectionID::Element).unwrap();
        assert_eq!(
            *section,
            Section::Element(raftik::section::ElementSection {
                elements: vec![Element {
                    kind: ElementKind::Passive,
                    items: ElementItems::Functions(vec![0])
                }],
            })
        );
    });
}

#[test]
fn test_wasm_with_element_section_2() {
    with_wat(
        "(module  (table $t0 1 funcref) (table $t1 1 funcref) (func $f0) (elem 1 (i32.const 0) func $f0))",
        |module| {
            let section = module.sec_by_id(SectionID::Element).unwrap();
            assert_eq!(
                *section,
                Section::Element(raftik::section::ElementSection {
                    elements: vec![Element {
                        kind: ElementKind::Active {
                            table_index: Some(1),
                            offset_expression: expr(&[0x41, 0x00])
                        },
                        items: ElementItems::Functions(vec![0])
                    }],
                })
            );
        },
    );
}

#[test]
fn test_wasm_with_element_section_3() {
    with_wat("(module (func $f0) (elem declare func $f0))", |module| {
        let section = module.sec_by_id(SectionID::Element).unwrap();
        assert_eq!(
            *section,
            Section::Element(raftik::section::ElementSection {
                elements: vec![Element {
                    kind: ElementKind::Declarative,
                    items: ElementItems::Functions(vec![0])
                }],
            })
        );
    });
}

#[test]
fn test_wasm_with_element_section_4() {
    with_wat(
        "(module (table 1 funcref) (func $f0) (func) (elem (i32.const 0) funcref (ref.func 0)))",
        |module| {
            let section = module.sec_by_id(SectionID::Element).unwrap();
            assert_eq!(
                *section,
                Section::Element(raftik::section::ElementSection {
                    elements: vec![Element {
                        kind: ElementKind::Active {
                            table_index: None,
                            offset_expression: expr(&[0x41, 0x00])
                        },
                        items: ElementItems::Expressions(
                            ReferenceType::FuncRef,
                            vec![expr(&[0xd2, 0])]
                        ),
                    }],
                })
            );
        },
    )
}

#[test]
fn test_wasm_with_element_section_5() {
    with_wat("(module (func $f0) (elem funcref (ref.func 0)))", |module| {
        let section = module.sec_by_id(SectionID::Element).unwrap();
        assert_eq!(
            *section,
            Section::Element(raftik::section::ElementSection {
                elements: vec![Element {
                    kind: ElementKind::Passive,
                    items: ElementItems::Expressions(
                        ReferenceType::FuncRef,
                        vec![expr(&[0xd2, 0])]
                    ),
                }],
            })
        );
    });
}

#[test]
fn test_wasm_with_element_section_6() {
    with_wat(
        "(module  (table $t0 1 funcref) (table $t1 1 funcref) (func $f0) (elem 1 (i32.const 0) funcref (ref.func 0)))",
        |module| {
            let section = module.sec_by_id(SectionID::Element).unwrap();
            assert_eq!(
                *section,
                Section::Element(raftik::section::ElementSection {
                    elements: vec![Element {
                        kind: ElementKind::Active {
                            table_index: Some(1),
                            offset_expression: expr(&[0x41, 0x00])
                        },
                        items: ElementItems::Expressions(
                            ReferenceType::FuncRef,
                            vec![expr(&[0xd2, 0])]
                        ),
                    }],
                })
            );
        },
    );
}

#[test]
fn test_wasm_with_element_section_7() {
    with_wat("(module (func $f0) (elem declare funcref (ref.func 0)))", |module| {
        let section = module.sec_by_id(SectionID::Element).unwrap();
        assert_eq!(
            *section,
            Section::Element(raftik::section::ElementSection {
                elements: vec![Element {
                    kind: ElementKind::Declarative,
                    items: ElementItems::Expressions(
                        ReferenceType::FuncRef,
                        vec![expr(&[0xd2, 0])]
                    ),
                }],
            })
        );
    });
}

#[test]
fn test_wasm_with_code_section() {
    with_wat(
        "(module (func (param i32) (param i32) (result i32) (local f64) (local f64) local.get 0 local.get 1 i32.add))",
        |module| {
            let section = module.sec_by_id(SectionID::Code).unwrap();
            assert_eq!(
                *section,
                Section::Code(CodeSection {
                    code: vec![FunctionBody {
                        locals: vec![Locals {
                            count: 2,
                            value_type: ValueType::Number(NumberType::F64)
                        }],
                        expression: expr(&[0x20, 0, 0x20, 1, 0x6a])
                    }]
                })
            );
        },
    );
}

#[test]
fn parse_rejects_bad_magic() {
    let data = [0x00, 0x61, 0x73, 0x00, 0x01, 0x00, 0x00, 0x00];
    assert_eq!(Module::from_slice(&data), Err(ParseError::MagicMismatch));
}

#[test]
fn parse_rejects_bad_version() {
    let data = [0x00, 0x61, 0x73, 0x6d, 0x02, 0x00, 0x00, 0x00];
    assert_eq!(Module::from_slice(&data), Err(ParseError::VersionMismatch));
}

#[test]
fn parse_rejects_truncations_of_minimal_module() {
    let wasm = wat::parse_str("(module)").unwrap();
    assert_eq!(wasm.len(), 8);
    for n in 0..wasm.len() {
        assert!(Module::from_slice(&wasm[..n]).is_err(), "prefix of {} bytes parsed", n);
    }
}

#[test]
fn parse_rejects_truncation_inside_section() {
    let wasm = wat::parse_str(
        "(module (func $add (param i32 i32) (result i32) local.get 0 local.get 1 i32.add) (export \"add\" (func $add)))",
    )
    .unwrap();
    assert!(Module::from_slice(&wasm).is_ok());
    // Cut in the middle of the last section's payload.
    assert!(Module::from_slice(&wasm[..wasm.len() - 1]).is_err());
}

#[test]
fn parse_rejects_sections_out_of_order() {
    // Memory (5) before table (4).
    let data = [
        0x00, 0x61, 0x73, 0x6d, 0x01, 0x00, 0x00, 0x00, // header
        0x05, 0x03, 0x01, 0x00, 0x01, // memory section: one memory, min 1
        0x04, 0x04, 0x01, 0x70, 0x00, 0x01, // table section: one funcref table, min 1
    ];
    assert_eq!(Module::from_slice(&data), Err(ParseError::SectionsOutOfOrder(5, 4)));
}

#[test]
fn parse_rejects_repeated_section_id() {
    // Two type sections, each empty.
    let data = [
        0x00, 0x61, 0x73, 0x6d, 0x01, 0x00, 0x00, 0x00, // header
        0x01, 0x01, 0x00, // type section, zero entries
        0x01, 0x01, 0x00, // type section again
    ];
    assert_eq!(Module::from_slice(&data), Err(ParseError::SectionsOutOfOrder(1, 1)));
}

#[test]
fn parse_accepts_custom_sections_anywhere() {
    // Custom (0) between and after non-custom sections.
    let data = [
        0x00, 0x61, 0x73, 0x6d, 0x01, 0x00, 0x00, 0x00, // header
        0x01, 0x01, 0x00, // type section, zero entries
        0x00, 0x02, 0x01, b'x', // custom section named "x", empty payload
        0x05, 0x03, 0x01, 0x00, 0x01, // memory section
        0x00, 0x02, 0x01, b'y', // custom section named "y"
    ];
    let module = Module::from_slice(&data).unwrap();
    assert_eq!(module.sections.len(), 4);
    assert_eq!(module.sections[1].id(), SectionID::Custom);
}

#[test]
fn parse_error_inputs() {
    let h = [0x00u8, 0x61, 0x73, 0x6d, 0x01, 0x00, 0x00, 0x00];
    let cat = |tail: &[u8]| {
        let mut v = h.to_vec();
        v.extend_from_slice(tail);
        v
    };
    // Unknown section identifier.
    assert_eq!(Module::from_slice(&cat(&[0x0d, 0x00])), Err(ParseError::InvalidSectionId(0x0d)));
    // Section payload length runs past the input.
    assert_eq!(Module::from_slice(&cat(&[0x01, 0x05, 0x00])), Err(ParseError::UnexpectedEof));
    // An unsigned count that overflows 32 bits.
    assert_eq!(
        Module::from_slice(&cat(&[0x01, 0x06, 0x90, 0x80, 0x80, 0x80, 0x80, 0x00])),
        Err(ParseError::IntegerOverflow)
    );
    // A count cut short mid-integer.
    assert_eq!(
        Module::from_slice(&cat(&[0x01, 0x01, 0x80])),
        Err(ParseError::IntegerUnterminated)
    );
    // A bad value type inside a function type.
    assert_eq!(
        Module::from_slice(&cat(&[0x01, 0x05, 0x01, 0x60, 0x01, 0x55, 0x00])),
        Err(ParseError::InvalidValueType(0x55))
    );
    // A function type without its 0x60 tag.
    assert_eq!(
        Module::from_slice(&cat(&[0x01, 0x04, 0x01, 0x61, 0x00, 0x00])),
        Err(ParseError::InvalidFunctionTypeTag(0x61))
    );
    // A bad reference type in a table.
    assert_eq!(
        Module::from_slice(&cat(&[0x04, 0x04, 0x01, 0x71, 0x00, 0x01])),
        Err(ParseError::InvalidReferenceType(0x71))
    );
    // A bad limits flag in a memory.
    assert_eq!(
        Module::from_slice(&cat(&[0x05, 0x03, 0x01, 0x02, 0x01])),
        Err(ParseError::InvalidLimitsFlag(0x02))
    );
    // A bad mutability flag in a global.
    assert_eq!(
        Module::from_slice(&cat(&[0x06, 0x05, 0x01, 0x7f, 0x02, 0x41, 0x0b])),
        Err(ParseError::InvalidMutability(0x02))
    );
    // A global initializer without an end opcode.
    assert_eq!(
        Module::from_slice(&cat(&[0x06, 0x05, 0x01, 0x7f, 0x00, 0x41, 0x00])),
        Err(ParseError::MissingEndOpcode)
    );
    // A bad import description tag.
    assert_eq!(
        Module::from_slice(&cat(&[0x02, 0x06, 0x01, 0x01, b'a', 0x01, b'b', 0x04])),
        Err(ParseError::InvalidImportDescTag(0x04))
    );
    // A bad export description tag.
    assert_eq!(
        Module::from_slice(&cat(&[0x07, 0x05, 0x01, 0x01, b'a', 0x04, 0x00])),
        Err(ParseError::InvalidExportDescTag(0x04))
    );
    // A bad data segment mode.
    assert_eq!(
        Module::from_slice(&cat(&[0x0b, 0x02, 0x01, 0x03])),
        Err(ParseError::InvalidDataModeFlag(3))
    );
    // A missing element-kind byte under a nonzero element flag.
    assert_eq!(
        Module::from_slice(&cat(&[0x09, 0x07, 0x01, 0x02, 0x00, 0x41, 0x00, 0x0b, 0x05])),
        Err(ParseError::InvalidElementKind(0x05))
    );
    // An import name that is not UTF-8.
    assert_eq!(
        Module::from_slice(&cat(&[0x02, 0x07, 0x01, 0x01, 0xff, 0x01, b'b', 0x00, 0x00])),
        Err(ParseError::InvalidUtf8)
    );
    // A section whose payload is not consumed in full.
    assert_eq!(
        Module::from_slice(&cat(&[0x01, 0x02, 0x00, 0x00])),
        Err(ParseError::SectionTrailingBytes(SectionID::Type))
    );
    // A code body whose declared size exceeds its contents.
    assert_eq!(
        Module::from_slice(&cat(&[0x0a, 0x06, 0x01, 0x04, 0x00, 0x0b, 0x00, 0x00])),
        Err(ParseError::BodyTrailingBytes)
    );
}

#[test]
fn parse_name_decodes_multibyte_utf8() {
    // An import whose field name holds a two-byte character.
    let h = [0x00u8, 0x61, 0x73, 0x6d, 0x01, 0x00, 0x00, 0x00];
    let mut v = h.to_vec();
    v.extend_from_slice(&[
        0x02, 0x08, 0x01, // import section, one import
        0x01, b'm', // module "m"
        0x02, 0xc3, 0xa9, // name: two UTF-8 bytes
        0x00, 0x00, // function import, type index 0
    ]);
    let mut data = h.to_vec();
    data.extend_from_slice(&[0x01, 0x04, 0x01, 0x60, 0x00, 0x00]);
    data.extend_from_slice(&v[8..]);
    let module = Module::from_slice(&data).unwrap();
    match &module.sections[1] {
        Section::Import(s) => {
            assert_eq!(s.imports[0].module, "m");
            assert_eq!(s.imports[0].name, "\u{e9}");
        },
        _ => unreachable!("expected an import section"),
    }
}

#[test]
fn parse_data_count_section() {
    let mut data = [0x00u8, 0x61, 0x73, 0x6d, 0x01, 0x00, 0x00, 0x00].to_vec();
    data.extend_from_slice(&[0x0c, 0x01, 0x03]); // data count section: 3
    let module = Module::from_slice(&data).unwrap();
    assert_eq!(module.sections.len(), 1);
    assert_eq!(
        module.sections[0],
        Section::DataCount(raftik::section::DataCountSection { count: 3 })
    );
}

#[test]
fn parse_instruction_decodes_each_opcode() {
    let cases: Vec<(&[u8], Opcode, usize)> = vec![
        (&[0x20, 0x05], Opcode::LocalGet(5), 2),
        (&[0x21, 0x00], Opcode::LocalSet(0), 2),
        (&[0x22, 0x01], Opcode::LocalTee(1), 2),
        (&[0x23, 0x02], Opcode::GlobalGet(2), 2),
        (&[0x24, 0x03], Opcode::GlobalSet(3), 2),
        (&[0x41, 0x7f], Opcode::I32Const(-1), 2),
        (&[0x42, 0xc0, 0xbb, 0x78], Opcode::I64Const(-123456), 4),
        (&[0x43, 0x01, 0x02, 0x03, 0x04], Opcode::F32Const(0x04030201), 5),
        (
            &[0x44, 0x01, 0x02, 0x03, 0x04, 0x05, 0x06, 0x07, 0x08],
            Opcode::F64Const(0x0807060504030201),
            9,
        ),
        (&[0xd0, 0x70], Opcode::RefNull(ReferenceType::FuncRef), 2),
        (&[0xd1], Opcode::RefIsNull, 1),
        (&[0xd2, 0x00], Opcode::RefFunc(0), 2),
        (&[0x6a], Opcode::I32Add, 1),
    ];
    for (bytes, op, used) in cases {
        assert_eq!(parse_instruction(bytes, 0), Ok((op, used)));
    }
    assert_eq!(
        parse_instruction(&[0x01], 0),
        Err(ParseError::UnknownOpcode(0x01))
    );
}

#[test]
fn parse_expression_stops_at_first_end_opcode() {
    let input = [0x41, 0x2a, 0x0b, 0x41, 0x00, 0x0b];
    let (e, p) = parse_expression(&input, 0).unwrap();
    assert_eq!(e, expr(&[0x41, 0x2a]));
    assert_eq!(p, 3);
    let (e2, p2) = parse_expression(&input, p).unwrap();
    assert_eq!(e2, expr(&[0x41, 0x00]));
    assert_eq!(p2, 6);
    // Without an end opcode the expression never terminates.
    assert_eq!(parse_expression(&[0x41, 0x2a], 0), Err(ParseError::MissingEndOpcode));
}
