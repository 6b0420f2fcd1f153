use spv_grammar::info::{InstructionInfo, OperandName};
use spv_grammar::keys::{
    composite_key, make_instruction_key, make_operand_base_key, make_operand_name_key,
    make_operand_parameter_key,
};
use spv_grammar::operand::{GrammarError, OperandInfo, Quantifier};
use spv_grammar::schema::{
    DocumentKind, Enumerant, Grammar, Instruction, Literal, Operand, OperandKind, Parameter,
};
use spv_grammar::table::Table;
use spv_grammar::tables::{compile_tables, Tables};
use spv_grammar::validate::{check_capacity, validate};

fn strings(names: &[&str]) -> Vec<String> {
    names.iter().map(|s| s.to_string()).collect()
}

fn operand(kind: &str, quantifier: Option<&str>, name: Option<&str>) -> Operand {
    Operand {
        kind: kind.to_string(),
        quantifier: quantifier.map(|s| s.to_string()),
        name: name.map(|s| s.to_string()),
    }
}

fn instr(name: &str, opcode: u32, operands: Option<Vec<Operand>>) -> Instruction {
    Instruction {
        opname: name.to_string(),
        class: None,
        opcode,
        operands,
        capabilities: None,
        extensions: None,
        version: None,
    }
}

fn enumerant(name: &str, value: Literal, parameters: Option<Vec<Parameter>>) -> Enumerant {
    Enumerant {
        enumerant: name.to_string(),
        value,
        capabilities: None,
        parameters,
        extensions: None,
        version: None,
    }
}

fn parameter(kind: &str, name: Option<&str>) -> Parameter {
    Parameter { kind: kind.to_string(), name: name.map(|s| s.to_string()) }
}

fn hex(text: &str) -> Literal {
    Literal::Text(text.to_string())
}

fn kind(
    category: &str,
    name: &str,
    enumerants: Option<Vec<Enumerant>>,
    bases: Option<&[&str]>,
) -> OperandKind {
    OperandKind {
        category: category.to_string(),
        kind: name.to_string(),
        enumerants,
        bases: bases.map(strings),
    }
}

fn spirv() -> Grammar {
    let mut foo_khr = instr(
        "OpFooKHR",
        12,
        Some(vec![operand("IdRef", Some("?"), None), operand("LiteralString", None, Some("'Name'\n"))]),
    );
    foo_khr.capabilities = Some(strings(&["Shader", "Kernel"]));
    foo_khr.extensions = Some(strings(&["SPV_KHR_foo"]));
    foo_khr.version = Some("1.4".to_string());
    let mut foo = instr("OpFoo", 12, Some(vec![operand("IdRef", Some("*"), None)]));
    foo.capabilities = Some(strings(&["Shader"]));
    let mut buffer = enumerant("Buffer", Literal::Integer(5), None);
    buffer.extensions = Some(strings(&["SPV_AMD_bar", "SPV_KHR_foo"]));
    Grammar {
        copyright: strings(&["Copyright (c) Someone", "All rights reserved"]),
        magic_number: Some("0x07230203".to_string()),
        major_version: Some(1),
        minor_version: Some(6),
        version: None,
        revision: 4,
        instructions: vec![
            instr("OpNop", 0, None),
            instr("OpTypeVoid", 19, Some(vec![operand("IdResult", None, None)])),
            instr(
                "OpConstantTrue",
                41,
                Some(vec![operand("IdResultType", None, None), operand("IdResult", None, None)]),
            ),
            foo_khr,
            foo,
            instr(
                "OpDecorate",
                71,
                Some(vec![operand("IdRef", None, Some("'Target'")), operand("Decoration", None, None)]),
            ),
        ],
        operand_kinds: Some(vec![
            kind(
                "BitEnum",
                "ImageOperands",
                Some(vec![
                    enumerant("None", hex("0x0000"), None),
                    enumerant("Bias", hex("0x0001"), Some(vec![parameter("IdRef", None)])),
                    enumerant(
                        "Grad",
                        hex("0x0004"),
                        Some(vec![parameter("IdRef", None), parameter("IdRef", Some("'dy'\n"))]),
                    ),
                ]),
                None,
            ),
            kind(
                "ValueEnum",
                "Dim",
                Some(vec![
                    enumerant("1D", Literal::Integer(0), None),
                    enumerant("Cube", Literal::Integer(3), None),
                    buffer,
                ]),
                None,
            ),
            kind(
                "ValueEnum",
                "Decoration",
                Some(vec![
                    enumerant("RelaxedPrecision", Literal::Integer(0), None),
                    enumerant(
                        "SpecId",
                        Literal::Integer(1),
                        Some(vec![parameter("LiteralInteger", Some("'Specialization Constant ID'"))]),
                    ),
                    enumerant("Block", Literal::Integer(2), Some(Vec::new())),
                ]),
                None,
            ),
            kind("Id", "IdResultType", None, None),
            kind("Id", "IdResult", None, None),
            kind("Id", "IdRef", None, None),
            kind("Literal", "LiteralInteger", None, None),
            kind("Literal", "LiteralString", None, None),
            kind("Composite", "PairIdRefIdRef", None, Some(&["IdRef", "IdRef"])),
        ]),
    }
}

fn extended(version: u32, instructions: Vec<Instruction>) -> Grammar {
    Grammar {
        copyright: strings(&["Copyright (c) Someone"]),
        magic_number: None,
        major_version: None,
        minor_version: None,
        version: Some(version),
        revision: 2,
        instructions,
        operand_kinds: None,
    }
}

fn glsl() -> Grammar {
    extended(
        100,
        vec![
            instr("Round", 1, Some(vec![operand("IdRef", None, Some("'x'"))])),
            instr("Trunc", 3, None),
        ],
    )
}

fn opencl() -> Grammar {
    extended(
        0,
        vec![instr("acos", 0, Some(vec![operand("IdRef", None, Some("'x'"))])), instr("acosh", 1, None)],
    )
}

fn tables() -> Tables {
    compile_tables(&spirv(), &vec![glsl(), opencl()]).unwrap()
}

fn info(kind: &str, category: &str, name: &str, quantifier: Quantifier) -> OperandInfo {
    OperandInfo {
        kind: kind.to_string(),
        category: category.to_string(),
        name: name.to_string(),
        quantifier,
    }
}

#[test]
fn composite_key_puts_the_second_component_above() {
    assert_eq!(composite_key(12, 0), 12);
    assert_eq!(composite_key(12, 1), (1u64 << 32) | 12);
    assert_eq!(composite_key(u32::MAX, u32::MAX), u64::MAX);
    assert_eq!(make_instruction_key(12, 2), (2u64 << 32) | 12);
    assert_eq!(make_operand_name_key(3, 7), (3u64 << 32) | 7);
    assert_eq!(make_operand_parameter_key(3, 7), (7u64 << 32) | 3);
    assert_eq!(make_operand_base_key(8), 8);
    assert_ne!(composite_key(1, 2), composite_key(2, 1));
}

#[test]
fn table_keeps_the_first_entry_of_a_key() {
    let mut t: Table<OperandName> = Table::new();
    let entry = |n: &str| OperandName {
        kind: "K".to_string(),
        literal: "1".to_string(),
        name: n.to_string(),
    };
    assert_eq!(t.len(), 0);
    assert!(t.get(5).is_none());
    assert!(t.insert_unique(5, entry("first")));
    assert!(t.insert_unique(9, entry("other")));
    assert!(!t.insert_unique(5, entry("second")));
    assert_eq!(t.len(), 2);
    assert_eq!(t.get(5).unwrap().name, "first");
    assert_eq!(t.get(9).unwrap().name, "other");
    assert!(t.contains(9));
    assert!(!t.contains(6));
    assert_eq!(t.key_at(0), 5);
    assert_eq!(t.key_at(1), 9);
    assert_eq!(t.value_at(1).name, "other");
}

#[test]
fn shared_opcode_has_one_entry_named_as_the_later_instruction() {
    let t = tables();
    let found = t.get_instruction_info(12, 0).unwrap();
    assert_eq!(
        found,
        &InstructionInfo {
            name: "OpFoo".to_string(),
            opcode: 12,
            namespace: 0,
            operands: vec![info("IdRef", "Id", "", Quantifier::ZeroOrMany)],
            capabilities: strings(&["Shader"]),
            extensions: Vec::new(),
            version: 0,
        }
    );
    let mut count = 0;
    for i in 0..t.instructions.len() {
        if t.instructions.value_at(i).opcode == 12 && t.instructions.value_at(i).namespace == 0 {
            count += 1;
        }
    }
    assert_eq!(count, 1);
}

#[test]
fn instruction_table_is_ordered_by_namespace_then_opcode() {
    let t = tables();
    let listed: Vec<(u32, u32, String)> = (0..t.instructions.len())
        .map(|i| {
            let v = t.instructions.value_at(i);
            (v.namespace, v.opcode, v.name.clone())
        })
        .collect();
    let expected: Vec<(u32, u32, String)> = [
        (0, 0, "OpNop"),
        (0, 12, "OpFoo"),
        (0, 19, "OpTypeVoid"),
        (0, 41, "OpConstantTrue"),
        (0, 71, "OpDecorate"),
        (1, 1, "Round"),
        (1, 3, "Trunc"),
        (2, 0, "acos"),
        (2, 1, "acosh"),
    ]
    .iter()
    .map(|(n, o, s)| (*n, *o, s.to_string()))
    .collect();
    assert_eq!(listed, expected);
    for i in 0..t.instructions.len() {
        let v = t.instructions.value_at(i);
        assert_eq!(t.instructions.key_at(i), ((v.namespace as u64) << 32) | v.opcode as u64);
    }
}

#[test]
fn equal_opcodes_of_different_namespaces_do_not_collide() {
    let t = tables();
    assert_eq!(t.get_instruction_info(0, 0).unwrap().name, "OpNop");
    assert_eq!(t.get_instruction_info(0, 2).unwrap().name, "acos");
    assert!(t.get_instruction_info(0, 1).is_none());
    assert_eq!(t.get_instruction_info(1, 1).unwrap().name, "Round");
    assert_eq!(t.get_instruction_info(1, 2).unwrap().name, "acosh");
    assert!(t.get_instruction_info(1, 0).is_none());
    assert!(t.get_instruction_info(0, 3).is_none());
    assert!(t.get_instruction_info(4000, 0).is_none());
}

#[test]
fn instruction_metadata_is_compiled_in_full() {
    let only_khr = {
        let mut g = spirv();
        g.instructions.remove(4);
        g
    };
    let t = compile_tables(&only_khr, &Vec::new()).unwrap();
    assert_eq!(
        t.get_instruction_info(12, 0).unwrap(),
        &InstructionInfo {
            name: "OpFooKHR".to_string(),
            opcode: 12,
            namespace: 0,
            operands: vec![
                info("IdRef", "Id", "", Quantifier::ZeroOrOne),
                info("LiteralString", "Literal", "'Name'", Quantifier::ExactlyOne),
            ],
            capabilities: strings(&["Shader", "Kernel"]),
            extensions: strings(&["SPV_KHR_foo"]),
            version: (1 << 16) | (4 << 8),
        }
    );
    let void = t.get_instruction_info(19, 0).unwrap();
    assert_eq!(void.operands, vec![info("IdResult", "Id", "Result", Quantifier::ExactlyOne)]);
    let constant = t.get_instruction_info(41, 0).unwrap();
    assert_eq!(constant.operands[0], info("IdResultType", "Id", "ResultType", Quantifier::ExactlyOne));
    assert_eq!(
        t.get_instruction_info(71, 0).unwrap().operands,
        vec![
            info("IdRef", "Id", "'Target'", Quantifier::ExactlyOne),
            info("Decoration", "ValueEnum", "", Quantifier::ExactlyOne),
        ]
    );
}

#[test]
fn operand_names_are_found_by_kind_and_literal() {
    let t = tables();
    assert_eq!(t.get_operand_name(0, 0).unwrap(), "None");
    assert_eq!(t.get_operand_name(0, 1).unwrap(), "Bias");
    assert_eq!(t.get_operand_name(0, 4).unwrap(), "Grad");
    assert!(t.get_operand_name(0, 2).is_none());
    assert_eq!(t.get_operand_name(1, 0).unwrap(), "Dim1D");
    assert_eq!(t.get_operand_name(1, 3).unwrap(), "Cube");
    assert_eq!(t.get_operand_name(1, 5).unwrap(), "Buffer");
    assert_eq!(t.get_operand_name(2, 1).unwrap(), "SpecId");
    assert!(t.get_operand_name(3, 0).is_none());
    assert!(t.get_operand_name(9, 0).is_none());
    assert_eq!(t.operand_names.len(), 9);
    assert_eq!(t.operand_names.value_at(1).literal, "0x0001");
    assert_eq!(t.operand_names.value_at(1).kind, "ImageOperands");
    assert_eq!(t.operand_names.value_at(4).literal, "3");
}

#[test]
fn operand_name_of_a_repeated_literal_is_the_first() {
    let mut g = spirv();
    g.operand_kinds.as_mut().unwrap()[2]
        .enumerants
        .as_mut()
        .unwrap()
        .push(enumerant("SpecIdAlias", Literal::Integer(1), None));
    let t = compile_tables(&g, &Vec::new()).unwrap();
    assert_eq!(t.get_operand_name(2, 1).unwrap(), "SpecId");
    assert_eq!(t.operand_names.len(), 9);
}

#[test]
fn operand_names_cover_enumerations_only() {
    let mut g = spirv();
    g.operand_kinds.as_mut().unwrap()[3].enumerants =
        Some(vec![enumerant("Only", Literal::Integer(0), None)]);
    let t = compile_tables(&g, &Vec::new()).unwrap();
    assert!(t.get_operand_name(3, 0).is_none());
}

#[test]
fn parameters_missing_are_not_found_and_empty_ones_are() {
    let t = tables();
    assert!(t.get_operand_parameters(0, 0).is_none());
    assert!(t.get_operand_parameters(2, 0).is_none());
    assert!(t.get_operand_parameters(1, 3).is_none());
    assert!(t.get_operand_parameters(2, 7).is_none());
    assert!(t.get_operand_parameters(5, 0).is_none());
    assert_eq!(t.get_operand_parameters(2, 2), Some(&Vec::new()));
    assert_eq!(
        t.get_operand_parameters(0, 1),
        Some(&vec![info("IdRef", "Id", "", Quantifier::ExactlyOne)])
    );
    assert_eq!(
        t.get_operand_parameters(0, 4),
        Some(&vec![
            info("IdRef", "Id", "", Quantifier::ExactlyOne),
            info("IdRef", "Id", "'dy'", Quantifier::ExactlyOne),
        ])
    );
    assert_eq!(
        t.get_operand_parameters(2, 1),
        Some(&vec![info(
            "LiteralInteger",
            "Literal",
            "'Specialization Constant ID'",
            Quantifier::ExactlyOne
        )])
    );
    assert_eq!(t.operand_parameters.len(), 4);
}

#[test]
fn bases_are_found_for_composite_kinds_only() {
    let t = tables();
    assert_eq!(
        t.get_operand_bases(8),
        Some(&vec![
            info("IdRef", "Id", "", Quantifier::ExactlyOne),
            info("IdRef", "Id", "", Quantifier::ExactlyOne),
        ])
    );
    for k in 0..8 {
        assert!(t.get_operand_bases(k).is_none());
    }
    assert!(t.get_operand_bases(9).is_none());
    assert_eq!(t.operand_bases.len(), 1);
}

#[test]
fn unknown_quantifier_is_a_fault() {
    let mut g = spirv();
    g.instructions[0].operands = Some(vec![operand("IdRef", Some("+"), None)]);
    assert_eq!(compile_tables(&g, &Vec::new()).err(), Some(GrammarError::UnknownQuantifier));
    assert_eq!(validate(&g, &Vec::new()), Err(GrammarError::UnknownQuantifier));
    let mut e = glsl();
    e.instructions[1].operands = Some(vec![operand("IdRef", Some("many"), None)]);
    assert_eq!(compile_tables(&spirv(), &vec![e]).err(), Some(GrammarError::UnknownQuantifier));
}

#[test]
fn undeclared_kind_is_a_fault() {
    let mut g = spirv();
    g.instructions[0].operands = Some(vec![operand("IdMissing", None, None)]);
    assert_eq!(compile_tables(&g, &Vec::new()).err(), Some(GrammarError::UndeclaredKind));
    let mut g = spirv();
    g.operand_kinds.as_mut().unwrap()[8].bases = Some(strings(&["IdRef", "IdMissing"]));
    assert_eq!(compile_tables(&g, &Vec::new()).err(), Some(GrammarError::UndeclaredKind));
    let mut g = spirv();
    g.operand_kinds.as_mut().unwrap()[0].enumerants.as_mut().unwrap()[1].parameters =
        Some(vec![parameter("IdMissing", None)]);
    assert_eq!(validate(&g, &Vec::new()), Err(GrammarError::UndeclaredKind));
    let mut g = spirv();
    g.operand_kinds = None;
    assert_eq!(compile_tables(&g, &Vec::new()).err(), Some(GrammarError::UndeclaredKind));
    let mut e = opencl();
    e.instructions[0].operands = Some(vec![operand("IdMissing", None, None)]);
    assert_eq!(compile_tables(&spirv(), &vec![glsl(), e]).err(), Some(GrammarError::UndeclaredKind));
}

#[test]
fn malformed_literal_is_a_fault() {
    let mut g = spirv();
    g.operand_kinds.as_mut().unwrap()[0].enumerants.as_mut().unwrap()[0].value = hex("zero");
    assert_eq!(compile_tables(&g, &Vec::new()).err(), Some(GrammarError::MalformedLiteral));
    let mut g = spirv();
    g.operand_kinds.as_mut().unwrap()[1].enumerants.as_mut().unwrap()[0].value =
        Literal::Integer(1 << 32);
    assert_eq!(validate(&g, &Vec::new()), Err(GrammarError::MalformedLiteral));
}

#[test]
fn faults_are_reported_in_order_of_precedence() {
    let mut g = spirv();
    g.operand_kinds.as_mut().unwrap()[0].enumerants.as_mut().unwrap()[0].value = hex("zero");
    g.instructions[0].operands = Some(vec![operand("IdMissing", None, None)]);
    assert_eq!(validate(&g, &Vec::new()), Err(GrammarError::UndeclaredKind));
    g.instructions[5].operands = Some(vec![operand("IdRef", Some("!"), None)]);
    assert_eq!(validate(&g, &Vec::new()), Err(GrammarError::UnknownQuantifier));
}

#[test]
fn sound_grammars_pass_validation() {
    assert_eq!(validate(&spirv(), &vec![glsl(), opencl()]), Ok(()));
    assert_eq!(validate(&spirv(), &Vec::new()), Ok(()));
}

#[test]
fn documents_are_told_apart_by_their_fields() {
    assert_eq!(spirv().document_kind(), Some(DocumentKind::Core));
    assert_eq!(glsl().document_kind(), Some(DocumentKind::Extended));
    let mut g = spirv();
    g.minor_version = None;
    assert_eq!(g.document_kind(), None);
    g.version = Some(3);
    assert_eq!(g.document_kind(), Some(DocumentKind::Extended));
    let mut both = spirv();
    both.version = Some(1);
    assert_eq!(both.document_kind(), Some(DocumentKind::Core));
}

#[test]
fn counts_beyond_a_key_component_are_a_fault() {
    assert_eq!(check_capacity(0, 0), Ok(()));
    assert_eq!(check_capacity(u32::MAX as usize, 2), Ok(()));
    assert_eq!(check_capacity(9, u32::MAX as usize - 1), Ok(()));
    assert_eq!(check_capacity(9, u32::MAX as usize), Err(GrammarError::CapacityExceeded));
    if usize::BITS > 32 {
        assert_eq!(
            check_capacity((u32::MAX as u64 + 1) as usize, 2),
            Err(GrammarError::CapacityExceeded)
        );
        assert_eq!(check_capacity(usize::MAX, usize::MAX), Err(GrammarError::CapacityExceeded));
    }
}
