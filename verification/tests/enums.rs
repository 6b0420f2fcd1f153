use spv_grammar::classify::{
    canonical_of, classify_opcode, default_of, has_operand, holds, list_exceptions, Predicate,
};
use spv_grammar::canon::canonical_instructions;
use spv_grammar::enums::{
    build_kind_enums, build_mask_enum, build_shift_enum, build_value_enum, emit_enum, emit_enums,
    EnumDecl, EnumEntry,
};
use spv_grammar::schema::{Enumerant, Grammar, Instruction, Literal, Operand, OperandKind, Parameter};
use spv_grammar::symbol::{mask_symbol_string, symbol_string};

fn strings(names: &[&str]) -> Vec<String> {
    names.iter().map(|s| s.to_string()).collect()
}

fn operand(kind: &str, quantifier: Option<&str>, name: Option<&str>) -> Operand {
    Operand {
        kind: kind.to_string(),
        quantifier: quantifier.map(|s| s.to_string()),
        name: name.map(|s| s.to_string()),
    }
}

fn instr(name: &str, opcode: u32, operands: Option<Vec<Operand>>) -> Instruction {
    Instruction {
        opname: name.to_string(),
        class: None,
        opcode,
        operands,
        capabilities: None,
        extensions: None,
        version: None,
    }
}

fn enumerant(name: &str, value: Literal, parameters: Option<Vec<Parameter>>) -> Enumerant {
    Enumerant {
        enumerant: name.to_string(),
        value,
        capabilities: None,
        parameters,
        extensions: None,
        version: None,
    }
}

fn parameter(kind: &str, name: Option<&str>) -> Parameter {
    Parameter { kind: kind.to_string(), name: name.map(|s| s.to_string()) }
}

fn hex(text: &str) -> Literal {
    Literal::Text(text.to_string())
}

fn kind(
    category: &str,
    name: &str,
    enumerants: Option<Vec<Enumerant>>,
    bases: Option<&[&str]>,
) -> OperandKind {
    OperandKind {
        category: category.to_string(),
        kind: name.to_string(),
        enumerants,
        bases: bases.map(strings),
    }
}

fn spirv() -> Grammar {
    let mut foo_khr = instr(
        "OpFooKHR",
        12,
        Some(vec![operand("IdRef", Some("?"), None), operand("LiteralString", None, Some("'Name'\n"))]),
    );
    foo_khr.capabilities = Some(strings(&["Shader", "Kernel"]));
    foo_khr.extensions = Some(strings(&["SPV_KHR_foo"]));
    foo_khr.version = Some("1.4".to_string());
    let mut foo = instr("OpFoo", 12, Some(vec![operand("IdRef", Some("*"), None)]));
    foo.capabilities = Some(strings(&["Shader"]));
    let mut buffer = enumerant("Buffer", Literal::Integer(5), None);
    buffer.extensions = Some(strings(&["SPV_AMD_bar", "SPV_KHR_foo"]));
    Grammar {
        copyright: strings(&["Copyright (c) Someone", "All rights reserved"]),
        magic_number: Some("0x07230203".to_string()),
        major_version: Some(1),
        minor_version: Some(6),
        version: None,
        revision: 4,
        instructions: vec![
            instr("OpNop", 0, None),
            instr("OpTypeVoid", 19, Some(vec![operand("IdResult", None, None)])),
            instr(
                "OpConstantTrue",
                41,
                Some(vec![operand("IdResultType", None, None), operand("IdResult", None, None)]),
            ),
            foo_khr,
            foo,
            instr(
                "OpDecorate",
                71,
                Some(vec![operand("IdRef", None, Some("'Target'")), operand("Decoration", None, None)]),
            ),
        ],
        operand_kinds: Some(vec![
            kind(
                "BitEnum",
                "ImageOperands",
                Some(vec![
                    enumerant("None", hex("0x0000"), None),
                    enumerant("Bias", hex("0x0001"), Some(vec![parameter("IdRef", None)])),
                    enumerant(
                        "Grad",
                        hex("0x0004"),
                        Some(vec![parameter("IdRef", None), parameter("IdRef", Some("'dy'\n"))]),
                    ),
                ]),
                None,
            ),
            kind(
                "ValueEnum",
                "Dim",
                Some(vec![
                    enumerant("1D", Literal::Integer(0), None),
                    enumerant("Cube", Literal::Integer(3), None),
                    buffer,
                ]),
                None,
            ),
            kind(
                "ValueEnum",
                "Decoration",
                Some(vec![
                    enumerant("RelaxedPrecision", Literal::Integer(0), None),
                    enumerant(
                        "SpecId",
                        Literal::Integer(1),
                        Some(vec![parameter("LiteralInteger", Some("'Specialization Constant ID'"))]),
                    ),
                    enumerant("Block", Literal::Integer(2), Some(Vec::new())),
                ]),
                None,
            ),
            kind("Id", "IdResultType", None, None),
            kind("Id", "IdResult", None, None),
            kind("Id", "IdRef", None, None),
            kind("Literal", "LiteralInteger", None, None),
            kind("Literal", "LiteralString", None, None),
            kind("Composite", "PairIdRefIdRef", None, Some(&["IdRef", "IdRef"])),
        ]),
    }
}

fn extended(version: u32, instructions: Vec<Instruction>) -> Grammar {
    Grammar {
        copyright: strings(&["Copyright (c) Someone"]),
        magic_number: None,
        major_version: None,
        minor_version: None,
        version: Some(version),
        revision: 2,
        instructions,
        operand_kinds: None,
    }
}

fn glsl() -> Grammar {
    extended(
        100,
        vec![
            instr("Round", 1, Some(vec![operand("IdRef", None, Some("'x'"))])),
            instr("Trunc", 3, None),
        ],
    )
}

fn opencl() -> Grammar {
    extended(
        0,
        vec![instr("acos", 0, Some(vec![operand("IdRef", None, Some("'x'"))])), instr("acosh", 1, None)],
    )
}

fn entries(list: &[(&str, &str)]) -> Vec<EnumEntry> {
    list.iter()
        .map(|(s, v)| EnumEntry { symbol: s.to_string(), value: v.to_string() })
        .collect()
}

fn flags() -> OperandKind {
    kind(
        "BitEnum",
        "Flags",
        Some(vec![
            enumerant("None", Literal::Integer(0), None),
            enumerant("Flag0", Literal::Integer(1), None),
            enumerant("Flag1", Literal::Integer(2), None),
            enumerant("Flag2", Literal::Integer(4), None),
        ]),
        None,
    )
}

#[test]
fn bit_enum_gives_a_mask_and_a_shift_enumeration() {
    let ds = build_kind_enums(&flags());
    assert_eq!(ds.len(), 2);
    assert_eq!(
        ds[0],
        EnumDecl {
            name: "FlagsMask".to_string(),
            entries: entries(&[("MaskNone", "0"), ("Flag0", "1"), ("Flag1", "2"), ("Flag2", "4")]),
            sentinel: false,
        }
    );
    assert_eq!(ds[1].name, "FlagsShift");
    assert_eq!(ds[1].entries[..3], entries(&[("None", "0"), ("Flag0", "1"), ("Flag1", "2")])[..]);
    assert_eq!(ds[1].entries[3], EnumEntry { symbol: "Flag2".to_string(), value: "3".to_string() });
    assert_eq!(ds[1].entries.len(), 4);
    assert!(ds[1].sentinel);
}

#[test]
fn shift_indices_follow_declaration_order_not_bit_patterns() {
    let es = vec![
        enumerant("High", hex("0x8000"), None),
        enumerant("None", hex("0x0000"), None),
        enumerant("Low", hex("0x0001"), None),
    ];
    assert_eq!(
        build_shift_enum("K", &es).entries,
        entries(&[("High", "0"), ("None", "1"), ("Low", "2")])
    );
    assert_eq!(
        build_mask_enum("K", &es).entries,
        entries(&[("High", "0x8000"), ("MaskNone", "0x0000"), ("Low", "0x0001")])
    );
}

#[test]
fn mask_prefix_goes_by_the_value() {
    assert_eq!(mask_symbol_string("None", &Literal::Integer(0)), "MaskNone");
    assert_eq!(mask_symbol_string("None", &hex("0x0000")), "MaskNone");
    assert_eq!(mask_symbol_string("NoneKHR", &hex("0x0000")), "MaskNoneKHR");
    assert_eq!(mask_symbol_string("None", &hex("0x0001")), "None");
    assert_eq!(mask_symbol_string("Bias", &hex("0x0001")), "Bias");
    assert_eq!(mask_symbol_string("Odd", &hex("nothing")), "Odd");
}

#[test]
fn dimensionality_names_of_two_characters_get_the_kind_in_front() {
    assert_eq!(symbol_string("Dim", "1D"), "Dim1D");
    assert_eq!(symbol_string("Dim", "2D"), "Dim2D");
    assert_eq!(symbol_string("Dim", "Cube"), "Cube");
    assert_eq!(symbol_string("Dim", "D"), "D");
    assert_eq!(symbol_string("Dim", "\u{e9}D"), "Dim\u{e9}D");
    assert_eq!(symbol_string("Dimension", "1D"), "1D");
    assert_eq!(symbol_string("Scope", "1D"), "1D");
}

#[test]
fn value_enum_gives_one_flat_enumeration_with_a_sentinel() {
    let g = spirv();
    let ds = build_kind_enums(&g.operand_kinds.as_ref().unwrap()[1]);
    assert_eq!(
        ds,
        vec![EnumDecl {
            name: "Dim".to_string(),
            entries: entries(&[("Dim1D", "0"), ("Cube", "3"), ("Buffer", "5")]),
            sentinel: true,
        }]
    );
    assert_eq!(build_value_enum("E", &Vec::new()).entries, Vec::new());
}

#[test]
fn kinds_without_enumerants_give_no_enumeration() {
    assert_eq!(build_kind_enums(&kind("Id", "IdRef", None, None)), Vec::new());
    let other = kind("Literal", "L", Some(vec![enumerant("None", Literal::Integer(0), None)]), None);
    assert_eq!(build_kind_enums(&other)[0].entries, entries(&[("None", "0")]));
    assert_eq!(build_kind_enums(&other).len(), 1);
}

#[test]
fn enumeration_lines_are_exact() {
    let ds = build_kind_enums(&flags());
    let mut out = vec!["before".to_string()];
    emit_enums(&mut out, &ds);
    assert_eq!(
        out,
        strings(&[
            "before",
            "\tenum class FlagsMask : unsigned",
            "\t{",
            "\t\tMaskNone = 0,",
            "\t\tFlag0 = 1,",
            "\t\tFlag1 = 2,",
            "\t\tFlag2 = 4,",
            "\t};",
            "\tenum class FlagsShift : unsigned",
            "\t{",
            "\t\tNone = 0,",
            "\t\tFlag0 = 1,",
            "\t\tFlag1 = 2,",
            "\t\tFlag2 = 3,",
            "\t\tMax = 0x7fffffff",
            "\t};",
        ])
    );
    let mut single = Vec::new();
    emit_enum(&mut single, &EnumDecl { name: "E".to_string(), entries: Vec::new(), sentinel: true });
    assert_eq!(single, strings(&["\tenum class E : unsigned", "\t{", "\t\tMax = 0x7fffffff", "\t};"]));
}

#[test]
fn predicates_go_by_the_canonical_instruction() {
    let g = spirv();
    let i = &g.instructions;
    assert!(!classify_opcode(Predicate::HasResult, i, 0));
    assert!(classify_opcode(Predicate::HasResult, i, 19));
    assert!(!classify_opcode(Predicate::HasResultType, i, 19));
    assert!(classify_opcode(Predicate::HasResultType, i, 41));
    assert!(classify_opcode(Predicate::IsTypeOp, i, 19));
    assert!(!classify_opcode(Predicate::IsTypeOp, i, 41));
    assert!(classify_opcode(Predicate::IsConstantOp, i, 41));
    assert!(!classify_opcode(Predicate::IsSpecConstantOp, i, 41));
    assert!(!classify_opcode(Predicate::HasResult, i, 12));
    assert_eq!(canonical_of(i, 12), Some(4));
    assert_eq!(canonical_of(i, 13), None);
}

#[test]
fn predicates_have_defaults_for_unknown_opcodes() {
    let g = spirv();
    let i = &g.instructions;
    assert!(classify_opcode(Predicate::HasResult, i, 9999));
    assert!(classify_opcode(Predicate::HasResultType, i, 9999));
    assert!(!classify_opcode(Predicate::IsTypeOp, i, 9999));
    assert!(!classify_opcode(Predicate::IsConstantOp, i, 9999));
    assert!(!classify_opcode(Predicate::IsSpecConstantOp, i, 9999));
    assert!(default_of(Predicate::HasResult));
    assert!(default_of(Predicate::HasResultType));
    assert!(!default_of(Predicate::IsTypeOp));
    assert!(!default_of(Predicate::IsConstantOp));
    assert!(!default_of(Predicate::IsSpecConstantOp));
}

#[test]
fn exceptions_are_listed_in_ascending_opcode_order() {
    let g = spirv();
    let i = &g.instructions;
    let order = canonical_instructions(i);
    assert_eq!(order, vec![0, 4, 1, 2, 5]);
    assert_eq!(list_exceptions(Predicate::HasResult, i, &order), vec![0, 4, 5]);
    assert_eq!(list_exceptions(Predicate::HasResultType, i, &order), vec![0, 4, 1, 5]);
    assert_eq!(list_exceptions(Predicate::IsTypeOp, i, &order), vec![1]);
    assert_eq!(list_exceptions(Predicate::IsConstantOp, i, &order), vec![2]);
    assert_eq!(list_exceptions(Predicate::IsSpecConstantOp, i, &order), Vec::<usize>::new());
}

#[test]
fn spec_constant_names_are_not_constant_names() {
    let spec = instr("OpSpecConstantTrue", 48, None);
    assert!(holds(Predicate::IsSpecConstantOp, &spec));
    assert!(!holds(Predicate::IsConstantOp, &spec));
    assert!(!holds(Predicate::HasResult, &spec));
    let typed = instr("OpTypeInt", 21, Some(vec![operand("IdResult", None, None)]));
    assert!(holds(Predicate::IsTypeOp, &typed));
    assert!(has_operand(&typed, "IdResult"));
    assert!(!has_operand(&typed, "IdResultType"));
    assert!(!has_operand(&instr("OpX", 1, Some(Vec::new())), "IdResult"));
}
