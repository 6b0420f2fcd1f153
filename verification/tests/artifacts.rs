use spv_grammar::compiler::{generate, with_banner, Request};
use spv_grammar::cpp::{emit_tables, grammar_cpp, print_instruction};
use spv_grammar::defs::{ext_defs, spv_defs, Extension};
use spv_grammar::header::{grammar_header, list_categories};
use spv_grammar::info::InstructionInfo;
use spv_grammar::operand::{GrammarError, OperandInfo, Quantifier};
use spv_grammar::schema::{Enumerant, Grammar, Instruction, Literal, Operand, OperandKind, Parameter};
use spv_grammar::tables::compile_tables;

fn strings(names: &[&str]) -> Vec<String> {
    names.iter().map(|s| s.to_string()).collect()
}

fn operand(kind: &str, quantifier: Option<&str>, name: Option<&str>) -> Operand {
    Operand {
        kind: kind.to_string(),
        quantifier: quantifier.map(|s| s.to_string()),
        name: name.map(|s| s.to_string()),
    }
}

fn instr(name: &str, opcode: u32, operands: Option<Vec<Operand>>) -> Instruction {
    Instruction {
        opname: name.to_string(),
        class: None,
        opcode,
        operands,
        capabilities: None,
        extensions: None,
        version: None,
    }
}

fn enumerant(name: &str, value: Literal, parameters: Option<Vec<Parameter>>) -> Enumerant {
    Enumerant {
        enumerant: name.to_string(),
        value,
        capabilities: None,
        parameters,
        extensions: None,
        version: None,
    }
}

fn parameter(kind: &str, name: Option<&str>) -> Parameter {
    Parameter { kind: kind.to_string(), name: name.map(|s| s.to_string()) }
}

fn hex(text: &str) -> Literal {
    Literal::Text(text.to_string())
}

fn kind(
    category: &str,
    name: &str,
    enumerants: Option<Vec<Enumerant>>,
    bases: Option<&[&str]>,
) -> OperandKind {
    OperandKind {
        category: category.to_string(),
        kind: name.to_string(),
        enumerants,
        bases: bases.map(strings),
    }
}

fn spirv() -> Grammar {
    let mut foo_khr = instr(
        "OpFooKHR",
        12,
        Some(vec![operand("IdRef", Some("?"), None), operand("LiteralString", None, Some("'Name'\n"))]),
    );
    foo_khr.capabilities = Some(strings(&["Shader", "Kernel"]));
    foo_khr.extensions = Some(strings(&["SPV_KHR_foo"]));
    foo_khr.version = Some("1.4".to_string());
    let mut foo = instr("OpFoo", 12, Some(vec![operand("IdRef", Some("*"), None)]));
    foo.capabilities = Some(strings(&["Shader"]));
    let mut buffer = enumerant("Buffer", Literal::Integer(5), None);
    buffer.extensions = Some(strings(&["SPV_AMD_bar", "SPV_KHR_foo"]));
    Grammar {
        copyright: strings(&["Copyright (c) Someone", "All rights reserved"]),
        magic_number: Some("0x07230203".to_string()),
        major_version: Some(1),
        minor_version: Some(6),
        version: None,
        revision: 4,
        instructions: vec![
            instr("OpNop", 0, None),
            instr("OpTypeVoid", 19, Some(vec![operand("IdResult", None, None)])),
            instr(
                "OpConstantTrue",
                41,
                Some(vec![operand("IdResultType", None, None), operand("IdResult", None, None)]),
            ),
            foo_khr,
            foo,
            instr(
                "OpDecorate",
                71,
                Some(vec![operand("IdRef", None, Some("'Target'")), operand("Decoration", None, None)]),
            ),
        ],
        operand_kinds: Some(vec![
            kind(
                "BitEnum",
                "ImageOperands",
                Some(vec![
                    enumerant("None", hex("0x0000"), None),
                    enumerant("Bias", hex("0x0001"), Some(vec![parameter("IdRef", None)])),
                    enumerant(
                        "Grad",
                        hex("0x0004"),
                        Some(vec![parameter("IdRef", None), parameter("IdRef", Some("'dy'\n"))]),
                    ),
                ]),
                None,
            ),
            kind(
                "ValueEnum",
                "Dim",
                Some(vec![
                    enumerant("1D", Literal::Integer(0), None),
                    enumerant("Cube", Literal::Integer(3), None),
                    buffer,
                ]),
                None,
            ),
            kind(
                "ValueEnum",
                "Decoration",
                Some(vec![
                    enumerant("RelaxedPrecision", Literal::Integer(0), None),
                    enumerant(
                        "SpecId",
                        Literal::Integer(1),
                        Some(vec![parameter("LiteralInteger", Some("'Specialization Constant ID'"))]),
                    ),
                    enumerant("Block", Literal::Integer(2), Some(Vec::new())),
                ]),
                None,
            ),
            kind("Id", "IdResultType", None, None),
            kind("Id", "IdResult", None, None),
            kind("Id", "IdRef", None, None),
            kind("Literal", "LiteralInteger", None, None),
            kind("Literal", "LiteralString", None, None),
            kind("Composite", "PairIdRefIdRef", None, Some(&["IdRef", "IdRef"])),
        ]),
    }
}

fn extended(version: u32, instructions: Vec<Instruction>) -> Grammar {
    Grammar {
        copyright: strings(&["Copyright (c) Someone"]),
        magic_number: None,
        major_version: None,
        minor_version: None,
        version: Some(version),
        revision: 2,
        instructions,
        operand_kinds: None,
    }
}

fn glsl() -> Grammar {
    extended(
        100,
        vec![
            instr("Round", 1, Some(vec![operand("IdRef", None, Some("'x'"))])),
            instr("Trunc", 3, None),
        ],
    )
}

fn opencl() -> Grammar {
    extended(
        0,
        vec![instr("acos", 0, Some(vec![operand("IdRef", None, Some("'x'"))])), instr("acosh", 1, None)],
    )
}

fn lines(text: &str) -> Vec<String> {
    text.split('\n').map(|s| s.to_string()).collect()
}

const DEFS: &str = "// Copyright (c) Someone
// All rights reserved
#pragma once

namespace spvgentwo::spv
{
\tusing Id = unsigned int;
\tstatic constexpr unsigned int MagicNumber = 0x07230203;
\tstatic constexpr unsigned int Version = 67072;
\tstatic constexpr unsigned int Revision = 4;
\tstatic constexpr unsigned int OpCodeMask = 0xffff;
\tstatic constexpr unsigned int WordCountShift = 16;
\tenum class ImageOperandsMask : unsigned
\t{
\t\tMaskNone = 0x0000,
\t\tBias = 0x0001,
\t\tGrad = 0x0004,
\t};
\tenum class ImageOperandsShift : unsigned
\t{
\t\tNone = 0,
\t\tBias = 1,
\t\tGrad = 2,
\t\tMax = 0x7fffffff
\t};
\tenum class Dim : unsigned
\t{
\t\tDim1D = 0,
\t\tCube = 3,
\t\tBuffer = 5,
\t\tMax = 0x7fffffff
\t};
\tenum class Decoration : unsigned
\t{
\t\tRelaxedPrecision = 0,
\t\tSpecId = 1,
\t\tBlock = 2,
\t\tMax = 0x7fffffff
\t};
\tenum class Op : unsigned
\t{
\t\tOpNop = 0,
\t\tOpTypeVoid = 19,
\t\tOpConstantTrue = 41,
\t\tOpFooKHR = 12,
\t\tOpFoo = 12,
\t\tOpDecorate = 71,
\t\tMax = 0x7fffffff
\t};
\tenum class Extension : unsigned
\t{
\t\tSPV_AMD_bar = 0,
\t\tSPV_KHR_foo = 1,
\t\tMax = 0x7fffffff
\t};
\tstatic constexpr const char* ExtensionNames[] =
\t{
\t\t\"SPV_AMD_bar\",
\t\t\"SPV_KHR_foo\",
\t};
\tinline void HasResultAndType(Op opcode, bool *hasResult, bool *hasResultType) {
\t\t*hasResult = *hasResultType = false;
\t\tswitch (opcode) {
\t\tdefault: /* unknown opcode */ break;
\t\tcase Op::OpTypeVoid: *hasResult = true; *hasResultType = false; break;
\t\tcase Op::OpConstantTrue: *hasResult = true; *hasResultType = true; break;
\t\t}
\t}
\tinline constexpr bool HasResult(Op opcode) {
\t\tswitch (opcode) {
\t\tdefault: return true; // majority of instructions has a result
\t\tcase Op::OpNop: return false;
\t\tcase Op::OpFoo: return false;
\t\tcase Op::OpDecorate: return false;
\t\t}
\t}
\tinline constexpr bool HasResultType(Op opcode) {
\t\tswitch (opcode) {
\t\tdefault: return true; // majority of instructions has a result type
\t\tcase Op::OpNop: return false;
\t\tcase Op::OpFoo: return false;
\t\tcase Op::OpTypeVoid: return false;
\t\tcase Op::OpDecorate: return false;
\t\t}
\t}
\tinline constexpr bool IsTypeOp(Op opcode) {
\t\tswitch (opcode) {
\t\tdefault: return false; // majority of instructions are not types
\t\tcase Op::OpTypeVoid: return true;
\t\t}
\t}
\tinline constexpr bool IsConstantOp(Op opcode) {
\t\tswitch (opcode) {
\t\tdefault: return false; // majority of instructions are not constants
\t\tcase Op::OpConstantTrue: return true;
\t\t}
\t}
\tinline constexpr bool IsSpecConstantOp(Op opcode) {
\t\tswitch (opcode) {
\t\tdefault: return false; // majority of instructions are not spec constants
\t\t}
\t}
} // spvgentwo::spv";

const GLSL_DEFS: &str = "// Copyright (c) Someone
#pragma once

namespace spvgentwo::glslstd450
{
\tstatic constexpr unsigned int Version = 100;
\tstatic constexpr unsigned int Revision = 2;
\tenum class Op : unsigned
\t{
\t\tRound = 1,
\t\tTrunc = 3,
\t\tMax = 0x7fffffff
\t};
} // spvgentwo::glslstd450";

const OPENCL_DEFS: &str = "// Copyright (c) Someone
#pragma once

namespace spvgentwo::opencl100
{
\tstatic constexpr unsigned int Version = 0;
\tstatic constexpr unsigned int Revision = 2;
\tenum class Op : unsigned
\t{
\t\tacos = 0,
\t\tacosh = 1,
\t\tMax = 0x7fffffff
\t};
} // spvgentwo::opencl100";

const HEADER: &str = "#pragma once

#include \"Vector.h\"
#include \"HashMap.h\"
#include \"Spv.h\"

namespace spvgentwo
{
\tclass Grammar
{
\t\tpublic:
\t\tenum class Extension : unsigned short
\t\t{
\t\t\tCore = 0,
\t\t\tGlsl = 1,
\t\t\tOpenCl = 2,
\t\t};
\t\tenum class OperandCategory : unsigned short
\t\t{
\t\t\tBitEnum,
\t\t\tValueEnum,
\t\t\tId,
\t\t\tLiteral,
\t\t\tComposite,
\t\t};
\t\tenum class OperandKind : unsigned short
\t\t{
\t\t\tImageOperands,
\t\t\tDim,
\t\t\tDecoration,
\t\t\tIdResultType,
\t\t\tIdResult,
\t\t\tIdRef,
\t\t\tLiteralInteger,
\t\t\tLiteralString,
\t\t\tPairIdRefIdRef,
\t\t};
\t\tenum class Quantifier
\t\t{
\t\t\tZeroOrOne, // zero or one
\t\t\tZeroOrAny, // zero or any
\t\t\tOne, // exactly once
\t\t};
\t\tstruct Operand
\t\t{
\t\t\tOperandKind kind;
\t\t\tOperandCategory category;
\t\t\tconst char* name;
\t\t\tQuantifier quantifier;
\t\t};
\t\tstruct Instruction
\t\t{
\t\t\tconst char* name;
\t\t\tVector<Operand> operands;
\t\t\tVector<spv::Capability> capabilities;
\t\t\tVector<spv::Extension> extensions;
\t\t\tunsigned int version;
\t\t};
\t\tGrammar(IAllocator* _pAllocator);
\t\tconst Instruction* getInfo(unsigned int _opcode, Extension _extension = Extension::Core) const;
\t\tconst char* getOperandName(OperandKind _kind, unsigned int _literalValue) const;
\t\tconst Vector<Operand>* getOperandParameters(OperandKind _kind, unsigned int _literalValue) const;
\t\tconst Vector<Operand>* getOperandBases(OperandKind _kind) const;
\tprivate:
\t\tHashMap<Hash64, Instruction> m_instructions;
\t\tHashMap<Hash64, const char*> m_operandNames;
\t\tHashMap<Hash64, Vector<Operand>> m_operandParameters;
\t\tHashMap<OperandKind, Vector<Operand>> m_operandBases;
\t};
} // spvgentwo";

const CPP: &str = "#include \"spvgentwo/Grammar.h\"
#include \"spvgentwo/Glsl.h\"
#include \"spvgentwo/OpenCl.h\"
using namespace spvgentwo;

Grammar::Grammar(IAllocator* _pAllocator) : m_instructions(_pAllocator, 9u), m_operandNames(_pAllocator, 9u), m_operandParameters(_pAllocator, 4u), m_operandBases(_pAllocator, 1u)
{
\t{
\t\tauto& bases = m_operandBases.emplaceUnique(OperandKind::PairIdRefIdRef, _pAllocator).kv.value;
\t\tbases.reserve(2u);
\t\tbases.emplace_back(OperandKind::IdRef, OperandCategory::Id, \"\", Quantifier::One);
\t\tbases.emplace_back(OperandKind::IdRef, OperandCategory::Id, \"\", Quantifier::One);
\t}
\t{
\t\tauto& parameters = m_operandParameters.emplaceUnique(Hash64(static_cast<unsigned int>(OperandKind::ImageOperands), 0x0001), _pAllocator).kv.value;
\t\tparameters.emplace_back(OperandKind::IdRef, OperandCategory::Id, \"\", Quantifier::One);
\t}
\t{
\t\tauto& parameters = m_operandParameters.emplaceUnique(Hash64(static_cast<unsigned int>(OperandKind::ImageOperands), 0x0004), _pAllocator).kv.value;
\t\tparameters.reserve(2u);
\t\tparameters.emplace_back(OperandKind::IdRef, OperandCategory::Id, \"\", Quantifier::One);
\t\tparameters.emplace_back(OperandKind::IdRef, OperandCategory::Id, \"'dy'\", Quantifier::One);
\t}
\t{
\t\tauto& parameters = m_operandParameters.emplaceUnique(Hash64(static_cast<unsigned int>(OperandKind::Decoration), 1), _pAllocator).kv.value;
\t\tparameters.emplace_back(OperandKind::LiteralInteger, OperandCategory::Literal, \"'Specialization Constant ID'\", Quantifier::One);
\t}
\t{
\t\tauto& parameters = m_operandParameters.emplaceUnique(Hash64(static_cast<unsigned int>(OperandKind::Decoration), 2), _pAllocator).kv.value;
\t}
\tm_instructions.emplaceUnique(Hash64(0u, 0u), Instruction{\"OpNop\", _pAllocator, _pAllocator, _pAllocator, 0u});
\t{
\t\tauto& instr = m_instructions.emplaceUnique(Hash64(12u, 0u), Instruction{\"OpFoo\", _pAllocator, _pAllocator, _pAllocator, 0u}).kv.value;
\t\tinstr.operands.emplace_back(OperandKind::IdRef, OperandCategory::Id, \"\", Quantifier::ZeroOrAny);
\t\tinstr.capabilities.emplace_back(spv::Capability::Shader);
\t}
\t{
\t\tauto& instr = m_instructions.emplaceUnique(Hash64(19u, 0u), Instruction{\"OpTypeVoid\", _pAllocator, _pAllocator, _pAllocator, 0u}).kv.value;
\t\tinstr.operands.emplace_back(OperandKind::IdResult, OperandCategory::Id, \"Result\", Quantifier::One);
\t}
\t{
\t\tauto& instr = m_instructions.emplaceUnique(Hash64(41u, 0u), Instruction{\"OpConstantTrue\", _pAllocator, _pAllocator, _pAllocator, 0u}).kv.value;
\t\tinstr.operands.reserve(2u);
\t\tinstr.operands.emplace_back(OperandKind::IdResultType, OperandCategory::Id, \"ResultType\", Quantifier::One);
\t\tinstr.operands.emplace_back(OperandKind::IdResult, OperandCategory::Id, \"Result\", Quantifier::One);
\t}
\t{
\t\tauto& instr = m_instructions.emplaceUnique(Hash64(71u, 0u), Instruction{\"OpDecorate\", _pAllocator, _pAllocator, _pAllocator, 0u}).kv.value;
\t\tinstr.operands.reserve(2u);
\t\tinstr.operands.emplace_back(OperandKind::IdRef, OperandCategory::Id, \"'Target'\", Quantifier::One);
\t\tinstr.operands.emplace_back(OperandKind::Decoration, OperandCategory::ValueEnum, \"\", Quantifier::One);
\t}
\t{
\t\tauto& instr = m_instructions.emplaceUnique(Hash64(1u, 1u), Instruction{\"Round\", _pAllocator, _pAllocator, _pAllocator, 0u}).kv.value;
\t\tinstr.operands.emplace_back(OperandKind::IdRef, OperandCategory::Id, \"'x'\", Quantifier::One);
\t}
\tm_instructions.emplaceUnique(Hash64(3u, 1u), Instruction{\"Trunc\", _pAllocator, _pAllocator, _pAllocator, 0u});
\t{
\t\tauto& instr = m_instructions.emplaceUnique(Hash64(0u, 2u), Instruction{\"acos\", _pAllocator, _pAllocator, _pAllocator, 0u}).kv.value;
\t\tinstr.operands.emplace_back(OperandKind::IdRef, OperandCategory::Id, \"'x'\", Quantifier::One);
\t}
\tm_instructions.emplaceUnique(Hash64(1u, 2u), Instruction{\"acosh\", _pAllocator, _pAllocator, _pAllocator, 0u});
\tm_operandNames.emplaceUnique(Hash64(0x0000u, static_cast<unsigned int>(OperandKind::ImageOperands)),\"None\");
\tm_operandNames.emplaceUnique(Hash64(0x0001u, static_cast<unsigned int>(OperandKind::ImageOperands)),\"Bias\");
\tm_operandNames.emplaceUnique(Hash64(0x0004u, static_cast<unsigned int>(OperandKind::ImageOperands)),\"Grad\");
\tm_operandNames.emplaceUnique(Hash64(0u, static_cast<unsigned int>(OperandKind::Dim)),\"Dim1D\");
\tm_operandNames.emplaceUnique(Hash64(3u, static_cast<unsigned int>(OperandKind::Dim)),\"Cube\");
\tm_operandNames.emplaceUnique(Hash64(5u, static_cast<unsigned int>(OperandKind::Dim)),\"Buffer\");
\tm_operandNames.emplaceUnique(Hash64(0u, static_cast<unsigned int>(OperandKind::Decoration)),\"RelaxedPrecision\");
\tm_operandNames.emplaceUnique(Hash64(1u, static_cast<unsigned int>(OperandKind::Decoration)),\"SpecId\");
\tm_operandNames.emplaceUnique(Hash64(2u, static_cast<unsigned int>(OperandKind::Decoration)),\"Block\");
};
const Grammar::Instruction* Grammar::getInfo(unsigned int _opcode, Extension _extension) const
{
\treturn m_instructions.get(Hash64(_opcode, static_cast<unsigned int>(_extension)));
};
const char* Grammar::getOperandName(OperandKind _kind, unsigned int _literalValue) const
{
\tconst char** name = m_operandNames.get(Hash64(_literalValue, static_cast<unsigned int>(_kind)));
\treturn name == nullptr ? nullptr : *name;
};
const Vector<Grammar::Operand>* Grammar::getOperandParameters(OperandKind _kind, unsigned int _literalValue) const
{
\treturn m_operandParameters.get(Hash64(static_cast<unsigned int>(_kind), _literalValue));
};
const Vector<Grammar::Operand>* Grammar::getOperandBases(OperandKind _kind) const
{
\treturn m_operandBases.get(_kind);
};";

const BANNER: &str = "// Auto generated - do not modify";

fn request(defs: bool, header: bool, cpp: bool) -> Request {
    Request { defs, header, cpp }
}

fn banner_and(text: &str) -> Vec<String> {
    let mut v = vec![BANNER.to_string()];
    v.extend(lines(text));
    v
}

#[test]
fn core_definitions_are_rendered_line_for_line() {
    assert_eq!(spv_defs(&spirv()), lines(DEFS));
}

#[test]
fn core_definitions_default_where_fields_are_absent() {
    let g = Grammar {
        copyright: Vec::new(),
        magic_number: None,
        major_version: None,
        minor_version: Some(2),
        version: None,
        revision: 0,
        instructions: Vec::new(),
        operand_kinds: None,
    };
    let out = spv_defs(&g);
    assert_eq!(out[0], "#pragma once");
    assert_eq!(out[5], "\tstatic constexpr unsigned int MagicNumber = 0x07230203;");
    assert_eq!(out[6], "\tstatic constexpr unsigned int Version = 512;");
    assert_eq!(out[7], "\tstatic constexpr unsigned int Revision = 0;");
    assert_eq!(out[10..14], lines("\tenum class Op : unsigned\n\t{\n\t\tMax = 0x7fffffff\n\t};")[..]);
    assert_eq!(out.len(), 53);
}

#[test]
fn extended_definitions_are_rendered_line_for_line() {
    assert_eq!(ext_defs(&glsl(), Extension::GlslStd450), lines(GLSL_DEFS));
    assert_eq!(ext_defs(&opencl(), Extension::OpenCl100), lines(OPENCL_DEFS));
    assert_eq!(Extension::GlslStd450.namespace(), "glslstd450");
    assert_eq!(Extension::OpenCl100.namespace(), "opencl100");
}

#[test]
fn declarations_are_rendered_line_for_line() {
    assert_eq!(grammar_header(&spirv()), lines(HEADER));
}

#[test]
fn categories_are_listed_once_where_they_first_occur() {
    let g = spirv();
    assert_eq!(
        list_categories(g.operand_kinds.as_ref().unwrap()),
        strings(&["BitEnum", "ValueEnum", "Id", "Literal", "Composite"])
    );
    assert_eq!(list_categories(&Vec::new()), Vec::<String>::new());
}

#[test]
fn table_definitions_are_rendered_line_for_line() {
    assert_eq!(grammar_cpp(&spirv(), &vec![glsl(), opencl()]), Ok(lines(CPP)));
    let t = compile_tables(&spirv(), &vec![glsl(), opencl()]).unwrap();
    assert_eq!(emit_tables(&t), lines(CPP));
}

#[test]
fn table_definitions_are_refused_for_a_faulty_grammar() {
    let mut g = spirv();
    g.instructions[1].operands = Some(vec![operand("IdResult", Some("x"), None)]);
    assert_eq!(grammar_cpp(&g, &Vec::new()), Err(GrammarError::UnknownQuantifier));
}

#[test]
fn instruction_with_every_collection_reserves_where_more_than_one() {
    let o = |k: &str, q: Quantifier| OperandInfo {
        kind: k.to_string(),
        category: "C".to_string(),
        name: "n".to_string(),
        quantifier: q,
    };
    let info = InstructionInfo {
        name: "OpAll".to_string(),
        opcode: 7,
        namespace: 3,
        operands: vec![o("A", Quantifier::ZeroOrOne), o("B", Quantifier::ZeroOrMany), o("C", Quantifier::ExactlyOne)],
        capabilities: strings(&["One"]),
        extensions: strings(&["E1", "E2"]),
        version: 66560,
    };
    let mut out = Vec::new();
    print_instruction(&mut out, &info);
    assert_eq!(
        out,
        strings(&[
            "\t{",
            "\t\tauto& instr = m_instructions.emplaceUnique(Hash64(7u, 3u), Instruction{\"OpAll\", _pAllocator, _pAllocator, _pAllocator, 66560u}).kv.value;",
            "\t\tinstr.operands.reserve(3u);",
            "\t\tinstr.operands.emplace_back(OperandKind::A, OperandCategory::C, \"n\", Quantifier::ZeroOrOne);",
            "\t\tinstr.operands.emplace_back(OperandKind::B, OperandCategory::C, \"n\", Quantifier::ZeroOrAny);",
            "\t\tinstr.operands.emplace_back(OperandKind::C, OperandCategory::C, \"n\", Quantifier::One);",
            "\t\tinstr.capabilities.emplace_back(spv::Capability::One);",
            "\t\tinstr.extensions.reserve(2u);",
            "\t\tinstr.extensions.emplace_back(spv::Extension::E1);",
            "\t\tinstr.extensions.emplace_back(spv::Extension::E2);",
            "\t}",
        ])
    );
}

#[test]
fn same_input_compiles_to_the_same_output() {
    for r in [request(true, false, false), request(false, true, false), request(false, false, true)] {
        let first = generate(r, Some(spirv()), Some(glsl()), Some(opencl()));
        let second = generate(r, Some(spirv()), Some(glsl()), Some(opencl()));
        assert_eq!(first, second);
        assert!(first.is_ok());
    }
}

#[test]
fn request_selects_one_artifact() {
    let all = || (Some(spirv()), Some(glsl()), Some(opencl()));
    let (s, g, o) = all();
    assert_eq!(generate(request(true, false, false), s, g, o), Ok(banner_and(DEFS)));
    let (s, g, o) = all();
    assert_eq!(generate(request(false, true, false), s, g, o), Ok(banner_and(HEADER)));
    let (s, g, o) = all();
    assert_eq!(generate(request(false, false, true), s, g, o), Ok(banner_and(CPP)));
    let (s, g, o) = all();
    assert_eq!(generate(request(true, true, true), s, g, o), Ok(banner_and(DEFS)));
    let (s, g, o) = all();
    assert_eq!(generate(request(false, true, true), s, g, o), Ok(banner_and(HEADER)));
    let (s, g, o) = all();
    assert_eq!(generate(request(false, false, false), s, g, o), Ok(vec![BANNER.to_string()]));
}

#[test]
fn request_is_served_from_the_grammars_that_are_there() {
    assert_eq!(
        generate(request(true, false, false), None, Some(glsl()), Some(opencl())),
        Ok(banner_and(GLSL_DEFS))
    );
    assert_eq!(
        generate(request(true, false, false), None, None, Some(opencl())),
        Ok(banner_and(OPENCL_DEFS))
    );
    assert_eq!(generate(request(true, false, false), None, None, None), Ok(vec![BANNER.to_string()]));
    assert_eq!(
        generate(request(false, true, false), None, Some(glsl()), None),
        Ok(vec![BANNER.to_string()])
    );
    assert_eq!(
        generate(request(false, false, true), Some(spirv()), Some(glsl()), None),
        Ok(vec![BANNER.to_string()])
    );
    assert_eq!(
        generate(request(false, true, true), None, Some(glsl()), Some(opencl())),
        Ok(vec![BANNER.to_string()])
    );
}

#[test]
fn fault_ends_the_run_without_an_artifact() {
    let mut g = spirv();
    g.instructions[0].operands = Some(vec![operand("Missing", None, None)]);
    assert_eq!(
        generate(request(false, false, true), Some(g), Some(glsl()), Some(opencl())),
        Err(GrammarError::UndeclaredKind)
    );
}

#[test]
fn banner_comes_first() {
    assert_eq!(with_banner(strings(&["a", "b"])), strings(&[BANNER, "a", "b"]));
    assert_eq!(with_banner(Vec::new()), strings(&[BANNER]));
}
