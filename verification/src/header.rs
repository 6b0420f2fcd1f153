//! Declarations of the consumer-facing table types and query signatures.

use crate::emit::{join3, lemma_take_ends, lemma_take_push, push_line, push_text};
use crate::schema::{Grammar, GrammarView, OperandKind, OperandKindView};
use crate::text::str_equal;
use vstd::prelude::*;

verus! {

/// The names among the first `n` of a list, each where it first occurs.
pub open spec fn distinct(names: Seq<Seq<char>>, n: nat) -> Seq<Seq<char>>
    decreases n,
{
    if n == 0 {
        Seq::empty()
    } else {
        let before = distinct(names, (n - 1) as nat);
        if before.contains(names[n - 1]) {
            before
        } else {
            before.push(names[n - 1])
        }
    }
}

/// The categories of the kinds, in declaration order.
pub open spec fn kind_categories(kinds: Seq<OperandKindView>) -> Seq<Seq<char>> {
    Seq::new(kinds.len(), |i: int| kinds[i].category)
}

/// The categories that occur, each where it first occurs.
pub open spec fn categories_of(kinds: Seq<OperandKindView>) -> Seq<Seq<char>> {
    distinct(kind_categories(kinds), kinds.len())
}

/// The line of one member of an enumeration of the class.
pub open spec fn member_line(name: Seq<char>) -> Seq<char> {
    "\t\t\t"@ + name + ","@
}

/// The lines of the members named by a list.
pub open spec fn member_lines(names: Seq<Seq<char>>) -> Seq<Seq<char>> {
    Seq::new(names.len(), |i: int| member_line(names[i]))
}

/// The lines of the names of the kinds as members.
pub open spec fn kind_member_lines(kinds: Seq<OperandKindView>) -> Seq<Seq<char>> {
    Seq::new(kinds.len(), |i: int| member_line(kinds[i].kind))
}

/// The lines up to the members of the category enumeration.
pub open spec fn header_opening() -> Seq<Seq<char>> {
    seq![
        "#pragma once"@,
        ""@,
        "#include \"Vector.h\""@,
        "#include \"HashMap.h\""@,
        "#include \"Spv.h\""@,
        ""@,
        "namespace spvgentwo"@,
        "{"@,
        "\tclass Grammar"@,
        "{"@,
        "\t\tpublic:"@,
    ] + seq![
        "\t\tenum class Extension : unsigned short"@,
        "\t\t{"@,
        "\t\t\tCore = 0,"@,
        "\t\t\tGlsl = 1,"@,
        "\t\t\tOpenCl = 2,"@,
        "\t\t};"@,
        "\t\tenum class OperandCategory : unsigned short"@,
        "\t\t{"@,
    ]
}

/// The lines between the members of the category enumeration and those of
/// the kind enumeration.
pub open spec fn header_kinds_head() -> Seq<Seq<char>> {
    seq!["\t\t};"@, "\t\tenum class OperandKind : unsigned short"@, "\t\t{"@]
}

/// The lines of the quantifier enumeration and of the two record types.
pub open spec fn header_types() -> Seq<Seq<char>> {
    seq![
        "\t\t};"@,
        "\t\tenum class Quantifier"@,
        "\t\t{"@,
        "\t\t\tZeroOrOne, // zero or one"@,
        "\t\t\tZeroOrAny, // zero or any"@,
        "\t\t\tOne, // exactly once"@,
        "\t\t};"@,
    ] + seq![
        "\t\tstruct Operand"@,
        "\t\t{"@,
        "\t\t\tOperandKind kind;"@,
        "\t\t\tOperandCategory category;"@,
        "\t\t\tconst char* name;"@,
        "\t\t\tQuantifier quantifier;"@,
        "\t\t};"@,
    ] + seq![
        "\t\tstruct Instruction"@,
        "\t\t{"@,
        "\t\t\tconst char* name;"@,
        "\t\t\tVector<Operand> operands;"@,
        "\t\t\tVector<spv::Capability> capabilities;"@,
        "\t\t\tVector<spv::Extension> extensions;"@,
        "\t\t\tunsigned int version;"@,
        "\t\t};"@,
    ]
}

/// The lines of the query signatures and of the four tables.
pub open spec fn header_queries() -> Seq<Seq<char>> {
    seq![
        "\t\tGrammar(IAllocator* _pAllocator);"@,
        "\t\tconst Instruction* getInfo(unsigned int _opcode, Extension _extension = Extension::Core) const;"@,
        "\t\tconst char* getOperandName(OperandKind _kind, unsigned int _literalValue) const;"@,
        "\t\tconst Vector<Operand>* getOperandParameters(OperandKind _kind, unsigned int _literalValue) const;"@,
        "\t\tconst Vector<Operand>* getOperandBases(OperandKind _kind) const;"@,
    ] + seq![
        "\tprivate:"@,
        "\t\tHashMap<Hash64, Instruction> m_instructions;"@,
        "\t\tHashMap<Hash64, const char*> m_operandNames;"@,
        "\t\tHashMap<Hash64, Vector<Operand>> m_operandParameters;"@,
        "\t\tHashMap<OperandKind, Vector<Operand>> m_operandBases;"@,
        "\t};"@,
        "} // spvgentwo"@,
    ]
}

/// The declarations that go with a core grammar.
pub open spec fn grammar_header_lines(g: GrammarView) -> Seq<Seq<char>> {
    header_opening() + member_lines(categories_of(g.kinds())) + header_kinds_head()
        + kind_member_lines(g.kinds()) + header_types() + header_queries()
}

/// Lists the categories of the kinds, each where it first occurs.
pub fn list_categories(kinds: &Vec<OperandKind>) -> (r: Vec<String>)
    ensures
        r.deep_view() == categories_of(kinds.deep_view()),
{
    let ghost view = kinds.deep_view();
    let ghost names = kind_categories(view);
    let mut r: Vec<String> = Vec::new();
    let mut n: usize = 0;
    assert(r.deep_view() =~= distinct(names, 0));
    while n < kinds.len()
        invariant
            n <= kinds.len(),
            view == kinds.deep_view(),
            names == kind_categories(view),
            r.deep_view() == distinct(names, n as nat),
        decreases kinds.len() - n,
    {
        assert(names[n as int] == kinds@[n as int].category@);
        let ghost before = r.deep_view();
        let mut found = false;
        let mut i: usize = 0;
        while i < r.len()
            invariant
                i <= r.len(),
                before == r.deep_view(),
                names[n as int] == kinds@[n as int].category@,
                n < kinds.len(),
                found == exists|j: int| 0 <= j < i && before[j] == names[n as int],
            decreases r.len() - i,
        {
            assert(before[i as int] == r@[i as int]@);
            if str_equal(r[i].as_str(), kinds[n].category.as_str()) {
                found = true;
            }
            i += 1;
        }
        if !found {
            r.push(kinds[n].category.clone());
            assert(r.deep_view() =~= before.push(names[n as int]));
        }
        n += 1;
    }
    r
}

/// Writes the lines up to the members of the category enumeration.
pub fn emit_header_opening(out: &mut Vec<String>)
    ensures
        final(out).deep_view() == old(out).deep_view() + header_opening(),
{
    let ghost start = out.deep_view();
    push_text(out, "#pragma once");
    push_text(out, "");
    push_text(out, "#include \"Vector.h\"");
    push_text(out, "#include \"HashMap.h\"");
    push_text(out, "#include \"Spv.h\"");
    push_text(out, "");
    push_text(out, "namespace spvgentwo");
    push_text(out, "{");
    push_text(out, "\tclass Grammar");
    push_text(out, "{");
    push_text(out, "\t\tpublic:");
    let ghost first = seq![
        "#pragma once"@,
        ""@,
        "#include \"Vector.h\""@,
        "#include \"HashMap.h\""@,
        "#include \"Spv.h\""@,
        ""@,
        "namespace spvgentwo"@,
        "{"@,
        "\tclass Grammar"@,
        "{"@,
        "\t\tpublic:"@,
    ];
    assert(out.deep_view() =~= start + first);
    push_text(out, "\t\tenum class Extension : unsigned short");
    push_text(out, "\t\t{");
    push_text(out, "\t\t\tCore = 0,");
    push_text(out, "\t\t\tGlsl = 1,");
    push_text(out, "\t\t\tOpenCl = 2,");
    push_text(out, "\t\t};");
    push_text(out, "\t\tenum class OperandCategory : unsigned short");
    push_text(out, "\t\t{");
    assert(out.deep_view() =~= start + header_opening());
}

/// Writes the lines of the quantifier enumeration and of the two record types.
pub fn emit_header_types(out: &mut Vec<String>)
    ensures
        final(out).deep_view() == old(out).deep_view() + header_types(),
{
    let ghost start = out.deep_view();
    push_text(out, "\t\t};");
    push_text(out, "\t\tenum class Quantifier");
    push_text(out, "\t\t{");
    push_text(out, "\t\t\tZeroOrOne, // zero or one");
    push_text(out, "\t\t\tZeroOrAny, // zero or any");
    push_text(out, "\t\t\tOne, // exactly once");
    push_text(out, "\t\t};");
    let ghost first = seq![
        "\t\t};"@,
        "\t\tenum class Quantifier"@,
        "\t\t{"@,
        "\t\t\tZeroOrOne, // zero or one"@,
        "\t\t\tZeroOrAny, // zero or any"@,
        "\t\t\tOne, // exactly once"@,
        "\t\t};"@,
    ];
    assert(out.deep_view() =~= start + first);
    push_text(out, "\t\tstruct Operand");
    push_text(out, "\t\t{");
    push_text(out, "\t\t\tOperandKind kind;");
    push_text(out, "\t\t\tOperandCategory category;");
    push_text(out, "\t\t\tconst char* name;");
    push_text(out, "\t\t\tQuantifier quantifier;");
    push_text(out, "\t\t};");
    let ghost second = seq![
        "\t\tstruct Operand"@,
        "\t\t{"@,
        "\t\t\tOperandKind kind;"@,
        "\t\t\tOperandCategory category;"@,
        "\t\t\tconst char* name;"@,
        "\t\t\tQuantifier quantifier;"@,
        "\t\t};"@,
    ];
    assert(out.deep_view() =~= start + first + second);
    push_text(out, "\t\tstruct Instruction");
    push_text(out, "\t\t{");
    push_text(out, "\t\t\tconst char* name;");
    push_text(out, "\t\t\tVector<Operand> operands;");
    push_text(out, "\t\t\tVector<spv::Capability> capabilities;");
    push_text(out, "\t\t\tVector<spv::Extension> extensions;");
    push_text(out, "\t\t\tunsigned int version;");
    push_text(out, "\t\t};");
    assert(out.deep_view() =~= start + header_types());
}

/// Writes the lines of the query signatures and of the four tables.
pub fn emit_header_queries(out: &mut Vec<String>)
    ensures
        final(out).deep_view() == old(out).deep_view() + header_queries(),
{
    let ghost start = out.deep_view();
    push_text(out, "\t\tGrammar(IAllocator* _pAllocator);");
    push_text(
        out,
        "\t\tconst Instruction* getInfo(unsigned int _opcode, Extension _extension = Extension::Core) const;",
    );
    push_text(
        out,
        "\t\tconst char* getOperandName(OperandKind _kind, unsigned int _literalValue) const;",
    );
    push_text(
        out,
        "\t\tconst Vector<Operand>* getOperandParameters(OperandKind _kind, unsigned int _literalValue) const;",
    );
    push_text(out, "\t\tconst Vector<Operand>* getOperandBases(OperandKind _kind) const;");
    let ghost first = seq![
        "\t\tGrammar(IAllocator* _pAllocator);"@,
        "\t\tconst Instruction* getInfo(unsigned int _opcode, Extension _extension = Extension::Core) const;"@,
        "\t\tconst char* getOperandName(OperandKind _kind, unsigned int _literalValue) const;"@,
        "\t\tconst Vector<Operand>* getOperandParameters(OperandKind _kind, unsigned int _literalValue) const;"@,
        "\t\tconst Vector<Operand>* getOperandBases(OperandKind _kind) const;"@,
    ];
    assert(out.deep_view() =~= start + first);
    push_text(out, "\tprivate:");
    push_text(out, "\t\tHashMap<Hash64, Instruction> m_instructions;");
    push_text(out, "\t\tHashMap<Hash64, const char*> m_operandNames;");
    push_text(out, "\t\tHashMap<Hash64, Vector<Operand>> m_operandParameters;");
    push_text(out, "\t\tHashMap<OperandKind, Vector<Operand>> m_operandBases;");
    push_text(out, "\t};");
    push_text(out, "} // spvgentwo");
    assert(out.deep_view() =~= start + header_queries());
}

/// Writes one member line for each name of a list.
pub fn emit_members(out: &mut Vec<String>, names: &Vec<String>)
    ensures
        final(out).deep_view() == old(out).deep_view() + member_lines(names.deep_view()),
{
    let ghost base = out.deep_view();
    let ghost all = member_lines(names.deep_view());
    proof {
        lemma_take_ends(base, all);
    }
    let mut i: usize = 0;
    while i < names.len()
        invariant
            i <= names.len(),
            all == member_lines(names.deep_view()),
            all.len() == names.len(),
            out.deep_view() == base + all.take(i as int),
        decreases names.len() - i,
    {
        assert(names.deep_view()[i as int] == names@[i as int]@);
        push_line(out, join3("\t\t\t", names[i].as_str(), ","));
        proof {
            lemma_take_push(base, all, i as int);
        }
        i += 1;
    }
    proof {
        lemma_take_ends(base, all);
    }
}

/// Writes one member line for each kind of a list.
pub fn emit_kind_members(out: &mut Vec<String>, kinds: &Vec<OperandKind>)
    ensures
        final(out).deep_view() == old(out).deep_view() + kind_member_lines(kinds.deep_view()),
{
    let ghost base = out.deep_view();
    let ghost all = kind_member_lines(kinds.deep_view());
    proof {
        lemma_take_ends(base, all);
    }
    let mut i: usize = 0;
    while i < kinds.len()
        invariant
            i <= kinds.len(),
            all == kind_member_lines(kinds.deep_view()),
            all.len() == kinds.len(),
            out.deep_view() == base + all.take(i as int),
        decreases kinds.len() - i,
    {
        assert(kinds.deep_view()[i as int] == kinds@[i as int]@);
        push_line(out, join3("\t\t\t", kinds[i].kind.as_str(), ","));
        proof {
            lemma_take_push(base, all, i as int);
        }
        i += 1;
    }
    proof {
        lemma_take_ends(base, all);
    }
}

/// Renders the declarations that go with a core grammar, given with its
/// operand kinds.
pub fn grammar_header_with(kinds: &Vec<OperandKind>, spv: &Grammar) -> (lines: Vec<String>)
    requires
        kinds.deep_view() == spv@.kinds(),
    ensures
        lines.deep_view() == grammar_header_lines(spv@),
{
    let mut out: Vec<String> = Vec::new();
    assert(out.deep_view() =~= Seq::<Seq<char>>::empty());
    emit_header_opening(&mut out);
    let categories = list_categories(kinds);
    emit_members(&mut out, &categories);
    let ghost start = out.deep_view();
    push_text(&mut out, "\t\t};");
    push_text(&mut out, "\t\tenum class OperandKind : unsigned short");
    push_text(&mut out, "\t\t{");
    assert(out.deep_view() =~= start + header_kinds_head());
    emit_kind_members(&mut out, kinds);
    emit_header_types(&mut out);
    emit_header_queries(&mut out);
    assert(out.deep_view() =~= grammar_header_lines(spv@));
    out
}

/// Renders the declarations of the consumer-facing table types and query
/// signatures that go with a core grammar.
pub fn grammar_header(spv: &Grammar) -> (lines: Vec<String>)
    ensures
        lines.deep_view() == grammar_header_lines(spv@),
{
    match &spv.operand_kinds {
        Some(kinds) => grammar_header_with(kinds, spv),
        None => {
            let kinds: Vec<OperandKind> = Vec::new();
            assert(kinds.deep_view() =~= spv@.kinds());
            grammar_header_with(&kinds, spv)
        },
    }
}

} // verus!
