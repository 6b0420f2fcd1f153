//! Definitions of the compiled tables: the entries of the four tables as
//! initializer code, and the bodies of the four queries.
//!
//! Before a collection of more than one element is filled, a line reserves
//! room for exactly that many; a collection of one element is filled without.

use crate::emit::{join3, join5, lemma_take_ends, lemma_take_push, push_line, push_text};
use crate::info::{
    InstructionInfo, InstructionInfoView, OperandBases, OperandBasesView, OperandName,
    OperandNameView, OperandParameters, OperandParametersView,
};
use crate::operand::{GrammarError, OperandInfo, OperandInfoView, Quantifier};
use crate::schema::{Grammar, GrammarView};
use crate::table::{unique_entries, Table};
use crate::tables::{
    base_entries, compile_tables, instruction_entries, name_entries, parameter_entries, Tables,
};
use crate::text::{decimal, decimal_string};
use crate::validate::grammar_fault;
use vstd::prelude::*;
use vstd::string::StringExecFns;

verus! {

/// The token of a quantifier in the target representation.
pub open spec fn quantifier_text(q: Quantifier) -> Seq<char> {
    match q {
        Quantifier::ExactlyOne => "Quantifier::One"@,
        Quantifier::ZeroOrOne => "Quantifier::ZeroOrOne"@,
        Quantifier::ZeroOrMany => "Quantifier::ZeroOrAny"@,
    }
}

/// The line that adds one operand to the collection `target`.
pub open spec fn operand_line(target: Seq<char>, o: OperandInfoView) -> Seq<char> {
    "\t\t"@ + target + ".emplace_back(OperandKind::"@ + o.kind + ", OperandCategory::"@
        + o.category + ", \""@ + o.name + "\", "@ + quantifier_text(o.quantifier) + ");"@
}

/// The line that reserves room for `n` elements in the collection `target`,
/// where `n` is more than one.
pub open spec fn reserve_lines(target: Seq<char>, n: nat) -> Seq<Seq<char>> {
    if n > 1 {
        seq!["\t\t"@ + target + ".reserve("@ + decimal(n) + "u);"@]
    } else {
        Seq::empty()
    }
}

/// The lines that fill the collection `target` with operands.
pub open spec fn operand_block(target: Seq<char>, ops: Seq<OperandInfoView>) -> Seq<Seq<char>> {
    reserve_lines(target, ops.len()) + Seq::new(ops.len(), |i: int| operand_line(target, ops[i]))
}

/// The line that adds the member `name` of the enumeration `scope` to the
/// collection `target`.
pub open spec fn member_line(target: Seq<char>, scope: Seq<char>, name: Seq<char>) -> Seq<char> {
    "\t\t"@ + target + ".emplace_back("@ + scope + name + ");"@
}

/// The lines that fill the collection `target` with members of the
/// enumeration `scope`.
pub open spec fn member_block(target: Seq<char>, scope: Seq<char>, names: Seq<Seq<char>>) -> Seq<
    Seq<char>,
> {
    reserve_lines(target, names.len()) + Seq::new(
        names.len(),
        |i: int| member_line(target, scope, names[i]),
    )
}

/// The expression that adds an instruction to the instruction table.
pub open spec fn instruction_emplace(i: InstructionInfoView) -> Seq<char> {
    "m_instructions.emplaceUnique(Hash64("@ + decimal(i.opcode as nat) + "u, "@ + decimal(
        i.namespace as nat,
    ) + "u), Instruction{\""@ + i.name + "\", _pAllocator, _pAllocator, _pAllocator, "@ + decimal(
        i.version as nat,
    ) + "u})"@
}

/// Whether an instruction has anything to fill in after it has been added.
pub open spec fn has_properties(i: InstructionInfoView) -> bool {
    i.operands.len() > 0 || i.capabilities.len() > 0 || i.extensions.len() > 0
}

/// The lines of one instruction: a single statement where it has no
/// operands, capabilities or extensions, else a block that adds it and then
/// fills in the three collections.
pub open spec fn instruction_lines(i: InstructionInfoView) -> Seq<Seq<char>> {
    if has_properties(i) {
        seq!["\t{"@, "\t\tauto& instr = "@ + instruction_emplace(i) + ".kv.value;"@]
            + operand_block("instr.operands"@, i.operands) + member_block(
            "instr.capabilities"@,
            "spv::Capability::"@,
            i.capabilities,
        ) + member_block("instr.extensions"@, "spv::Extension::"@, i.extensions) + seq!["\t}"@]
    } else {
        seq!["\t"@ + instruction_emplace(i) + ";"@]
    }
}

/// The lines of the bases of one composite kind.
pub open spec fn bases_lines(b: OperandBasesView) -> Seq<Seq<char>> {
    seq![
        "\t{"@,
        "\t\tauto& bases = m_operandBases.emplaceUnique(OperandKind::"@ + b.kind
            + ", _pAllocator).kv.value;"@,
    ] + operand_block("bases"@, b.bases) + seq!["\t}"@]
}

/// The lines of the parameters of one enumerant.
pub open spec fn parameters_lines(p: OperandParametersView) -> Seq<Seq<char>> {
    seq![
        "\t{"@,
        "\t\tauto& parameters = m_operandParameters.emplaceUnique(Hash64(static_cast<unsigned int>(OperandKind::"@
            + p.kind + "), "@ + p.literal + "), _pAllocator).kv.value;"@,
    ] + operand_block("parameters"@, p.parameters) + seq!["\t}"@]
}

/// The line of the display name of one enumerant.
pub open spec fn name_line(n: OperandNameView) -> Seq<char> {
    "\tm_operandNames.emplaceUnique(Hash64("@ + n.literal
        + "u, static_cast<unsigned int>(OperandKind::"@ + n.kind + ")),\""@ + n.name + "\");"@
}

/// The lines of the first `n` entries of a base table.
pub open spec fn base_table_lines(entries: Seq<(u64, OperandBasesView)>, n: nat) -> Seq<Seq<char>>
    decreases n,
{
    if n == 0 {
        Seq::empty()
    } else {
        base_table_lines(entries, (n - 1) as nat) + bases_lines(entries[n - 1].1)
    }
}

/// The lines of the first `n` entries of a parameter table.
pub open spec fn parameter_table_lines(
    entries: Seq<(u64, OperandParametersView)>,
    n: nat,
) -> Seq<Seq<char>>
    decreases n,
{
    if n == 0 {
        Seq::empty()
    } else {
        parameter_table_lines(entries, (n - 1) as nat) + parameters_lines(entries[n - 1].1)
    }
}

/// The lines of the first `n` entries of an instruction table.
pub open spec fn instruction_table_lines(
    entries: Seq<(u64, InstructionInfoView)>,
    n: nat,
) -> Seq<Seq<char>>
    decreases n,
{
    if n == 0 {
        Seq::empty()
    } else {
        instruction_table_lines(entries, (n - 1) as nat) + instruction_lines(entries[n - 1].1)
    }
}

/// The lines of the entries of a name table.
pub open spec fn name_table_lines(entries: Seq<(u64, OperandNameView)>) -> Seq<Seq<char>> {
    Seq::new(entries.len(), |i: int| name_line(entries[i].1))
}

/// The line that opens the constructor, with the size of each table.
pub open spec fn constructor_line(instructions: nat, names: nat, parameters: nat, bases: nat) -> Seq<
    char,
> {
    "Grammar::Grammar(IAllocator* _pAllocator) : m_instructions(_pAllocator, "@ + decimal(
        instructions,
    ) + "u), m_operandNames(_pAllocator, "@ + decimal(names)
        + "u), m_operandParameters(_pAllocator, "@ + decimal(parameters)
        + "u), m_operandBases(_pAllocator, "@ + decimal(bases) + "u)"@
}

/// The lines before the entries of the tables.
pub open spec fn cpp_opening(instructions: nat, names: nat, parameters: nat, bases: nat) -> Seq<
    Seq<char>,
> {
    seq![
        "#include \"spvgentwo/Grammar.h\""@,
        "#include \"spvgentwo/Glsl.h\""@,
        "#include \"spvgentwo/OpenCl.h\""@,
        "using namespace spvgentwo;"@,
        ""@,
        constructor_line(instructions, names, parameters, bases),
        "{"@,
    ]
}

/// The lines after the entries of the tables: the bodies of the four queries.
pub open spec fn cpp_queries() -> Seq<Seq<char>> {
    seq![
        "};"@,
        "const Grammar::Instruction* Grammar::getInfo(unsigned int _opcode, Extension _extension) const"@,
        "{"@,
        "\treturn m_instructions.get(Hash64(_opcode, static_cast<unsigned int>(_extension)));"@,
        "};"@,
        "const char* Grammar::getOperandName(OperandKind _kind, unsigned int _literalValue) const"@,
        "{"@,
        "\tconst char** name = m_operandNames.get(Hash64(_literalValue, static_cast<unsigned int>(_kind)));"@,
        "\treturn name == nullptr ? nullptr : *name;"@,
        "};"@,
    ] + seq![
        "const Vector<Grammar::Operand>* Grammar::getOperandParameters(OperandKind _kind, unsigned int _literalValue) const"@,
        "{"@,
        "\treturn m_operandParameters.get(Hash64(static_cast<unsigned int>(_kind), _literalValue));"@,
        "};"@,
        "const Vector<Grammar::Operand>* Grammar::getOperandBases(OperandKind _kind) const"@,
        "{"@,
        "\treturn m_operandBases.get(_kind);"@,
        "};"@,
    ]
}

/// The definitions of four tables with the given entries: the bases, the
/// parameters, the instructions and the display names, in this order.
pub open spec fn tables_lines(
    instructions: Seq<(u64, InstructionInfoView)>,
    names: Seq<(u64, OperandNameView)>,
    parameters: Seq<(u64, OperandParametersView)>,
    bases: Seq<(u64, OperandBasesView)>,
) -> Seq<Seq<char>> {
    cpp_opening(instructions.len(), names.len(), parameters.len(), bases.len())
        + base_table_lines(bases, bases.len()) + parameter_table_lines(
        parameters,
        parameters.len(),
    ) + instruction_table_lines(instructions, instructions.len()) + name_table_lines(names)
        + cpp_queries()
}

/// The definitions of the tables compiled from a core grammar and its
/// extended instruction sets.
pub open spec fn grammar_cpp_lines(core: GrammarView, extended: Seq<GrammarView>) -> Seq<
    Seq<char>,
> {
    let kinds = core.kinds();
    tables_lines(
        unique_entries(instruction_entries(kinds, core.instructions, extended, extended.len())),
        unique_entries(name_entries(kinds, kinds.len())),
        unique_entries(parameter_entries(kinds, kinds.len())),
        unique_entries(base_entries(kinds, kinds.len())),
    )
}

/// The token of a quantifier in the target representation.
pub fn quantifier_str(q: Quantifier) -> (s: &'static str)
    ensures
        s@ == quantifier_text(q),
{
    match q {
        Quantifier::ExactlyOne => "Quantifier::One",
        Quantifier::ZeroOrOne => "Quantifier::ZeroOrOne",
        Quantifier::ZeroOrMany => "Quantifier::ZeroOrAny",
    }
}

/// Writes the line that reserves room in a collection, where there is one.
pub fn emit_reserve(out: &mut Vec<String>, target: &str, n: usize)
    ensures
        final(out).deep_view() == old(out).deep_view() + reserve_lines(target@, n as nat),
{
    let ghost start = out.deep_view();
    if n > 1 {
        let count = decimal_string(n as u64);
        push_line(out, join5("\t\t", target, ".reserve(", count.as_str(), "u);"));
    }
    assert(out.deep_view() =~= start + reserve_lines(target@, n as nat));
}

/// Writes the lines that fill a collection with operands.
pub fn emit_operands(out: &mut Vec<String>, target: &str, ops: &Vec<OperandInfo>)
    ensures
        final(out).deep_view() == old(out).deep_view() + operand_block(target@, ops.deep_view()),
{
    let ghost start = out.deep_view();
    let ghost view = ops.deep_view();
    emit_reserve(out, target, ops.len());
    let ghost base = out.deep_view();
    let ghost all = Seq::new(view.len(), |i: int| operand_line(target@, view[i]));
    proof {
        lemma_take_ends(base, all);
    }
    let mut i: usize = 0;
    while i < ops.len()
        invariant
            i <= ops.len(),
            view == ops.deep_view(),
            all == Seq::new(view.len(), |i: int| operand_line(target@, view[i])),
            out.deep_view() == base + all.take(i as int),
        decreases ops.len() - i,
    {
        assert(view[i as int] == ops@[i as int]@);
        let o = &ops[i];
        let mut line = String::from_str("\t\t");
        line.append(target);
        line.append(".emplace_back(OperandKind::");
        line.append(o.kind.as_str());
        line.append(", OperandCategory::");
        line.append(o.category.as_str());
        line.append(", \"");
        line.append(o.name.as_str());
        line.append("\", ");
        line.append(quantifier_str(o.quantifier));
        line.append(");");
        push_line(out, line);
        proof {
            lemma_take_push(base, all, i as int);
        }
        i += 1;
    }
    proof {
        lemma_take_ends(base, all);
    }
    assert(out.deep_view() =~= start + operand_block(target@, view));
}

/// Writes the lines that fill a collection with members of an enumeration.
pub fn emit_member_block(out: &mut Vec<String>, target: &str, scope: &str, names: &Vec<String>)
    ensures
        final(out).deep_view() == old(out).deep_view() + member_block(
            target@,
            scope@,
            names.deep_view(),
        ),
{
    let ghost start = out.deep_view();
    let ghost view = names.deep_view();
    emit_reserve(out, target, names.len());
    let ghost base = out.deep_view();
    let ghost all = Seq::new(view.len(), |i: int| member_line(target@, scope@, view[i]));
    proof {
        lemma_take_ends(base, all);
    }
    let mut i: usize = 0;
    while i < names.len()
        invariant
            i <= names.len(),
            view == names.deep_view(),
            all == Seq::new(view.len(), |i: int| member_line(target@, scope@, view[i])),
            out.deep_view() == base + all.take(i as int),
        decreases names.len() - i,
    {
        assert(view[i as int] == names@[i as int]@);
        let mut line = String::from_str("\t\t");
        line.append(target);
        line.append(".emplace_back(");
        line.append(scope);
        line.append(names[i].as_str());
        line.append(");");
        push_line(out, line);
        proof {
            lemma_take_push(base, all, i as int);
        }
        i += 1;
    }
    proof {
        lemma_take_ends(base, all);
    }
    assert(out.deep_view() =~= start + member_block(target@, scope@, view));
}

/// Builds the expression that adds an instruction to the instruction table.
pub fn emplace_expression(info: &InstructionInfo) -> (s: String)
    ensures
        s@ == instruction_emplace(info@),
{
    let opcode = decimal_string(info.opcode as u64);
    let namespace = decimal_string(info.namespace as u64);
    let version = decimal_string(info.version as u64);
    let mut s = String::from_str("m_instructions.emplaceUnique(Hash64(");
    s.append(opcode.as_str());
    s.append("u, ");
    s.append(namespace.as_str());
    s.append("u), Instruction{\"");
    s.append(info.name.as_str());
    s.append("\", _pAllocator, _pAllocator, _pAllocator, ");
    s.append(version.as_str());
    s.append("u})");
    s
}

/// Writes the lines of one instruction of the instruction table.
pub fn print_instruction(out: &mut Vec<String>, info: &InstructionInfo)
    ensures
        final(out).deep_view() == old(out).deep_view() + instruction_lines(info@),
{
    let ghost start = out.deep_view();
    let emplace = emplace_expression(info);
    if info.operands.len() > 0 || info.capabilities.len() > 0 || info.extensions.len() > 0 {
        push_text(out, "\t{");
        push_line(out, join3("\t\tauto& instr = ", emplace.as_str(), ".kv.value;"));
        emit_operands(out, "instr.operands", &info.operands);
        emit_member_block(out, "instr.capabilities", "spv::Capability::", &info.capabilities);
        emit_member_block(out, "instr.extensions", "spv::Extension::", &info.extensions);
        push_text(out, "\t}");
        assert(out.deep_view() =~= start + instruction_lines(info@));
    } else {
        push_line(out, join3("\t", emplace.as_str(), ";"));
        assert(out.deep_view() =~= start + instruction_lines(info@));
    }
}

/// Writes the lines of the bases of one composite kind.
pub fn emit_bases(out: &mut Vec<String>, entry: &OperandBases)
    ensures
        final(out).deep_view() == old(out).deep_view() + bases_lines(entry@),
{
    let ghost start = out.deep_view();
    push_text(out, "\t{");
    push_line(
        out,
        join3(
            "\t\tauto& bases = m_operandBases.emplaceUnique(OperandKind::",
            entry.kind.as_str(),
            ", _pAllocator).kv.value;",
        ),
    );
    emit_operands(out, "bases", &entry.bases);
    push_text(out, "\t}");
    assert(out.deep_view() =~= start + bases_lines(entry@));
}

/// Writes the lines of the parameters of one enumerant.
pub fn emit_parameters(out: &mut Vec<String>, entry: &OperandParameters)
    ensures
        final(out).deep_view() == old(out).deep_view() + parameters_lines(entry@),
{
    let ghost start = out.deep_view();
    push_text(out, "\t{");
    push_line(
        out,
        join5(
            "\t\tauto& parameters = m_operandParameters.emplaceUnique(Hash64(static_cast<unsigned int>(OperandKind::",
            entry.kind.as_str(),
            "), ",
            entry.literal.as_str(),
            "), _pAllocator).kv.value;",
        ),
    );
    emit_operands(out, "parameters", &entry.parameters);
    push_text(out, "\t}");
    assert(out.deep_view() =~= start + parameters_lines(entry@));
}

/// Builds the line of the display name of one enumerant.
pub fn name_entry_line(entry: &OperandName) -> (s: String)
    ensures
        s@ == name_line(entry@),
{
    let mut s = String::from_str("\tm_operandNames.emplaceUnique(Hash64(");
    s.append(entry.literal.as_str());
    s.append("u, static_cast<unsigned int>(OperandKind::");
    s.append(entry.kind.as_str());
    s.append(")),\"");
    s.append(entry.name.as_str());
    s.append("\");");
    s
}

/// Writes the entries of a base table.
pub fn emit_base_table(out: &mut Vec<String>, table: &Table<OperandBases>)
    requires
        table.wf(),
    ensures
        final(out).deep_view() == old(out).deep_view() + base_table_lines(
            table.entries(),
            table.entries().len(),
        ),
{
    let ghost start = out.deep_view();
    let ghost entries = table.entries();
    assert(start + base_table_lines(entries, 0) =~= start);
    let n = table.len();
    let mut i: usize = 0;
    while i < n
        invariant
            i <= n,
            n == entries.len(),
            table.wf(),
            entries == table.entries(),
            out.deep_view() == start + base_table_lines(entries, i as nat),
        decreases n - i,
    {
        emit_bases(out, table.value_at(i));
        assert(start + base_table_lines(entries, i as nat) + bases_lines(entries[i as int].1)
            =~= start + base_table_lines(entries, (i + 1) as nat));
        i += 1;
    }
}

/// Writes the entries of a parameter table.
pub fn emit_parameter_table(out: &mut Vec<String>, table: &Table<OperandParameters>)
    requires
        table.wf(),
    ensures
        final(out).deep_view() == old(out).deep_view() + parameter_table_lines(
            table.entries(),
            table.entries().len(),
        ),
{
    let ghost start = out.deep_view();
    let ghost entries = table.entries();
    assert(start + parameter_table_lines(entries, 0) =~= start);
    let n = table.len();
    let mut i: usize = 0;
    while i < n
        invariant
            i <= n,
            n == entries.len(),
            table.wf(),
            entries == table.entries(),
            out.deep_view() == start + parameter_table_lines(entries, i as nat),
        decreases n - i,
    {
        emit_parameters(out, table.value_at(i));
        assert(start + parameter_table_lines(entries, i as nat) + parameters_lines(
            entries[i as int].1,
        ) =~= start + parameter_table_lines(entries, (i + 1) as nat));
        i += 1;
    }
}

/// Writes the entries of an instruction table.
pub fn emit_instruction_table(out: &mut Vec<String>, table: &Table<InstructionInfo>)
    requires
        table.wf(),
    ensures
        final(out).deep_view() == old(out).deep_view() + instruction_table_lines(
            table.entries(),
            table.entries().len(),
        ),
{
    let ghost start = out.deep_view();
    let ghost entries = table.entries();
    assert(start + instruction_table_lines(entries, 0) =~= start);
    let n = table.len();
    let mut i: usize = 0;
    while i < n
        invariant
            i <= n,
            n == entries.len(),
            table.wf(),
            entries == table.entries(),
            out.deep_view() == start + instruction_table_lines(entries, i as nat),
        decreases n - i,
    {
        print_instruction(out, table.value_at(i));
        assert(start + instruction_table_lines(entries, i as nat) + instruction_lines(
            entries[i as int].1,
        ) =~= start + instruction_table_lines(entries, (i + 1) as nat));
        i += 1;
    }
}

/// Writes the entries of a name table.
pub fn emit_name_table(out: &mut Vec<String>, table: &Table<OperandName>)
    requires
        table.wf(),
    ensures
        final(out).deep_view() == old(out).deep_view() + name_table_lines(table.entries()),
{
    let ghost base = out.deep_view();
    let ghost entries = table.entries();
    let ghost all = name_table_lines(entries);
    proof {
        lemma_take_ends(base, all);
    }
    let n = table.len();
    let mut i: usize = 0;
    while i < n
        invariant
            i <= n,
            n == entries.len(),
            table.wf(),
            entries == table.entries(),
            all == name_table_lines(entries),
            out.deep_view() == base + all.take(i as int),
        decreases n - i,
    {
        push_line(out, name_entry_line(table.value_at(i)));
        proof {
            lemma_take_push(base, all, i as int);
        }
        i += 1;
    }
    proof {
        lemma_take_ends(base, all);
    }
}

/// Writes the lines before the entries of the tables.
pub fn emit_cpp_opening(
    out: &mut Vec<String>,
    instructions: usize,
    names: usize,
    parameters: usize,
    bases: usize,
)
    ensures
        final(out).deep_view() == old(out).deep_view() + cpp_opening(
            instructions as nat,
            names as nat,
            parameters as nat,
            bases as nat,
        ),
{
    let ghost start = out.deep_view();
    push_text(out, "#include \"spvgentwo/Grammar.h\"");
    push_text(out, "#include \"spvgentwo/Glsl.h\"");
    push_text(out, "#include \"spvgentwo/OpenCl.h\"");
    push_text(out, "using namespace spvgentwo;");
    push_text(out, "");
    let a = decimal_string(instructions as u64);
    let b = decimal_string(names as u64);
    let c = decimal_string(parameters as u64);
    let d = decimal_string(bases as u64);
    let mut line = String::from_str(
        "Grammar::Grammar(IAllocator* _pAllocator) : m_instructions(_pAllocator, ",
    );
    line.append(a.as_str());
    line.append("u), m_operandNames(_pAllocator, ");
    line.append(b.as_str());
    line.append("u), m_operandParameters(_pAllocator, ");
    line.append(c.as_str());
    line.append("u), m_operandBases(_pAllocator, ");
    line.append(d.as_str());
    line.append("u)");
    push_line(out, line);
    push_text(out, "{");
    assert(out.deep_view() =~= start + cpp_opening(
        instructions as nat,
        names as nat,
        parameters as nat,
        bases as nat,
    ));
}

/// Writes the bodies of the four queries.
pub fn emit_cpp_queries(out: &mut Vec<String>)
    ensures
        final(out).deep_view() == old(out).deep_view() + cpp_queries(),
{
    let ghost start = out.deep_view();
    push_text(out, "};");
    push_text(
        out,
        "const Grammar::Instruction* Grammar::getInfo(unsigned int _opcode, Extension _extension) const",
    );
    push_text(out, "{");
    push_text(
        out,
        "\treturn m_instructions.get(Hash64(_opcode, static_cast<unsigned int>(_extension)));",
    );
    push_text(out, "};");
    push_text(
        out,
        "const char* Grammar::getOperandName(OperandKind _kind, unsigned int _literalValue) const",
    );
    push_text(out, "{");
    push_text(
        out,
        "\tconst char** name = m_operandNames.get(Hash64(_literalValue, static_cast<unsigned int>(_kind)));",
    );
    push_text(out, "\treturn name == nullptr ? nullptr : *name;");
    push_text(out, "};");
    let ghost first = seq![
        "};"@,
        "const Grammar::Instruction* Grammar::getInfo(unsigned int _opcode, Extension _extension) const"@,
        "{"@,
        "\treturn m_instructions.get(Hash64(_opcode, static_cast<unsigned int>(_extension)));"@,
        "};"@,
        "const char* Grammar::getOperandName(OperandKind _kind, unsigned int _literalValue) const"@,
        "{"@,
        "\tconst char** name = m_operandNames.get(Hash64(_literalValue, static_cast<unsigned int>(_kind)));"@,
        "\treturn name == nullptr ? nullptr : *name;"@,
        "};"@,
    ];
    assert(out.deep_view() =~= start + first);
    push_text(
        out,
        "const Vector<Grammar::Operand>* Grammar::getOperandParameters(OperandKind _kind, unsigned int _literalValue) const",
    );
    push_text(out, "{");
    push_text(
        out,
        "\treturn m_operandParameters.get(Hash64(static_cast<unsigned int>(_kind), _literalValue));",
    );
    push_text(out, "};");
    push_text(
        out,
        "const Vector<Grammar::Operand>* Grammar::getOperandBases(OperandKind _kind) const",
    );
    push_text(out, "{");
    push_text(out, "\treturn m_operandBases.get(_kind);");
    push_text(out, "};");
    assert(out.deep_view() =~= start + cpp_queries());
}

/// Renders the definitions of compiled tables.
pub fn emit_tables(tables: &Tables) -> (lines: Vec<String>)
    requires
        tables.wf(),
    ensures
        lines.deep_view() == tables_lines(
            tables.instructions.entries(),
            tables.operand_names.entries(),
            tables.operand_parameters.entries(),
            tables.operand_bases.entries(),
        ),
{
    let mut out: Vec<String> = Vec::new();
    assert(out.deep_view() =~= Seq::<Seq<char>>::empty());
    emit_cpp_opening(
        &mut out,
        tables.instructions.len(),
        tables.operand_names.len(),
        tables.operand_parameters.len(),
        tables.operand_bases.len(),
    );
    emit_base_table(&mut out, &tables.operand_bases);
    emit_parameter_table(&mut out, &tables.operand_parameters);
    emit_instruction_table(&mut out, &tables.instructions);
    emit_name_table(&mut out, &tables.operand_names);
    emit_cpp_queries(&mut out);
    assert(out.deep_view() =~= tables_lines(
        tables.instructions.entries(),
        tables.operand_names.entries(),
        tables.operand_parameters.entries(),
        tables.operand_bases.entries(),
    ));
    out
}

/// Compiles the tables of a core grammar and its extended instruction sets
/// and renders their definitions, or reports the fault that forbids it.
pub fn grammar_cpp(spv: &Grammar, extended: &Vec<Grammar>) -> (r: Result<Vec<String>, GrammarError>)
    ensures
        match r {
            Ok(lines) => grammar_fault(spv@, extended.deep_view()) is None && lines.deep_view()
                == grammar_cpp_lines(spv@, extended.deep_view()),
            Err(e) => grammar_fault(spv@, extended.deep_view()) == Some(e),
        },
{
    match compile_tables(spv, extended) {
        Ok(tables) => Ok(emit_tables(&tables)),
        Err(e) => Err(e),
    }
}

} // verus!
