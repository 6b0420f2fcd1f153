//! Primitive definitions: the enumerations of a grammar, its opcode and
//! extension enumerations, and the classification predicates, as lines of
//! the target representation.

use crate::canon::{canonical_instructions, canonical_positions};
use crate::classify::{
    exceptions, has_operand, has_operand_of_kind, list_exceptions, predicate_default, Predicate,
};
use crate::emit::{join2, join3, join7, lemma_take_ends, lemma_take_push, push_line, push_text};
use crate::enums::{
    build_kind_enums, emit_enum, emit_enums, enum_lines, enums_lines, kind_enums, EnumDecl,
    EnumDeclView, EnumEntry, EnumEntryView,
};
use crate::registry::{grammar_registry, registry_of, ExtensionRegistry};
use crate::schema::{Grammar, GrammarView, Instruction, InstructionView, OperandKind, OperandKindView};
use crate::text::{decimal, decimal_string};
use crate::version::{pack, pack_version};
use vstd::prelude::*;
use vstd::string::StringExecFns;

verus! {

/// The extended instruction sets that have a namespace of their own.
#[derive(Debug, Clone, Copy, PartialEq, Eq, Structural)]
pub enum Extension {
    GlslStd450,
    OpenCl100,
}

/// The name of the namespace of an extended instruction set.
pub open spec fn extension_namespace(ext: Extension) -> Seq<char> {
    match ext {
        Extension::GlslStd450 => "glslstd450"@,
        Extension::OpenCl100 => "opencl100"@,
    }
}

impl Extension {
    /// The name of the namespace of this instruction set.
    pub fn namespace(&self) -> (s: &'static str)
        ensures
            s@ == extension_namespace(*self),
    {
        match self {
            Extension::GlslStd450 => "glslstd450",
            Extension::OpenCl100 => "opencl100",
        }
    }
}

/// The copyright lines as comments.
pub open spec fn comment_lines(lines: Seq<Seq<char>>) -> Seq<Seq<char>> {
    Seq::new(lines.len(), |i: int| "// "@ + lines[i])
}

/// The magic number of a core grammar as written, or the usual one where the
/// grammar gives none.
pub open spec fn magic_text(g: GrammarView) -> Seq<char> {
    match g.magic_number {
        Some(m) => m,
        None => "0x07230203"@,
    }
}

/// The version of a core grammar, packed; a half that is absent counts as zero.
pub open spec fn core_version(g: GrammarView) -> u32 {
    pack_version(
        match g.major_version {
            Some(v) => v,
            None => 0,
        },
        match g.minor_version {
            Some(v) => v,
            None => 0,
        },
    )
}

/// The version of an extended instruction set; zero where it is absent.
pub open spec fn extended_version(g: GrammarView) -> u32 {
    match g.version {
        Some(v) => v,
        None => 0,
    }
}

/// The line of a named unsigned constant.
pub open spec fn constant_line(name: Seq<char>, value: Seq<char>) -> Seq<char> {
    "\tstatic constexpr unsigned int "@ + name + " = "@ + value + ";"@
}

/// The lines that open the definitions of a core grammar.
pub open spec fn core_preamble(g: GrammarView) -> Seq<Seq<char>> {
    seq![
        "#pragma once"@,
        ""@,
        "namespace spvgentwo::spv"@,
        "{"@,
        "\tusing Id = unsigned int;"@,
        constant_line("MagicNumber"@, magic_text(g)),
        constant_line("Version"@, decimal(core_version(g) as nat)),
        constant_line("Revision"@, decimal(g.revision as nat)),
        "\tstatic constexpr unsigned int OpCodeMask = 0xffff;"@,
        "\tstatic constexpr unsigned int WordCountShift = 16;"@,
    ]
}

/// The lines that open the definitions of an extended instruction set.
pub open spec fn extended_preamble(g: GrammarView, ext: Extension) -> Seq<Seq<char>> {
    seq![
        "#pragma once"@,
        ""@,
        "namespace spvgentwo::"@ + extension_namespace(ext),
        "{"@,
        constant_line("Version"@, decimal(extended_version(g) as nat)),
        constant_line("Revision"@, decimal(g.revision as nat)),
    ]
}

/// The lines of the enumerations of the first `n` kinds.
pub open spec fn kinds_enum_lines(kinds: Seq<OperandKindView>, n: nat) -> Seq<Seq<char>>
    decreases n,
{
    if n == 0 {
        Seq::empty()
    } else {
        kinds_enum_lines(kinds, (n - 1) as nat) + enums_lines(
            kind_enums(kinds[n - 1]),
            kind_enums(kinds[n - 1]).len(),
        )
    }
}

/// The opcode enumeration: every instruction in document order, under its
/// own name, with its opcode in decimal.
pub open spec fn op_enum(instrs: Seq<InstructionView>) -> EnumDeclView {
    EnumDeclView {
        name: "Op"@,
        entries: Seq::new(
            instrs.len(),
            |i: int| EnumEntryView { symbol: instrs[i].opname, value: decimal(instrs[i].opcode as nat) },
        ),
        sentinel: true,
    }
}

/// The extension enumeration: every name of the registry with its dense index.
pub open spec fn extension_enum(names: Seq<Seq<char>>) -> EnumDeclView {
    EnumDeclView {
        name: "Extension"@,
        entries: Seq::new(
            names.len(),
            |i: int| EnumEntryView { symbol: names[i], value: decimal(i as nat) },
        ),
        sentinel: true,
    }
}

/// The lines of the array of extension names.
pub open spec fn extension_name_lines(names: Seq<Seq<char>>) -> Seq<Seq<char>> {
    seq!["\tstatic constexpr const char* ExtensionNames[] ="@, "\t{"@] + Seq::new(
        names.len(),
        |i: int| "\t\t\""@ + names[i] + "\","@,
    ) + seq!["\t};"@]
}

/// The text of a truth value.
pub open spec fn bool_text(b: bool) -> Seq<char> {
    if b {
        "true"@
    } else {
        "false"@
    }
}

/// Whether an instruction has a result id or a result-type id.
pub open spec fn has_any_result(i: InstructionView) -> bool {
    has_operand_of_kind(i, "IdResult"@) || has_operand_of_kind(i, "IdResultType"@)
}

/// Of the first `n` entries of an order, those that point at an instruction
/// with a result id or a result-type id.
pub open spec fn result_cases(instrs: Seq<InstructionView>, order: Seq<usize>, n: nat) -> Seq<
    usize,
>
    decreases n,
{
    if n == 0 {
        Seq::empty()
    } else {
        let before = result_cases(instrs, order, (n - 1) as nat);
        if has_any_result(instrs[order[n - 1] as int]) {
            before.push(order[n - 1])
        } else {
            before
        }
    }
}

/// The case that tells both result flags of an instruction.
pub open spec fn result_case_line(i: InstructionView) -> Seq<char> {
    "\t\tcase Op::"@ + i.opname + ": *hasResult = "@ + bool_text(
        has_operand_of_kind(i, "IdResult"@),
    ) + "; *hasResultType = "@ + bool_text(has_operand_of_kind(i, "IdResultType"@)) + "; break;"@
}

/// The lines of the function that tells both result flags at once: a case for
/// every canonical instruction that has either, in ascending opcode order.
pub open spec fn result_switch_lines(instrs: Seq<InstructionView>) -> Seq<Seq<char>> {
    let order = canonical_positions(instrs);
    let picks = result_cases(instrs, order, order.len());
    seq![
        "\tinline void HasResultAndType(Op opcode, bool *hasResult, bool *hasResultType) {"@,
        "\t\t*hasResult = *hasResultType = false;"@,
        "\t\tswitch (opcode) {"@,
        "\t\tdefault: /* unknown opcode */ break;"@,
    ] + Seq::new(picks.len(), |j: int| result_case_line(instrs[picks[j] as int])) + seq![
        "\t\t}"@,
        "\t}"@,
    ]
}

/// The lines that open the function of a predicate, its default included.
pub open spec fn switch_head(p: Predicate) -> Seq<Seq<char>> {
    match p {
        Predicate::HasResult => seq![
            "\tinline constexpr bool HasResult(Op opcode) {"@,
            "\t\tswitch (opcode) {"@,
            "\t\tdefault: return true; // majority of instructions has a result"@,
        ],
        Predicate::HasResultType => seq![
            "\tinline constexpr bool HasResultType(Op opcode) {"@,
            "\t\tswitch (opcode) {"@,
            "\t\tdefault: return true; // majority of instructions has a result type"@,
        ],
        Predicate::IsTypeOp => seq![
            "\tinline constexpr bool IsTypeOp(Op opcode) {"@,
            "\t\tswitch (opcode) {"@,
            "\t\tdefault: return false; // majority of instructions are not types"@,
        ],
        Predicate::IsConstantOp => seq![
            "\tinline constexpr bool IsConstantOp(Op opcode) {"@,
            "\t\tswitch (opcode) {"@,
            "\t\tdefault: return false; // majority of instructions are not constants"@,
        ],
        Predicate::IsSpecConstantOp => seq![
            "\tinline constexpr bool IsSpecConstantOp(Op opcode) {"@,
            "\t\tswitch (opcode) {"@,
            "\t\tdefault: return false; // majority of instructions are not spec constants"@,
        ],
    }
}

/// The case of an instruction that is an exception to the default of a predicate.
pub open spec fn case_line(p: Predicate, name: Seq<char>) -> Seq<char> {
    "\t\tcase Op::"@ + name + (if predicate_default(p) {
        ": return false;"@
    } else {
        ": return true;"@
    })
}

/// The lines of the function of a predicate: a case for every canonical
/// instruction that is an exception to the default, in ascending opcode order.
pub open spec fn switch_lines(p: Predicate, instrs: Seq<InstructionView>) -> Seq<Seq<char>> {
    let order = canonical_positions(instrs);
    let picks = exceptions(p, instrs, order, order.len());
    switch_head(p) + Seq::new(picks.len(), |j: int| case_line(p, instrs[picks[j] as int].opname))
        + seq!["\t\t}"@, "\t}"@]
}

/// The lines of the six classification functions.
pub open spec fn predicate_lines(instrs: Seq<InstructionView>) -> Seq<Seq<char>> {
    result_switch_lines(instrs) + switch_lines(Predicate::HasResult, instrs) + switch_lines(
        Predicate::HasResultType,
        instrs,
    ) + switch_lines(Predicate::IsTypeOp, instrs) + switch_lines(Predicate::IsConstantOp, instrs)
        + switch_lines(Predicate::IsSpecConstantOp, instrs)
}

/// The primitive definitions of a core grammar.
pub open spec fn spv_defs_lines(g: GrammarView) -> Seq<Seq<char>> {
    comment_lines(g.copyright) + core_preamble(g) + kinds_enum_lines(g.kinds(), g.kinds().len())
        + enum_lines(op_enum(g.instructions)) + enum_lines(extension_enum(registry_of(seq![g])))
        + extension_name_lines(registry_of(seq![g])) + predicate_lines(g.instructions)
        + seq!["} // spvgentwo::spv"@]
}

/// The primitive definitions of an extended instruction set.
pub open spec fn ext_defs_lines(g: GrammarView, ext: Extension) -> Seq<Seq<char>> {
    comment_lines(g.copyright) + extended_preamble(g, ext) + enum_lines(op_enum(g.instructions))
        + seq!["} // spvgentwo::"@ + extension_namespace(ext)]
}

/// Writes the copyright lines as comments.
pub fn emit_comments(out: &mut Vec<String>, lines: &Vec<String>)
    ensures
        final(out).deep_view() == old(out).deep_view() + comment_lines(lines.deep_view()),
{
    let ghost base = out.deep_view();
    let ghost all = comment_lines(lines.deep_view());
    proof {
        lemma_take_ends(base, all);
    }
    let mut i: usize = 0;
    while i < lines.len()
        invariant
            i <= lines.len(),
            all == comment_lines(lines.deep_view()),
            all.len() == lines.len(),
            out.deep_view() == base + all.take(i as int),
        decreases lines.len() - i,
    {
        assert(lines.deep_view()[i as int] == lines@[i as int]@);
        push_line(out, join2("// ", lines[i].as_str()));
        proof {
            lemma_take_push(base, all, i as int);
        }
        i += 1;
    }
    proof {
        lemma_take_ends(base, all);
    }
}

/// Builds the line of a named unsigned constant.
pub fn constant(name: &str, value: &str) -> (s: String)
    ensures
        s@ == constant_line(name@, value@),
{
    let mut s = String::from_str("\tstatic constexpr unsigned int ");
    s.append(name);
    s.append(" = ");
    s.append(value);
    s.append(";");
    s
}

/// Writes the lines that open the definitions of a core grammar.
pub fn emit_core_preamble(out: &mut Vec<String>, g: &Grammar)
    ensures
        final(out).deep_view() == old(out).deep_view() + core_preamble(g@),
{
    let ghost start = out.deep_view();
    push_text(out, "#pragma once");
    push_text(out, "");
    push_text(out, "namespace spvgentwo::spv");
    push_text(out, "{");
    push_text(out, "\tusing Id = unsigned int;");
    match &g.magic_number {
        Some(m) => {
            push_line(out, constant("MagicNumber", m.as_str()));
        },
        None => {
            push_line(out, constant("MagicNumber", "0x07230203"));
        },
    }
    let major: u32 = match g.major_version {
        Some(v) => v,
        None => 0,
    };
    let minor: u32 = match g.minor_version {
        Some(v) => v,
        None => 0,
    };
    let version = decimal_string(pack(major, minor) as u64);
    push_line(out, constant("Version", version.as_str()));
    let revision = decimal_string(g.revision as u64);
    push_line(out, constant("Revision", revision.as_str()));
    push_text(out, "\tstatic constexpr unsigned int OpCodeMask = 0xffff;");
    push_text(out, "\tstatic constexpr unsigned int WordCountShift = 16;");
    assert(out.deep_view() =~= start + core_preamble(g@));
}

/// Writes the lines that open the definitions of an extended instruction set.
pub fn emit_extended_preamble(out: &mut Vec<String>, g: &Grammar, ext: Extension)
    ensures
        final(out).deep_view() == old(out).deep_view() + extended_preamble(g@, ext),
{
    let ghost start = out.deep_view();
    push_text(out, "#pragma once");
    push_text(out, "");
    push_line(out, join2("namespace spvgentwo::", ext.namespace()));
    push_text(out, "{");
    let number: u32 = match g.version {
        Some(v) => v,
        None => 0,
    };
    let version = decimal_string(number as u64);
    push_line(out, constant("Version", version.as_str()));
    let revision = decimal_string(g.revision as u64);
    push_line(out, constant("Revision", revision.as_str()));
    assert(out.deep_view() =~= start + extended_preamble(g@, ext));
}

/// Writes the enumerations of every kind of a list.
pub fn emit_kind_enums(out: &mut Vec<String>, kinds: &Vec<OperandKind>)
    ensures
        final(out).deep_view() == old(out).deep_view() + kinds_enum_lines(
            kinds.deep_view(),
            kinds.len() as nat,
        ),
{
    let ghost start = out.deep_view();
    let ghost view = kinds.deep_view();
    assert(start + kinds_enum_lines(view, 0) =~= start);
    let mut k: usize = 0;
    while k < kinds.len()
        invariant
            k <= kinds.len(),
            view == kinds.deep_view(),
            out.deep_view() == start + kinds_enum_lines(view, k as nat),
        decreases kinds.len() - k,
    {
        assert(view[k as int] == kinds@[k as int]@);
        let ds = build_kind_enums(&kinds[k]);
        emit_enums(out, &ds);
        assert(start + kinds_enum_lines(view, k as nat) + enums_lines(
            kind_enums(view[k as int]),
            kind_enums(view[k as int]).len(),
        ) =~= start + kinds_enum_lines(view, (k + 1) as nat));
        k += 1;
    }
}

/// Builds the opcode enumeration.
pub fn build_op_enum(instrs: &Vec<Instruction>) -> (d: EnumDecl)
    ensures
        d@ == op_enum(instrs.deep_view()),
{
    let ghost view = instrs.deep_view();
    let mut entries: Vec<EnumEntry> = Vec::new();
    let mut i: usize = 0;
    while i < instrs.len()
        invariant
            i <= instrs.len(),
            view == instrs.deep_view(),
            entries.len() == i,
            forall|j: int|
                0 <= j < i ==> (#[trigger] entries@[j])@ == op_enum(view).entries[j],
        decreases instrs.len() - i,
    {
        assert(view[i as int] == instrs@[i as int]@);
        entries.push(
            EnumEntry {
                symbol: instrs[i].opname.clone(),
                value: decimal_string(instrs[i].opcode as u64),
            },
        );
        i += 1;
    }
    assert(entries.deep_view() =~= op_enum(view).entries);
    EnumDecl { name: String::from_str("Op"), entries, sentinel: true }
}

/// Builds the extension enumeration.
pub fn build_extension_enum(registry: &ExtensionRegistry) -> (d: EnumDecl)
    ensures
        d@ == extension_enum(registry@),
{
    let mut entries: Vec<EnumEntry> = Vec::new();
    let mut i: usize = 0;
    while i < registry.len()
        invariant
            i <= registry@.len(),
            entries.len() == i,
            forall|j: int|
                0 <= j < i ==> (#[trigger] entries@[j])@ == extension_enum(registry@).entries[j],
        decreases registry@.len() - i,
    {
        entries.push(
            EnumEntry { symbol: registry.name(i).clone(), value: decimal_string(i as u64) },
        );
        i += 1;
    }
    assert(entries.deep_view() =~= extension_enum(registry@).entries);
    EnumDecl { name: String::from_str("Extension"), entries, sentinel: true }
}

/// Writes the array of extension names.
pub fn emit_extension_names(out: &mut Vec<String>, registry: &ExtensionRegistry)
    ensures
        final(out).deep_view() == old(out).deep_view() + extension_name_lines(registry@),
{
    let ghost start = out.deep_view();
    push_text(out, "\tstatic constexpr const char* ExtensionNames[] =");
    push_text(out, "\t{");
    let ghost base = out.deep_view();
    let ghost all = Seq::new(registry@.len(), |i: int| "\t\t\""@ + registry@[i] + "\","@);
    proof {
        lemma_take_ends(base, all);
    }
    let mut i: usize = 0;
    while i < registry.len()
        invariant
            i <= registry@.len(),
            all == Seq::new(registry@.len(), |i: int| "\t\t\""@ + registry@[i] + "\","@),
            out.deep_view() == base + all.take(i as int),
        decreases registry@.len() - i,
    {
        push_line(out, join3("\t\t\"", registry.name(i).as_str(), "\","));
        proof {
            lemma_take_push(base, all, i as int);
        }
        i += 1;
    }
    proof {
        lemma_take_ends(base, all);
    }
    push_text(out, "\t};");
    assert(out.deep_view() =~= start + extension_name_lines(registry@));
}

/// The text of a truth value.
pub fn bool_str(b: bool) -> (s: &'static str)
    ensures
        s@ == bool_text(b),
{
    if b {
        "true"
    } else {
        "false"
    }
}

/// Lists, in the given order, the entries that point at an instruction with
/// a result id or a result-type id.
pub fn list_result_cases(instrs: &Vec<Instruction>, order: &Vec<usize>) -> (r: Vec<usize>)
    requires
        forall|j: int| 0 <= j < order.len() ==> (#[trigger] order@[j]) < instrs.len(),
    ensures
        r@ == result_cases(instrs.deep_view(), order@, order.len() as nat),
        forall|j: int| 0 <= j < r.len() ==> (#[trigger] r@[j]) < instrs.len(),
{
    let ghost view = instrs.deep_view();
    let mut r: Vec<usize> = Vec::new();
    let mut n: usize = 0;
    while n < order.len()
        invariant
            n <= order.len(),
            view == instrs.deep_view(),
            forall|j: int| 0 <= j < order.len() ==> (#[trigger] order@[j]) < instrs.len(),
            r@ == result_cases(view, order@, n as nat),
            forall|j: int| 0 <= j < r.len() ==> (#[trigger] r@[j]) < instrs.len(),
        decreases order.len() - n,
    {
        let at = order[n];
        assert(view[at as int] == instrs@[at as int]@);
        if has_operand(&instrs[at], "IdResult") || has_operand(&instrs[at], "IdResultType") {
            r.push(at);
        }
        n += 1;
    }
    r
}

/// Writes the function that tells both result flags at once.
pub fn emit_result_switch(out: &mut Vec<String>, instrs: &Vec<Instruction>, order: &Vec<usize>)
    requires
        order@ == canonical_positions(instrs.deep_view()),
        forall|j: int| 0 <= j < order.len() ==> (#[trigger] order@[j]) < instrs.len(),
    ensures
        final(out).deep_view() == old(out).deep_view() + result_switch_lines(instrs.deep_view()),
{
    let ghost start = out.deep_view();
    let ghost view = instrs.deep_view();
    push_text(
        out,
        "\tinline void HasResultAndType(Op opcode, bool *hasResult, bool *hasResultType) {",
    );
    push_text(out, "\t\t*hasResult = *hasResultType = false;");
    push_text(out, "\t\tswitch (opcode) {");
    push_text(out, "\t\tdefault: /* unknown opcode */ break;");
    let picks = list_result_cases(instrs, order);
    let ghost base = out.deep_view();
    let ghost all = Seq::new(picks@.len(), |j: int| result_case_line(view[picks@[j] as int]));
    proof {
        lemma_take_ends(base, all);
    }
    let mut j: usize = 0;
    while j < picks.len()
        invariant
            j <= picks.len(),
            view == instrs.deep_view(),
            forall|x: int| 0 <= x < picks.len() ==> (#[trigger] picks@[x]) < instrs.len(),
            all == Seq::new(picks@.len(), |j: int| result_case_line(view[picks@[j] as int])),
            out.deep_view() == base + all.take(j as int),
        decreases picks.len() - j,
    {
        let at = picks[j];
        assert(view[at as int] == instrs@[at as int]@);
        let result = has_operand(&instrs[at], "IdResult");
        let typed = has_operand(&instrs[at], "IdResultType");
        push_line(
            out,
            join7(
                "\t\tcase Op::",
                instrs[at].opname.as_str(),
                ": *hasResult = ",
                bool_str(result),
                "; *hasResultType = ",
                bool_str(typed),
                "; break;",
            ),
        );
        proof {
            lemma_take_push(base, all, j as int);
        }
        j += 1;
    }
    proof {
        lemma_take_ends(base, all);
    }
    push_text(out, "\t\t}");
    push_text(out, "\t}");
    assert(out.deep_view() =~= start + result_switch_lines(view));
}

/// Writes the lines that open the function of a predicate.
pub fn emit_switch_head(out: &mut Vec<String>, p: Predicate)
    ensures
        final(out).deep_view() == old(out).deep_view() + switch_head(p),
{
    let ghost start = out.deep_view();
    match p {
        Predicate::HasResult => {
            push_text(out, "\tinline constexpr bool HasResult(Op opcode) {");
            push_text(out, "\t\tswitch (opcode) {");
            push_text(out, "\t\tdefault: return true; // majority of instructions has a result");
        },
        Predicate::HasResultType => {
            push_text(out, "\tinline constexpr bool HasResultType(Op opcode) {");
            push_text(out, "\t\tswitch (opcode) {");
            push_text(
                out,
                "\t\tdefault: return true; // majority of instructions has a result type",
            );
        },
        Predicate::IsTypeOp => {
            push_text(out, "\tinline constexpr bool IsTypeOp(Op opcode) {");
            push_text(out, "\t\tswitch (opcode) {");
            push_text(out, "\t\tdefault: return false; // majority of instructions are not types");
        },
        Predicate::IsConstantOp => {
            push_text(out, "\tinline constexpr bool IsConstantOp(Op opcode) {");
            push_text(out, "\t\tswitch (opcode) {");
            push_text(
                out,
                "\t\tdefault: return false; // majority of instructions are not constants",
            );
        },
        Predicate::IsSpecConstantOp => {
            push_text(out, "\tinline constexpr bool IsSpecConstantOp(Op opcode) {");
            push_text(out, "\t\tswitch (opcode) {");
            push_text(
                out,
                "\t\tdefault: return false; // majority of instructions are not spec constants",
            );
        },
    }
    assert(out.deep_view() =~= start + switch_head(p));
}

/// Writes the function of a predicate.
pub fn emit_switch(
    out: &mut Vec<String>,
    p: Predicate,
    instrs: &Vec<Instruction>,
    order: &Vec<usize>,
)
    requires
        order@ == canonical_positions(instrs.deep_view()),
        forall|j: int| 0 <= j < order.len() ==> (#[trigger] order@[j]) < instrs.len(),
    ensures
        final(out).deep_view() == old(out).deep_view() + switch_lines(p, instrs.deep_view()),
{
    let ghost start = out.deep_view();
    let ghost view = instrs.deep_view();
    emit_switch_head(out, p);
    let picks = list_exceptions(p, instrs, order);
    let ghost base = out.deep_view();
    let ghost all = Seq::new(picks@.len(), |j: int| case_line(p, view[picks@[j] as int].opname));
    proof {
        lemma_take_ends(base, all);
    }
    let tail = match p {
        Predicate::HasResult => ": return false;",
        Predicate::HasResultType => ": return false;",
        Predicate::IsTypeOp => ": return true;",
        Predicate::IsConstantOp => ": return true;",
        Predicate::IsSpecConstantOp => ": return true;",
    };
    let mut j: usize = 0;
    while j < picks.len()
        invariant
            j <= picks.len(),
            view == instrs.deep_view(),
            forall|x: int| 0 <= x < picks.len() ==> (#[trigger] picks@[x]) < instrs.len(),
            all == Seq::new(picks@.len(), |j: int| case_line(p, view[picks@[j] as int].opname)),
            tail@ == (if predicate_default(p) {
                ": return false;"@
            } else {
                ": return true;"@
            }),
            out.deep_view() == base + all.take(j as int),
        decreases picks.len() - j,
    {
        let at = picks[j];
        assert(view[at as int] == instrs@[at as int]@);
        push_line(out, join3("\t\tcase Op::", instrs[at].opname.as_str(), tail));
        proof {
            lemma_take_push(base, all, j as int);
        }
        j += 1;
    }
    proof {
        lemma_take_ends(base, all);
    }
    push_text(out, "\t\t}");
    push_text(out, "\t}");
    assert(out.deep_view() =~= start + switch_lines(p, view));
}

/// Writes the six classification functions.
pub fn emit_predicates(out: &mut Vec<String>, instrs: &Vec<Instruction>)
    ensures
        final(out).deep_view() == old(out).deep_view() + predicate_lines(instrs.deep_view()),
{
    let ghost start = out.deep_view();
    let order = canonical_instructions(instrs);
    emit_result_switch(out, instrs, &order);
    emit_switch(out, Predicate::HasResult, instrs, &order);
    emit_switch(out, Predicate::HasResultType, instrs, &order);
    emit_switch(out, Predicate::IsTypeOp, instrs, &order);
    emit_switch(out, Predicate::IsConstantOp, instrs, &order);
    emit_switch(out, Predicate::IsSpecConstantOp, instrs, &order);
    assert(out.deep_view() =~= start + predicate_lines(instrs.deep_view()));
}

/// Renders the primitive definitions of a core grammar, given with its
/// operand kinds.
pub fn spv_defs_with(kinds: &Vec<OperandKind>, spv: &Grammar) -> (lines: Vec<String>)
    requires
        kinds.deep_view() == spv@.kinds(),
    ensures
        lines.deep_view() == spv_defs_lines(spv@),
{
    let mut out: Vec<String> = Vec::new();
    assert(out.deep_view() =~= Seq::<Seq<char>>::empty());
    emit_comments(&mut out, &spv.copyright);
    emit_core_preamble(&mut out, spv);
    emit_kind_enums(&mut out, kinds);
    let ops = build_op_enum(&spv.instructions);
    emit_enum(&mut out, &ops);
    let registry = grammar_registry(spv);
    let extensions = build_extension_enum(&registry);
    emit_enum(&mut out, &extensions);
    emit_extension_names(&mut out, &registry);
    emit_predicates(&mut out, &spv.instructions);
    push_text(&mut out, "} // spvgentwo::spv");
    assert(out.deep_view() =~= spv_defs_lines(spv@));
    out
}

/// Renders the primitive definitions of a core grammar: its enumerations, the
/// opcode and extension enumerations, and the classification predicates.
pub fn spv_defs(spv: &Grammar) -> (lines: Vec<String>)
    ensures
        lines.deep_view() == spv_defs_lines(spv@),
{
    match &spv.operand_kinds {
        Some(kinds) => spv_defs_with(kinds, spv),
        None => {
            let kinds: Vec<OperandKind> = Vec::new();
            assert(kinds.deep_view() =~= spv@.kinds());
            spv_defs_with(&kinds, spv)
        },
    }
}

/// Renders the primitive definitions of an extended instruction set: its
/// version, its revision and its opcode enumeration.
pub fn ext_defs(spv: &Grammar, ext: Extension) -> (lines: Vec<String>)
    ensures
        lines.deep_view() == ext_defs_lines(spv@, ext),
{
    let mut out: Vec<String> = Vec::new();
    assert(out.deep_view() =~= Seq::<Seq<char>>::empty());
    emit_comments(&mut out, &spv.copyright);
    emit_extended_preamble(&mut out, spv, ext);
    let ops = build_op_enum(&spv.instructions);
    emit_enum(&mut out, &ops);
    push_line(&mut out, join2("} // spvgentwo::", ext.namespace()));
    assert(out.deep_view() =~= ext_defs_lines(spv@, ext));
    out
}

} // verus!
