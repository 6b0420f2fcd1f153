//! The table compiler: from a core grammar and its extended instruction sets
//! to the four lookup tables, and the queries that a consumer runs on them.
//!
//! Namespace 0 is the core grammar; the extended instruction sets are
//! numbered from 1 in the order given. Every namespace is canonicalized on
//! its own, and the key of an instruction joins its opcode with its
//! namespace, so equal opcodes of different namespaces never meet.

use crate::canon::{canonical_instructions, canonical_positions};
use crate::info::{
    base_entry, compile_base_entry, compile_instruction, compile_name, compile_parameter_entry,
    instruction_entry, name_entry, parameter_entry, InstructionInfo, InstructionInfoView,
    OperandBases, OperandBasesView, OperandName, OperandNameView, OperandParameters,
    OperandParametersView,
};
use crate::keys::{
    instruction_key, make_instruction_key, make_operand_base_key, make_operand_name_key,
    make_operand_parameter_key, operand_base_key, operand_name_key, operand_parameter_key,
};
use crate::operand::{GrammarError, OperandInfo};
use crate::schema::{
    listed, EnumerantView, Grammar, GrammarView, Instruction, InstructionView, OperandKind,
    OperandKindView,
};
use crate::table::{
    extend_unique, lemma_extend_concat, lemma_extend_none, lemma_extend_one, lookup_in,
    unique_entries, Table,
};
use crate::text::str_equal;
use crate::validate::{
    bases_declared, enumerants_declared, enumerants_numeric, grammar_fault, grammars_declared,
    grammars_quantified, instructions_declared, instructions_quantified, kinds_declared,
    literals_numeric, validate_with,
};
use vstd::prelude::*;

verus! {

/// Whether a category is one whose enumerants have display names in the
/// operand-name table.
pub open spec fn is_enum_category(category: Seq<char>) -> bool {
    category == "ValueEnum"@ || category == "BitEnum"@
}

/// The instruction entries of one namespace: its canonical instructions in
/// ascending opcode order.
pub open spec fn namespace_entries(
    kinds: Seq<OperandKindView>,
    instrs: Seq<InstructionView>,
    namespace: u32,
) -> Seq<(u64, InstructionInfoView)> {
    let order = canonical_positions(instrs);
    Seq::new(order.len(), |j: int| instruction_entry(kinds, instrs[order[j] as int], namespace))
}

/// The instruction entries of the core grammar followed by those of the
/// first `n` extended instruction sets.
pub open spec fn instruction_entries(
    kinds: Seq<OperandKindView>,
    core: Seq<InstructionView>,
    extended: Seq<GrammarView>,
    n: nat,
) -> Seq<(u64, InstructionInfoView)>
    decreases n,
{
    if n == 0 {
        namespace_entries(kinds, core, 0)
    } else {
        instruction_entries(kinds, core, extended, (n - 1) as nat) + namespace_entries(
            kinds,
            extended[n - 1].instructions,
            n as u32,
        )
    }
}

/// The name entries of the kind at position `k`: one for each enumerant where
/// the kind is an enumeration, none otherwise.
pub open spec fn kind_name_entries(kind: OperandKindView, k: u32) -> Seq<(u64, OperandNameView)> {
    if is_enum_category(kind.category) {
        Seq::new(
            listed(kind.enumerants).len(),
            |e: int| name_entry(kind, k, listed(kind.enumerants)[e]),
        )
    } else {
        Seq::empty()
    }
}

/// The name entries of the first `n` kinds.
pub open spec fn name_entries(kinds: Seq<OperandKindView>, n: nat) -> Seq<(u64, OperandNameView)>
    decreases n,
{
    if n == 0 {
        Seq::empty()
    } else {
        name_entries(kinds, (n - 1) as nat) + kind_name_entries(kinds[n - 1], (n - 1) as u32)
    }
}

/// The parameter entries of one enumerant: one where it declares parameters,
/// be the list empty or not; none where it declares none.
pub open spec fn enumerant_parameter_entries(
    kinds: Seq<OperandKindView>,
    kind: OperandKindView,
    k: u32,
    e: EnumerantView,
) -> Seq<(u64, OperandParametersView)> {
    match e.parameters {
        Some(ps) => seq![parameter_entry(kinds, kind, k, e, ps)],
        None => Seq::empty(),
    }
}

/// The parameter entries of the first `m` enumerants of the kind at position `k`.
pub open spec fn kind_parameter_entries(
    kinds: Seq<OperandKindView>,
    kind: OperandKindView,
    k: u32,
    m: nat,
) -> Seq<(u64, OperandParametersView)>
    decreases m,
{
    if m == 0 {
        Seq::empty()
    } else {
        kind_parameter_entries(kinds, kind, k, (m - 1) as nat) + enumerant_parameter_entries(
            kinds,
            kind,
            k,
            listed(kind.enumerants)[m - 1],
        )
    }
}

/// The parameter entries of the first `n` kinds.
pub open spec fn parameter_entries(kinds: Seq<OperandKindView>, n: nat) -> Seq<
    (u64, OperandParametersView),
>
    decreases n,
{
    if n == 0 {
        Seq::empty()
    } else {
        parameter_entries(kinds, (n - 1) as nat) + kind_parameter_entries(
            kinds,
            kinds[n - 1],
            (n - 1) as u32,
            listed(kinds[n - 1].enumerants).len(),
        )
    }
}

/// The base entries of the kind at position `k`: one where it lists bases,
/// none where it lists none.
pub open spec fn kind_base_entries(kinds: Seq<OperandKindView>, kind: OperandKindView, k: u32) -> Seq<
    (u64, OperandBasesView),
> {
    match kind.bases {
        Some(bases) => seq![base_entry(kinds, kind, k, bases)],
        None => Seq::empty(),
    }
}

/// The base entries of the first `n` kinds.
pub open spec fn base_entries(kinds: Seq<OperandKindView>, n: nat) -> Seq<(u64, OperandBasesView)>
    decreases n,
{
    if n == 0 {
        Seq::empty()
    } else {
        base_entries(kinds, (n - 1) as nat) + kind_base_entries(
            kinds,
            kinds[n - 1],
            (n - 1) as u32,
        )
    }
}

/// Adds the canonical instructions of one namespace to an instruction table.
pub fn add_namespace(
    table: &mut Table<InstructionInfo>,
    kinds: &Vec<OperandKind>,
    instrs: &Vec<Instruction>,
    namespace: u32,
)
    requires
        old(table).wf(),
        instructions_quantified(instrs.deep_view()),
        instructions_declared(kinds.deep_view(), instrs.deep_view()),
    ensures
        final(table).wf(),
        final(table).entries() == extend_unique(
            old(table).entries(),
            namespace_entries(kinds.deep_view(), instrs.deep_view(), namespace),
        ),
{
    let order = canonical_instructions(instrs);
    let ghost view = instrs.deep_view();
    let ghost all = namespace_entries(kinds.deep_view(), view, namespace);
    let mut j: usize = 0;
    assert(all.take(0) =~= Seq::<(u64, InstructionInfoView)>::empty());
    while j < order.len()
        invariant
            j <= order.len(),
            view == instrs.deep_view(),
            order@ == canonical_positions(view),
            forall|x: int| 0 <= x < order.len() ==> (#[trigger] order@[x]) < instrs.len(),
            all == namespace_entries(kinds.deep_view(), view, namespace),
            instructions_quantified(view),
            instructions_declared(kinds.deep_view(), view),
            table.wf(),
            table.entries() == extend_unique(old(table).entries(), all.take(j as int)),
        decreases order.len() - j,
    {
        let at = order[j];
        assert(view[at as int] == instrs@[at as int]@);
        let entry = compile_instruction(kinds, &instrs[at], namespace);
        table.insert_unique(entry.0, entry.1);
        proof {
            assert(all.take(j + 1).drop_last() =~= all.take(j as int));
            assert(all.take(j + 1).last() == all[j as int]);
        }
        j += 1;
    }
    assert(all.take(j as int) =~= all);
}

/// Adds the display names of the enumerants of the kind at position `k` to a
/// name table.
pub fn add_kind_names(table: &mut Table<OperandName>, kind: &OperandKind, k: u32)
    requires
        old(table).wf(),
        enumerants_numeric(kind@.enumerants),
    ensures
        final(table).wf(),
        final(table).entries() == extend_unique(old(table).entries(), kind_name_entries(kind@, k)),
{
    if !(str_equal(kind.category.as_str(), "ValueEnum") || str_equal(
        kind.category.as_str(),
        "BitEnum",
    )) {
        return ;
    }
    match &kind.enumerants {
        Some(es) => {
            let ghost view = es.deep_view();
            let ghost all = kind_name_entries(kind@, k);
            assert(listed(kind@.enumerants) == view);
            assert(all.take(0) =~= Seq::<(u64, OperandNameView)>::empty());
            let mut i: usize = 0;
            while i < es.len()
                invariant
                    i <= es.len(),
                    view == es.deep_view(),
                    listed(kind@.enumerants) == view,
                    all == kind_name_entries(kind@, k),
                    all.len() == view.len(),
                    enumerants_numeric(kind@.enumerants),
                    table.wf(),
                    table.entries() == extend_unique(old(table).entries(), all.take(i as int)),
                decreases es.len() - i,
            {
                assert(view[i as int] == es@[i as int]@);
                let entry = compile_name(kind, k, &es[i]);
                table.insert_unique(entry.0, entry.1);
                proof {
                    assert(all.take(i + 1).drop_last() =~= all.take(i as int));
                    assert(all.take(i + 1).last() == all[i as int]);
                }
                i += 1;
            }
            assert(all.take(i as int) =~= all);
        },
        None => {
            assert(listed(kind@.enumerants).len() == 0);
            assert(kind_name_entries(kind@, k) =~= Seq::<(u64, OperandNameView)>::empty());
        },
    }
}

/// Adds the parameters of the enumerants of the kind at position `k` to a
/// parameter table.
pub fn add_kind_parameters(
    table: &mut Table<OperandParameters>,
    kinds: &Vec<OperandKind>,
    kind: &OperandKind,
    k: u32,
)
    requires
        old(table).wf(),
        enumerants_numeric(kind@.enumerants),
        enumerants_declared(kinds.deep_view(), kind@.enumerants),
    ensures
        final(table).wf(),
        final(table).entries() == extend_unique(
            old(table).entries(),
            kind_parameter_entries(
                kinds.deep_view(),
                kind@,
                k,
                listed(kind@.enumerants).len(),
            ),
        ),
{
    match &kind.enumerants {
        Some(es) => {
            let ghost view = es.deep_view();
            assert(listed(kind@.enumerants) == view);
            let mut i: usize = 0;
            while i < es.len()
                invariant
                    i <= es.len(),
                    view == es.deep_view(),
                    listed(kind@.enumerants) == view,
                    enumerants_numeric(kind@.enumerants),
                    enumerants_declared(kinds.deep_view(), kind@.enumerants),
                    table.wf(),
                    table.entries() == extend_unique(
                        old(table).entries(),
                        kind_parameter_entries(kinds.deep_view(), kind@, k, i as nat),
                    ),
                decreases es.len() - i,
            {
                assert(view[i as int] == es@[i as int]@);
                let ghost before = kind_parameter_entries(kinds.deep_view(), kind@, k, i as nat);
                let ghost step = enumerant_parameter_entries(
                    kinds.deep_view(),
                    kind@,
                    k,
                    view[i as int],
                );
                match &es[i].parameters {
                    Some(ps) => {
                        assert(listed(view[i as int].parameters) == ps.deep_view());
                        let entry = compile_parameter_entry(kinds, kind, k, &es[i], ps);
                        proof {
                            lemma_extend_one(table.entries(), (entry.0, entry.1@));
                        }
                        table.insert_unique(entry.0, entry.1);
                    },
                    None => {
                        proof {
                            lemma_extend_none(table.entries());
                        }
                    },
                }
                proof {
                    lemma_extend_concat(old(table).entries(), before, step);
                }
                i += 1;
            }
        },
        None => {
            assert(listed(kind@.enumerants).len() == 0);
        },
    }
}

/// Adds the bases of the kind at position `k` to a base table.
pub fn add_kind_bases(
    table: &mut Table<OperandBases>,
    kinds: &Vec<OperandKind>,
    kind: &OperandKind,
    k: u32,
)
    requires
        old(table).wf(),
        bases_declared(kinds.deep_view(), kind@.bases),
    ensures
        final(table).wf(),
        final(table).entries() == extend_unique(
            old(table).entries(),
            kind_base_entries(kinds.deep_view(), kind@, k),
        ),
{
    match &kind.bases {
        Some(bases) => {
            assert(listed(kind@.bases) == bases.deep_view());
            let entry = compile_base_entry(kinds, kind, k, bases);
            proof {
                lemma_extend_one(table.entries(), (entry.0, entry.1@));
            }
            table.insert_unique(entry.0, entry.1);
        },
        None => {
            proof {
                lemma_extend_none(table.entries());
            }
        },
    }
}

/// The four lookup tables compiled from a core grammar and its extended
/// instruction sets.
pub struct Tables {
    pub instructions: Table<InstructionInfo>,
    pub operand_names: Table<OperandName>,
    pub operand_parameters: Table<OperandParameters>,
    pub operand_bases: Table<OperandBases>,
}

impl Tables {
    /// Whether each of the four tables is consistent.
    pub open spec fn wf(&self) -> bool {
        &&& self.instructions.wf()
        &&& self.operand_names.wf()
        &&& self.operand_parameters.wf()
        &&& self.operand_bases.wf()
    }

    /// Whether the tables are those compiled from `core` and `extended`: each
    /// holds, in order, the entries the grammars give rise to, the first of
    /// any that share a key.
    pub open spec fn compiled_from(&self, core: GrammarView, extended: Seq<GrammarView>) -> bool {
        let kinds = core.kinds();
        &&& self.instructions.entries() == unique_entries(
            instruction_entries(kinds, core.instructions, extended, extended.len()),
        )
        &&& self.operand_names.entries() == unique_entries(name_entries(kinds, kinds.len()))
        &&& self.operand_parameters.entries() == unique_entries(
            parameter_entries(kinds, kinds.len()),
        )
        &&& self.operand_bases.entries() == unique_entries(base_entries(kinds, kinds.len()))
    }

    /// The metadata of the instruction `opcode` of namespace `namespace`;
    /// `None` where the table holds no such instruction.
    pub fn get_instruction_info(&self, opcode: u32, namespace: u32) -> (r: Option<
        &InstructionInfo,
    >)
        requires
            self.wf(),
        ensures
            match r {
                Some(info) => lookup_in(
                    self.instructions.entries(),
                    instruction_key(opcode, namespace),
                ) == Some(info@),
                None => lookup_in(self.instructions.entries(), instruction_key(opcode, namespace))
                    is None,
            },
    {
        self.instructions.get(make_instruction_key(opcode, namespace))
    }

    /// The display name of the literal `literal` of the kind at position
    /// `kind`; `None` where that literal has no symbolic name.
    pub fn get_operand_name(&self, kind: u32, literal: u32) -> (r: Option<&String>)
        requires
            self.wf(),
        ensures
            match r {
                Some(name) => lookup_in(
                    self.operand_names.entries(),
                    operand_name_key(kind, literal),
                ) matches Some(entry) && entry.name == name@,
                None => lookup_in(self.operand_names.entries(), operand_name_key(kind, literal))
                    is None,
            },
    {
        match self.operand_names.get(make_operand_name_key(kind, literal)) {
            Some(entry) => Some(&entry.name),
            None => None,
        }
    }

    /// The parameters that follow the literal `literal` of the kind at
    /// position `kind`; `None` where the enumerant declares no parameters,
    /// which is not the same as declaring an empty list.
    pub fn get_operand_parameters(&self, kind: u32, literal: u32) -> (r: Option<&Vec<OperandInfo>>)
        requires
            self.wf(),
        ensures
            match r {
                Some(ps) => lookup_in(
                    self.operand_parameters.entries(),
                    operand_parameter_key(kind, literal),
                ) matches Some(entry) && entry.parameters == ps.deep_view(),
                None => lookup_in(
                    self.operand_parameters.entries(),
                    operand_parameter_key(kind, literal),
                ) is None,
            },
    {
        match self.operand_parameters.get(make_operand_parameter_key(kind, literal)) {
            Some(entry) => Some(&entry.parameters),
            None => None,
        }
    }

    /// The bases of the kind at position `kind`; `None` where the kind is not
    /// composite.
    pub fn get_operand_bases(&self, kind: u32) -> (r: Option<&Vec<OperandInfo>>)
        requires
            self.wf(),
        ensures
            match r {
                Some(bases) => lookup_in(self.operand_bases.entries(), operand_base_key(kind))
                    matches Some(entry) && entry.bases == bases.deep_view(),
                None => lookup_in(self.operand_bases.entries(), operand_base_key(kind)) is None,
            },
    {
        match self.operand_bases.get(make_operand_base_key(kind)) {
            Some(entry) => Some(&entry.bases),
            None => None,
        }
    }
}

/// Builds the instruction table of a core grammar and its extended
/// instruction sets.
pub fn build_instructions(
    kinds: &Vec<OperandKind>,
    core: &Vec<Instruction>,
    extended: &Vec<Grammar>,
) -> (table: Table<InstructionInfo>)
    requires
        instructions_quantified(core.deep_view()),
        instructions_declared(kinds.deep_view(), core.deep_view()),
        grammars_quantified(extended.deep_view()),
        grammars_declared(kinds.deep_view(), extended.deep_view()),
        extended.len() < u32::MAX,
    ensures
        table.wf(),
        table.entries() == unique_entries(
            instruction_entries(
                kinds.deep_view(),
                core.deep_view(),
                extended.deep_view(),
                extended.len() as nat,
            ),
        ),
{
    let ghost kv = kinds.deep_view();
    let ghost cv = core.deep_view();
    let ghost ev = extended.deep_view();
    let mut table: Table<InstructionInfo> = Table::new();
    add_namespace(&mut table, kinds, core, 0);
    let mut n: usize = 0;
    while n < extended.len()
        invariant
            n <= extended.len(),
            extended.len() < u32::MAX,
            kv == kinds.deep_view(),
            cv == core.deep_view(),
            ev == extended.deep_view(),
            grammars_quantified(ev),
            grammars_declared(kv, ev),
            table.wf(),
            table.entries() == unique_entries(instruction_entries(kv, cv, ev, n as nat)),
        decreases extended.len() - n,
    {
        assert(ev[n as int] == extended@[n as int]@);
        let ghost before = instruction_entries(kv, cv, ev, n as nat);
        let ghost step = namespace_entries(kv, ev[n as int].instructions, (n + 1) as u32);
        add_namespace(&mut table, kinds, &extended[n].instructions, (n + 1) as u32);
        proof {
            lemma_extend_concat(Seq::empty(), before, step);
        }
        n += 1;
    }
    table
}

/// Builds the operand-name table of the kinds of a core grammar.
pub fn build_names(kinds: &Vec<OperandKind>) -> (table: Table<OperandName>)
    requires
        literals_numeric(kinds.deep_view()),
        kinds.len() <= u32::MAX,
    ensures
        table.wf(),
        table.entries() == unique_entries(name_entries(kinds.deep_view(), kinds.len() as nat)),
{
    let ghost kv = kinds.deep_view();
    let mut table: Table<OperandName> = Table::new();
    let mut k: usize = 0;
    while k < kinds.len()
        invariant
            k <= kinds.len(),
            kinds.len() <= u32::MAX,
            kv == kinds.deep_view(),
            literals_numeric(kv),
            table.wf(),
            table.entries() == unique_entries(name_entries(kv, k as nat)),
        decreases kinds.len() - k,
    {
        assert(kv[k as int] == kinds@[k as int]@);
        let ghost before = name_entries(kv, k as nat);
        let ghost step = kind_name_entries(kv[k as int], k as u32);
        add_kind_names(&mut table, &kinds[k], k as u32);
        proof {
            lemma_extend_concat(Seq::empty(), before, step);
        }
        k += 1;
    }
    table
}

/// Builds the operand-parameter table of the kinds of a core grammar.
pub fn build_parameters(kinds: &Vec<OperandKind>) -> (table: Table<OperandParameters>)
    requires
        literals_numeric(kinds.deep_view()),
        kinds_declared(kinds.deep_view()),
        kinds.len() <= u32::MAX,
    ensures
        table.wf(),
        table.entries() == unique_entries(
            parameter_entries(kinds.deep_view(), kinds.len() as nat),
        ),
{
    let ghost kv = kinds.deep_view();
    let mut table: Table<OperandParameters> = Table::new();
    let mut k: usize = 0;
    while k < kinds.len()
        invariant
            k <= kinds.len(),
            kinds.len() <= u32::MAX,
            kv == kinds.deep_view(),
            literals_numeric(kv),
            kinds_declared(kv),
            table.wf(),
            table.entries() == unique_entries(parameter_entries(kv, k as nat)),
        decreases kinds.len() - k,
    {
        assert(kv[k as int] == kinds@[k as int]@);
        let ghost before = parameter_entries(kv, k as nat);
        let ghost step = kind_parameter_entries(
            kv,
            kv[k as int],
            k as u32,
            listed(kv[k as int].enumerants).len(),
        );
        add_kind_parameters(&mut table, kinds, &kinds[k], k as u32);
        proof {
            lemma_extend_concat(Seq::empty(), before, step);
        }
        k += 1;
    }
    table
}

/// Builds the operand-base table of the kinds of a core grammar.
pub fn build_bases(kinds: &Vec<OperandKind>) -> (table: Table<OperandBases>)
    requires
        kinds_declared(kinds.deep_view()),
        kinds.len() <= u32::MAX,
    ensures
        table.wf(),
        table.entries() == unique_entries(base_entries(kinds.deep_view(), kinds.len() as nat)),
{
    let ghost kv = kinds.deep_view();
    let mut table: Table<OperandBases> = Table::new();
    let mut k: usize = 0;
    while k < kinds.len()
        invariant
            k <= kinds.len(),
            kinds.len() <= u32::MAX,
            kv == kinds.deep_view(),
            kinds_declared(kv),
            table.wf(),
            table.entries() == unique_entries(base_entries(kv, k as nat)),
        decreases kinds.len() - k,
    {
        assert(kv[k as int] == kinds@[k as int]@);
        let ghost before = base_entries(kv, k as nat);
        let ghost step = kind_base_entries(kv, kv[k as int], k as u32);
        add_kind_bases(&mut table, kinds, &kinds[k], k as u32);
        proof {
            lemma_extend_concat(Seq::empty(), before, step);
        }
        k += 1;
    }
    table
}

/// Compiles the tables of a core grammar, given with its operand kinds, and
/// its extended instruction sets.
pub fn compile_with(kinds: &Vec<OperandKind>, core: &Grammar, extended: &Vec<Grammar>) -> (r:
    Result<Tables, GrammarError>)
    requires
        kinds.deep_view() == core@.kinds(),
    ensures
        match r {
            Ok(t) => grammar_fault(core@, extended.deep_view()) is None && t.wf()
                && t.compiled_from(core@, extended.deep_view()),
            Err(e) => grammar_fault(core@, extended.deep_view()) == Some(e),
        },
{
    match validate_with(kinds, core, extended) {
        Err(e) => {
            return Err(e);
        },
        Ok(_) => {},
    }
    Ok(
        Tables {
            instructions: build_instructions(kinds, &core.instructions, extended),
            operand_names: build_names(kinds),
            operand_parameters: build_parameters(kinds),
            operand_bases: build_bases(kinds),
        },
    )
}

/// Compiles the four lookup tables of a core grammar and its extended
/// instruction sets, or reports the fault that forbids it.
pub fn compile_tables(core: &Grammar, extended: &Vec<Grammar>) -> (r: Result<Tables, GrammarError>)
    ensures
        match r {
            Ok(t) => grammar_fault(core@, extended.deep_view()) is None && t.wf()
                && t.compiled_from(core@, extended.deep_view()),
            Err(e) => grammar_fault(core@, extended.deep_view()) == Some(e),
        },
{
    match &core.operand_kinds {
        Some(kinds) => compile_with(kinds, core, extended),
        None => {
            let kinds: Vec<OperandKind> = Vec::new();
            assert(kinds.deep_view() =~= core@.kinds());
            compile_with(&kinds, core, extended)
        },
    }
}

} // verus!
