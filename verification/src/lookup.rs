//! What the queries answer, told from the grammars alone.
//!
//! The compiler states what each table holds as a sequence of entries. The
//! laws here carry that over to the queries: which keys are found, and with
//! what, for any core grammar and any extended instruction sets.

use crate::canon::{
    canonical_positions, chosen, lemma_canonical_covers, lemma_canonical_exists,
    lemma_canonical_opcodes_unique, lemma_kept, opcode_at,
};
use crate::info::{
    base_entry, base_infos, instruction_info, name_entry, parameter_entry, InstructionInfoView,
    OperandBasesView, OperandNameView, OperandParametersView,
};
use crate::keys::{
    composite, instruction_key, lemma_composite_injective, operand_base_key, operand_name_key,
    operand_parameter_key,
};
use crate::literal::literal_value;
use crate::schema::{listed, EnumerantView, GrammarView, InstructionView, OperandKindView};
use crate::table::{
    entry_keys, first_index, lemma_first_index, lemma_lookup_at, lemma_lookup_concat,
    lemma_lookup_none, lemma_unique_entries, lookup_in, unique_entries,
};
use crate::tables::{
    base_entries, enumerant_parameter_entries, instruction_entries, is_enum_category,
    kind_base_entries, kind_name_entries, kind_parameter_entries, name_entries, namespace_entries,
    parameter_entries, Tables,
};
use crate::validate::{enumerants_numeric, literals_numeric};
use vstd::prelude::*;

verus! {

/// The instructions of the namespace `namespace`: those of the core grammar
/// for 0, those of the extended instruction set of that number otherwise.
pub open spec fn namespace_instructions(
    core: Seq<InstructionView>,
    extended: Seq<GrammarView>,
    namespace: u32,
) -> Option<Seq<InstructionView>> {
    if namespace == 0 {
        Some(core)
    } else if namespace <= extended.len() {
        Some(extended[namespace - 1].instructions)
    } else {
        None
    }
}

/// The metadata of the canonical instruction of `opcode` among `instrs`.
pub open spec fn canonical_info(
    kinds: Seq<OperandKindView>,
    instrs: Seq<InstructionView>,
    opcode: u32,
    namespace: u32,
) -> Option<InstructionInfoView> {
    match chosen(instrs, opcode) {
        Some(k) => Some(instruction_info(kinds, instrs[k], namespace)),
        None => None,
    }
}

/// What the instruction table of a core grammar and its extended instruction
/// sets answers for an opcode of a namespace: the metadata of the canonical
/// instruction of that opcode in that namespace, where there is one.
pub open spec fn instruction_found(
    kinds: Seq<OperandKindView>,
    core: Seq<InstructionView>,
    extended: Seq<GrammarView>,
    opcode: u32,
    namespace: u32,
) -> Option<InstructionInfoView> {
    match namespace_instructions(core, extended, namespace) {
        Some(instrs) => canonical_info(kinds, instrs, opcode, namespace),
        None => None,
    }
}

/// Whether every list of instructions is short enough to be held in memory.
pub open spec fn countable(core: Seq<InstructionView>, extended: Seq<GrammarView>) -> bool {
    &&& core.len() <= usize::MAX
    &&& extended.len() < u32::MAX
    &&& forall|g: int| 0 <= g < extended.len() ==> (#[trigger] extended[g]).instructions.len() <= usize::MAX
}

/// A lookup finds something exactly when the key occurs.
pub proof fn lemma_lookup_some<T>(entries: Seq<(u64, T)>, key: u64)
    ensures
        lookup_in(entries, key) is Some <==> entry_keys(entries).contains(key),
{
    lemma_first_index(entry_keys(entries), key);
    if first_index(entry_keys(entries), key) is Some {
        let i = first_index(entry_keys(entries), key)->0;
        assert(entry_keys(entries)[i] == key);
    }
}

/// In the entries of one namespace no key occurs twice, only keys of that
/// namespace occur, and the key of an opcode leads to the canonical
/// instruction of that opcode.
pub proof fn lemma_namespace_lookup(
    kinds: Seq<OperandKindView>,
    instrs: Seq<InstructionView>,
    namespace: u32,
    opcode: u32,
    other: u32,
)
    requires
        instrs.len() <= usize::MAX,
    ensures
        entry_keys(namespace_entries(kinds, instrs, namespace)).no_duplicates(),
        entry_keys(namespace_entries(kinds, instrs, namespace)).contains(
            instruction_key(opcode, other),
        ) <==> (other == namespace && chosen(instrs, opcode) is Some),
        lookup_in(namespace_entries(kinds, instrs, namespace), instruction_key(opcode, other))
            == if other == namespace {
            canonical_info(kinds, instrs, opcode, namespace)
        } else {
            None
        },
{
    let order = canonical_positions(instrs);
    let entries = namespace_entries(kinds, instrs, namespace);
    let keys = entry_keys(entries);
    let key = instruction_key(opcode, other);
    lemma_canonical_exists(instrs);
    lemma_canonical_covers(instrs, order, opcode);
    lemma_kept(instrs, instrs.len(), opcode);
    assert forall|j: int| 0 <= j < keys.len() implies keys[j] == composite(
        opcode_at(instrs, order, j),
        namespace,
    ) by {}
    assert forall|i: int, j: int| 0 <= i < keys.len() && 0 <= j < keys.len() && i != j implies keys[i]
        != keys[j] by {
        lemma_canonical_opcodes_unique(instrs, order, i, j);
        if keys[i] == keys[j] {
            lemma_composite_injective(
                opcode_at(instrs, order, i),
                namespace,
                opcode_at(instrs, order, j),
                namespace,
            );
        }
    }
    if keys.contains(key) {
        let j = choose|j: int| 0 <= j < keys.len() && keys[j] == key;
        lemma_composite_injective(opcode_at(instrs, order, j), namespace, opcode, other);
        assert(opcode_at(instrs, order, j) == opcode);
        assert(chosen(instrs, opcode) is Some);
    }
    if other == namespace && chosen(instrs, opcode) is Some {
        let k = chosen(instrs, opcode)->0;
        let j = choose|j: int| 0 <= j < order.len() && #[trigger] order[j] as int == k;
        assert(opcode_at(instrs, order, j) == opcode);
        assert(keys[j] == key);
        lemma_lookup_at(entries, j);
        assert(entries[j].1 == instruction_info(kinds, instrs[k], namespace));
    } else {
        lemma_lookup_none(entries, key);
    }
}

/// The entries of the core grammar and of the first `n` extended instruction
/// sets answer for the namespaces up to `n`, each by its own canonical
/// instructions, and hold nothing of any later namespace.
pub proof fn lemma_instruction_entries(
    kinds: Seq<OperandKindView>,
    core: Seq<InstructionView>,
    extended: Seq<GrammarView>,
    n: nat,
    opcode: u32,
    namespace: u32,
)
    requires
        countable(core, extended),
        n <= extended.len(),
    ensures
        lookup_in(
            instruction_entries(kinds, core, extended, n),
            instruction_key(opcode, namespace),
        ) == if namespace <= n {
            instruction_found(kinds, core, extended, opcode, namespace)
        } else {
            None
        },
    decreases n,
{
    let key = instruction_key(opcode, namespace);
    if n == 0 {
        lemma_namespace_lookup(kinds, core, 0, opcode, namespace);
    } else {
        let front = instruction_entries(kinds, core, extended, (n - 1) as nat);
        let instrs = extended[n - 1].instructions;
        let back = namespace_entries(kinds, instrs, n as u32);
        lemma_instruction_entries(kinds, core, extended, (n - 1) as nat, opcode, namespace);
        lemma_namespace_lookup(kinds, instrs, n as u32, opcode, namespace);
        lemma_lookup_concat(front, back, key);
        lemma_lookup_some(front, key);
        lemma_lookup_some(back, key);
    }
}

/// The instruction table answers for an opcode of a namespace with the
/// metadata of the canonical instruction of that opcode in that namespace,
/// and with nothing where the namespace has no instruction of that opcode.
/// Equal opcodes of different namespaces never meet.
pub proof fn lemma_instruction_lookup(
    core: GrammarView,
    extended: Seq<GrammarView>,
    opcode: u32,
    namespace: u32,
)
    requires
        countable(core.instructions, extended),
    ensures
        lookup_in(
            unique_entries(
                instruction_entries(core.kinds(), core.instructions, extended, extended.len()),
            ),
            instruction_key(opcode, namespace),
        ) == instruction_found(core.kinds(), core.instructions, extended, opcode, namespace),
{
    let entries = instruction_entries(core.kinds(), core.instructions, extended, extended.len());
    lemma_unique_entries(entries, instruction_key(opcode, namespace));
    lemma_instruction_entries(
        core.kinds(),
        core.instructions,
        extended,
        extended.len(),
        opcode,
        namespace,
    );
}

/// Whether some enumerant of the kind at position `k` has the value
/// `literal` and declares parameters, be the list empty or not.
pub open spec fn declares_parameters(kinds: Seq<OperandKindView>, k: int, literal: u32) -> bool {
    0 <= k < kinds.len() && exists|e: int|
        0 <= e < listed(kinds[k].enumerants).len() && (#[trigger] listed(
            kinds[k].enumerants,
        )[e]).parameters is Some && literal_value(listed(kinds[k].enumerants)[e].value) == Some(
            literal,
        )
}

/// The parameter entries of the first `m` enumerants of a kind carry the key
/// of this kind and of a literal exactly when one of those enumerants has
/// that value and declares parameters.
proof fn lemma_kind_parameter_keys(
    kinds: Seq<OperandKindView>,
    kind: OperandKindView,
    at: u32,
    m: nat,
    k: u32,
    literal: u32,
)
    requires
        enumerants_numeric(kind.enumerants),
        m <= listed(kind.enumerants).len(),
    ensures
        entry_keys(kind_parameter_entries(kinds, kind, at, m)).contains(
            operand_parameter_key(k, literal),
        ) <==> (k == at && exists|e: int|
            0 <= e < m && (#[trigger] listed(kind.enumerants)[e]).parameters is Some
                && literal_value(listed(kind.enumerants)[e].value) == Some(literal)),
    decreases m,
{
    let key = operand_parameter_key(k, literal);
    let es = listed(kind.enumerants);
    if m == 0 {
        assert(entry_keys(kind_parameter_entries(kinds, kind, at, 0)) =~= Seq::<u64>::empty());
    } else {
        let front = kind_parameter_entries(kinds, kind, at, (m - 1) as nat);
        let step = enumerant_parameter_entries(kinds, kind, at, es[m - 1]);
        lemma_kind_parameter_keys(kinds, kind, at, (m - 1) as nat, k, literal);
        lemma_lookup_concat(front, step, key);
        let hit = es[m - 1].parameters is Some && literal_value(es[m - 1].value) == Some(literal)
            && k == at;
        assert(literal_value(es[m - 1].value) is Some);
        assert(entry_keys(step).contains(key) <==> hit) by {
            if es[m - 1].parameters is Some {
                let own = operand_parameter_key(at, literal_value(es[m - 1].value)->0);
                assert(entry_keys(step) =~= seq![own]);
                if entry_keys(step).contains(key) {
                    let i = choose|i: int| 0 <= i < 1 && entry_keys(step)[i] == key;
                    lemma_composite_injective(at, literal_value(es[m - 1].value)->0, k, literal);
                }
                if hit {
                    assert(entry_keys(step)[0] == key);
                }
            } else {
                assert(entry_keys(step) =~= Seq::<u64>::empty());
            }
        }
        if k == at && exists|e: int|
            0 <= e < m && (#[trigger] es[e]).parameters is Some && literal_value(es[e].value)
                == Some(literal) {
            let e = choose|e: int|
                0 <= e < m && (#[trigger] es[e]).parameters is Some && literal_value(es[e].value)
                    == Some(literal);
            if e < m - 1 {
                assert(0 <= e < m - 1 && es[e].parameters is Some && literal_value(es[e].value)
                    == Some(literal));
            }
        }
        if hit {
            assert(0 <= m - 1 < m && es[m - 1].parameters is Some);
        }
        if entry_keys(front).contains(key) {
            let e = choose|e: int|
                0 <= e < m - 1 && (#[trigger] es[e]).parameters is Some && literal_value(
                    es[e].value,
                ) == Some(literal);
            assert(0 <= e < m && es[e].parameters is Some);
        }
    }
}

/// The parameter entries of the first `n` kinds carry the key of a kind and
/// a literal exactly when that kind is among them and declares parameters
/// for that literal.
proof fn lemma_parameter_keys(kinds: Seq<OperandKindView>, n: nat, k: u32, literal: u32)
    requires
        literals_numeric(kinds),
        n <= kinds.len() <= u32::MAX,
    ensures
        entry_keys(parameter_entries(kinds, n)).contains(operand_parameter_key(k, literal)) <==> (k
            < n && declares_parameters(kinds, k as int, literal)),
    decreases n,
{
    let key = operand_parameter_key(k, literal);
    if n == 0 {
        assert(entry_keys(parameter_entries(kinds, 0)) =~= Seq::<u64>::empty());
    } else {
        let kind = kinds[n - 1];
        let front = parameter_entries(kinds, (n - 1) as nat);
        let step = kind_parameter_entries(
            kinds,
            kind,
            (n - 1) as u32,
            listed(kind.enumerants).len(),
        );
        lemma_parameter_keys(kinds, (n - 1) as nat, k, literal);
        lemma_kind_parameter_keys(
            kinds,
            kind,
            (n - 1) as u32,
            listed(kind.enumerants).len(),
            k,
            literal,
        );
        lemma_lookup_concat(front, step, key);
    }
}

/// The parameter table finds an entry for a kind and a literal exactly when
/// an enumerant of that kind with that value declares parameters. An
/// enumerant that declares none is not found; one that declares an empty
/// list is found, with the empty list.
pub proof fn lemma_parameters_lookup(kinds: Seq<OperandKindView>, k: u32, literal: u32)
    requires
        literals_numeric(kinds),
        kinds.len() <= u32::MAX,
    ensures
        lookup_in(
            unique_entries(parameter_entries(kinds, kinds.len())),
            operand_parameter_key(k, literal),
        ) is Some <==> declares_parameters(kinds, k as int, literal),
{
    let entries = parameter_entries(kinds, kinds.len());
    let key = operand_parameter_key(k, literal);
    lemma_unique_entries(entries, key);
    lemma_lookup_some(entries, key);
    lemma_parameter_keys(kinds, kinds.len(), k, literal);
}

/// Whether some enumerant of the kind at position `k`, an enumeration, has
/// the value `literal`.
pub open spec fn names_literal(kinds: Seq<OperandKindView>, k: int, literal: u32) -> bool {
    0 <= k < kinds.len() && is_enum_category(kinds[k].category) && exists|e: int|
        0 <= e < listed(kinds[k].enumerants).len() && literal_value(
            (#[trigger] listed(kinds[k].enumerants)[e]).value,
        ) == Some(literal)
}

/// The name entries of the first `n` kinds carry the key of a kind and a
/// literal exactly when that kind is among them, is an enumeration, and has
/// an enumerant of that value.
proof fn lemma_name_keys(kinds: Seq<OperandKindView>, n: nat, k: u32, literal: u32)
    requires
        literals_numeric(kinds),
        n <= kinds.len() <= u32::MAX,
    ensures
        entry_keys(name_entries(kinds, n)).contains(operand_name_key(k, literal)) <==> (k < n
            && names_literal(kinds, k as int, literal)),
    decreases n,
{
    let key = operand_name_key(k, literal);
    if n == 0 {
        assert(entry_keys(name_entries(kinds, 0)) =~= Seq::<u64>::empty());
    } else {
        let kind = kinds[n - 1];
        let at = (n - 1) as u32;
        let es = listed(kind.enumerants);
        let front = name_entries(kinds, (n - 1) as nat);
        let step = kind_name_entries(kind, at);
        lemma_name_keys(kinds, (n - 1) as nat, k, literal);
        lemma_lookup_concat(front, step, key);
        assert(enumerants_numeric(kind.enumerants));
        let hit = k == at && is_enum_category(kind.category) && exists|e: int|
            0 <= e < es.len() && literal_value((#[trigger] es[e]).value) == Some(literal);
        assert(entry_keys(step).contains(key) <==> hit) by {
            if entry_keys(step).contains(key) {
                let i = choose|i: int| 0 <= i < step.len() && entry_keys(step)[i] == key;
                assert(literal_value(es[i].value) is Some);
                lemma_composite_injective(literal_value(es[i].value)->0, at, literal, k);
                assert(0 <= i < es.len() && literal_value(es[i].value) == Some(literal));
            }
            if hit {
                let e = choose|e: int|
                    0 <= e < es.len() && literal_value((#[trigger] es[e]).value) == Some(literal);
                assert(entry_keys(step)[e] == key);
            }
        }
    }
}

/// The name table finds a display name for a kind and a literal exactly when
/// that kind is an enumeration with an enumerant of that value.
pub proof fn lemma_names_lookup(kinds: Seq<OperandKindView>, k: u32, literal: u32)
    requires
        literals_numeric(kinds),
        kinds.len() <= u32::MAX,
    ensures
        lookup_in(unique_entries(name_entries(kinds, kinds.len())), operand_name_key(k, literal))
            is Some <==> names_literal(kinds, k as int, literal),
{
    let entries = name_entries(kinds, kinds.len());
    let key = operand_name_key(k, literal);
    lemma_unique_entries(entries, key);
    lemma_lookup_some(entries, key);
    lemma_name_keys(kinds, kinds.len(), k, literal);
}

/// What the base table answers for the kind at position `k`: its bases in
/// table form where it lists any, nothing where it is not composite.
pub open spec fn bases_found(kinds: Seq<OperandKindView>, k: u32) -> Option<OperandBasesView> {
    if k < kinds.len() {
        match kinds[k as int].bases {
            Some(bases) => Some(
                OperandBasesView { kind: kinds[k as int].kind, bases: base_infos(kinds, bases) },
            ),
            None => None,
        }
    } else {
        None
    }
}

/// The base entries of the first `n` kinds answer for each of those kinds
/// and for no other.
proof fn lemma_base_entries(kinds: Seq<OperandKindView>, n: nat, k: u32)
    requires
        n <= kinds.len() <= u32::MAX,
    ensures
        lookup_in(base_entries(kinds, n), operand_base_key(k)) == if k < n {
            bases_found(kinds, k)
        } else {
            None
        },
    decreases n,
{
    let key = operand_base_key(k);
    if n == 0 {
        lemma_lookup_none(base_entries(kinds, 0), key);
    } else {
        let kind = kinds[n - 1];
        let at = (n - 1) as u32;
        let front = base_entries(kinds, (n - 1) as nat);
        let step = kind_base_entries(kinds, kind, at);
        lemma_base_entries(kinds, (n - 1) as nat, k);
        lemma_lookup_concat(front, step, key);
        lemma_lookup_some(front, key);
        lemma_first_index(entry_keys(step), key);
        match kind.bases {
            Some(bases) => {
                assert(entry_keys(step) =~= seq![operand_base_key(at)]);
                assert(step[0] == base_entry(kinds, kind, at, bases));
                if k == at {
                    assert(entry_keys(step)[0] == key);
                } else if entry_keys(step).contains(key) {
                    let i = choose|i: int| 0 <= i < 1 && entry_keys(step)[i] == key;
                }
                if k < at && bases_found(kinds, k) is None {
                    assert(!entry_keys(front).contains(key));
                }
            },
            None => {
                assert(entry_keys(step) =~= Seq::<u64>::empty());
            },
        }
        if k > at {
            assert(!entry_keys(front).contains(key));
        }
    }
}

/// The base table answers for a kind with its bases where it lists any, and
/// with nothing where it is not composite.
pub proof fn lemma_bases_lookup(kinds: Seq<OperandKindView>, k: u32)
    requires
        kinds.len() <= u32::MAX,
    ensures
        lookup_in(unique_entries(base_entries(kinds, kinds.len())), operand_base_key(k))
            == bases_found(kinds, k),
{
    let entries = base_entries(kinds, kinds.len());
    lemma_unique_entries(entries, operand_base_key(k));
    lemma_base_entries(kinds, kinds.len(), k);
}

/// The position of the first of the first `m` enumerants that has the value
/// `literal` and, where `declared` is set, declares parameters.
pub open spec fn first_enumerant(
    es: Seq<EnumerantView>,
    m: nat,
    literal: u32,
    declared: bool,
) -> Option<int>
    decreases m,
{
    if m == 0 {
        None
    } else {
        match first_enumerant(es, (m - 1) as nat, literal, declared) {
            Some(e) => Some(e),
            None => if literal_value(es[m - 1].value) == Some(literal) && (declared ==> es[m
                - 1].parameters is Some) {
                Some(m - 1)
            } else {
                None
            },
        }
    }
}

/// The first such enumerant is one, and none before it is; there is none
/// exactly when no enumerant is one.
pub proof fn lemma_first_enumerant(es: Seq<EnumerantView>, m: nat, literal: u32, declared: bool)
    ensures
        match first_enumerant(es, m, literal, declared) {
            Some(e) => 0 <= e < m && literal_value(es[e].value) == Some(literal) && (declared
                ==> es[e].parameters is Some) && forall|j: int|
                0 <= j < e ==> !(literal_value((#[trigger] es[j]).value) == Some(literal) && (
                declared ==> es[j].parameters is Some)),
            None => forall|j: int|
                0 <= j < m ==> !(literal_value((#[trigger] es[j]).value) == Some(literal) && (
                declared ==> es[j].parameters is Some)),
        },
    decreases m,
{
    if m > 0 {
        lemma_first_enumerant(es, (m - 1) as nat, literal, declared);
    }
}

/// What the parameter table answers for a kind and a literal: the parameters
/// of the first enumerant of that kind that has that value and declares
/// parameters, where there is one.
pub open spec fn parameters_found(kinds: Seq<OperandKindView>, k: u32, literal: u32) -> Option<
    OperandParametersView,
> {
    if k < kinds.len() {
        let kind = kinds[k as int];
        let es = listed(kind.enumerants);
        match first_enumerant(es, es.len(), literal, true) {
            Some(e) => Some(parameter_entry(kinds, kind, k, es[e], es[e].parameters->0).1),
            None => None,
        }
    } else {
        None
    }
}

/// What the name table answers for a kind and a literal: the display name of
/// the first enumerant of that kind that has that value, where the kind is an
/// enumeration and has one.
pub open spec fn name_found(kinds: Seq<OperandKindView>, k: u32, literal: u32) -> Option<
    OperandNameView,
> {
    if k < kinds.len() && is_enum_category(kinds[k as int].category) {
        let kind = kinds[k as int];
        let es = listed(kind.enumerants);
        match first_enumerant(es, es.len(), literal, false) {
            Some(e) => Some(name_entry(kind, k, es[e]).1),
            None => None,
        }
    } else {
        None
    }
}

/// A single entry is found under its own key and under no other.
proof fn lemma_lookup_single<T>(entry: (u64, T), key: u64)
    ensures
        lookup_in(seq![entry], key) == if entry.0 == key {
            Some(entry.1)
        } else {
            None
        },
{
    let entries = seq![entry];
    lemma_first_index(entry_keys(entries), key);
    assert(entry_keys(entries)[0] == entry.0);
}

/// The parameter entries of the first `m` enumerants of a kind answer for
/// this kind alone, with the parameters of the first enumerant that fits.
proof fn lemma_kind_parameter_lookup(
    kinds: Seq<OperandKindView>,
    kind: OperandKindView,
    at: u32,
    m: nat,
    k: u32,
    literal: u32,
)
    requires
        enumerants_numeric(kind.enumerants),
        m <= listed(kind.enumerants).len(),
    ensures
        lookup_in(
            kind_parameter_entries(kinds, kind, at, m),
            operand_parameter_key(k, literal),
        ) == if k == at {
            match first_enumerant(listed(kind.enumerants), m, literal, true) {
                Some(e) => Some(
                    parameter_entry(
                        kinds,
                        kind,
                        at,
                        listed(kind.enumerants)[e],
                        listed(kind.enumerants)[e].parameters->0,
                    ).1,
                ),
                None => None,
            }
        } else {
            None
        },
    decreases m,
{
    let key = operand_parameter_key(k, literal);
    let es = listed(kind.enumerants);
    if m == 0 {
        lemma_lookup_none(kind_parameter_entries(kinds, kind, at, 0), key);
    } else {
        let front = kind_parameter_entries(kinds, kind, at, (m - 1) as nat);
        let step = enumerant_parameter_entries(kinds, kind, at, es[m - 1]);
        lemma_kind_parameter_lookup(kinds, kind, at, (m - 1) as nat, k, literal);
        lemma_lookup_concat(front, step, key);
        lemma_lookup_some(front, key);
        assert(literal_value(es[m - 1].value) is Some);
        match es[m - 1].parameters {
            Some(ps) => {
                let entry = parameter_entry(kinds, kind, at, es[m - 1], ps);
                lemma_lookup_single(entry, key);
                if entry.0 == key {
                    lemma_composite_injective(at, literal_value(es[m - 1].value)->0, k, literal);
                }
            },
            None => {
                lemma_lookup_none(step, key);
            },
        }
    }
}

/// The parameter entries of the first `n` kinds answer for each of those
/// kinds and for no other.
proof fn lemma_parameter_entries_lookup(kinds: Seq<OperandKindView>, n: nat, k: u32, literal: u32)
    requires
        literals_numeric(kinds),
        n <= kinds.len() <= u32::MAX,
    ensures
        lookup_in(parameter_entries(kinds, n), operand_parameter_key(k, literal)) == if k < n {
            parameters_found(kinds, k, literal)
        } else {
            None
        },
    decreases n,
{
    let key = operand_parameter_key(k, literal);
    if n == 0 {
        lemma_lookup_none(parameter_entries(kinds, 0), key);
    } else {
        let kind = kinds[n - 1];
        let front = parameter_entries(kinds, (n - 1) as nat);
        let step = kind_parameter_entries(
            kinds,
            kind,
            (n - 1) as u32,
            listed(kind.enumerants).len(),
        );
        lemma_parameter_entries_lookup(kinds, (n - 1) as nat, k, literal);
        lemma_kind_parameter_lookup(
            kinds,
            kind,
            (n - 1) as u32,
            listed(kind.enumerants).len(),
            k,
            literal,
        );
        lemma_lookup_concat(front, step, key);
        lemma_lookup_some(front, key);
        lemma_parameter_keys(kinds, (n - 1) as nat, k, literal);
    }
}

/// The parameter table answers for a kind and a literal with the parameters
/// of the first enumerant of that kind that has that value and declares
/// parameters, and with nothing where there is none.
pub proof fn lemma_parameters_found(kinds: Seq<OperandKindView>, k: u32, literal: u32)
    requires
        literals_numeric(kinds),
        kinds.len() <= u32::MAX,
    ensures
        lookup_in(
            unique_entries(parameter_entries(kinds, kinds.len())),
            operand_parameter_key(k, literal),
        ) == parameters_found(kinds, k, literal),
{
    let entries = parameter_entries(kinds, kinds.len());
    lemma_unique_entries(entries, operand_parameter_key(k, literal));
    lemma_parameter_entries_lookup(kinds, kinds.len(), k, literal);
}

/// The name entries of one kind answer for this kind alone, with the display
/// name of the first enumerant that has the value.
proof fn lemma_kind_name_lookup(kind: OperandKindView, at: u32, k: u32, literal: u32)
    requires
        enumerants_numeric(kind.enumerants),
    ensures
        lookup_in(kind_name_entries(kind, at), operand_name_key(k, literal)) == if k == at
            && is_enum_category(kind.category) {
            match first_enumerant(
                listed(kind.enumerants),
                listed(kind.enumerants).len(),
                literal,
                false,
            ) {
                Some(e) => Some(name_entry(kind, at, listed(kind.enumerants)[e]).1),
                None => None,
            }
        } else {
            None
        },
{
    let key = operand_name_key(k, literal);
    let es = listed(kind.enumerants);
    let entries = kind_name_entries(kind, at);
    let keys = entry_keys(entries);
    lemma_first_index(keys, key);
    lemma_first_enumerant(es, es.len(), literal, false);
    if is_enum_category(kind.category) {
        assert forall|i: int| 0 <= i < keys.len() implies (keys[i] == key <==> (k == at
            && literal_value(es[i].value) == Some(literal))) by {
            assert(literal_value(es[i].value) is Some);
            if keys[i] == key {
                lemma_composite_injective(literal_value(es[i].value)->0, at, literal, k);
            }
        }
        if first_index(keys, key) is Some {
            let i = first_index(keys, key)->0;
            assert(keys[i] == key);
            let e = first_enumerant(es, es.len(), literal, false)->0;
            assert(first_enumerant(es, es.len(), literal, false) is Some);
            if e < i {
                assert(keys[e] == key);
            }
        } else {
            if first_enumerant(es, es.len(), literal, false) is Some && k == at {
                let e = first_enumerant(es, es.len(), literal, false)->0;
                assert(keys[e] == key);
            }
        }
    }
}

/// The name entries of the first `n` kinds answer for each of those kinds and
/// for no other.
proof fn lemma_name_entries_lookup(kinds: Seq<OperandKindView>, n: nat, k: u32, literal: u32)
    requires
        literals_numeric(kinds),
        n <= kinds.len() <= u32::MAX,
    ensures
        lookup_in(name_entries(kinds, n), operand_name_key(k, literal)) == if k < n {
            name_found(kinds, k, literal)
        } else {
            None
        },
    decreases n,
{
    let key = operand_name_key(k, literal);
    if n == 0 {
        lemma_lookup_none(name_entries(kinds, 0), key);
    } else {
        let kind = kinds[n - 1];
        let front = name_entries(kinds, (n - 1) as nat);
        let step = kind_name_entries(kind, (n - 1) as u32);
        lemma_name_entries_lookup(kinds, (n - 1) as nat, k, literal);
        lemma_kind_name_lookup(kind, (n - 1) as u32, k, literal);
        lemma_lookup_concat(front, step, key);
        lemma_lookup_some(front, key);
        lemma_name_keys(kinds, (n - 1) as nat, k, literal);
    }
}

/// The name table answers for a kind and a literal with the display name of
/// the first enumerant of that kind that has that value, where the kind is
/// an enumeration, and with nothing otherwise.
pub proof fn lemma_name_found(kinds: Seq<OperandKindView>, k: u32, literal: u32)
    requires
        literals_numeric(kinds),
        kinds.len() <= u32::MAX,
    ensures
        lookup_in(unique_entries(name_entries(kinds, kinds.len())), operand_name_key(k, literal))
            == name_found(kinds, k, literal),
{
    let entries = name_entries(kinds, kinds.len());
    lemma_unique_entries(entries, operand_name_key(k, literal));
    lemma_name_entries_lookup(kinds, kinds.len(), k, literal);
}

/// What the four queries answer on tables compiled from a core grammar and
/// its extended instruction sets: an instruction is found by its opcode and
/// namespace as the canonical instruction of that namespace; a display name
/// is found exactly for the literals of enumerations; parameters are found
/// exactly for the enumerants that declare some, and are not found for the
/// others; bases are found exactly for the composite kinds.
pub proof fn lemma_queries(
    tables: Tables,
    core: GrammarView,
    extended: Seq<GrammarView>,
    opcode: u32,
    namespace: u32,
    kind: u32,
    literal: u32,
)
    requires
        tables.compiled_from(core, extended),
        countable(core.instructions, extended),
        literals_numeric(core.kinds()),
        core.kinds().len() <= u32::MAX,
    ensures
        lookup_in(tables.instructions.entries(), instruction_key(opcode, namespace))
            == instruction_found(core.kinds(), core.instructions, extended, opcode, namespace),
        lookup_in(tables.operand_names.entries(), operand_name_key(kind, literal)) == name_found(
            core.kinds(),
            kind,
            literal,
        ),
        lookup_in(tables.operand_parameters.entries(), operand_parameter_key(kind, literal))
            == parameters_found(core.kinds(), kind, literal),
        lookup_in(tables.operand_parameters.entries(), operand_parameter_key(kind, literal))
            is Some <==> declares_parameters(core.kinds(), kind as int, literal),
        lookup_in(tables.operand_bases.entries(), operand_base_key(kind)) == bases_found(
            core.kinds(),
            kind,
        ),
{
    lemma_instruction_lookup(core, extended, opcode, namespace);
    lemma_name_found(core.kinds(), kind, literal);
    lemma_parameters_found(core.kinds(), kind, literal);
    lemma_parameters_lookup(core.kinds(), kind, literal);
    lemma_bases_lookup(core.kinds(), kind);
}

} // verus!
