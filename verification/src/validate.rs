//! Structural checks that a grammar must pass before it is compiled.
//!
//! Faults are reported by sort, in a fixed order of precedence: an
//! unrecognized quantifier token first, then a reference to a kind that is
//! not declared, then a literal that is no 32-bit number, then a count that
//! a key component cannot hold.

use crate::literal::{literal_number, literal_value};
use crate::operand::{
    classify_quantifier, find_kind, kind_declared, operand_quantified, GrammarError,
};
use crate::schema::{
    listed, Enumerant, EnumerantView, Grammar, GrammarView, Instruction, InstructionView, Operand,
    OperandKind, OperandKindView, OperandView, Parameter, ParameterView,
};
use vstd::prelude::*;

verus! {

/// Whether every operand of an optional list has a recognized quantifier.
pub open spec fn operands_quantified(ops: Option<Seq<OperandView>>) -> bool {
    forall|i: int| 0 <= i < listed(ops).len() ==> operand_quantified(#[trigger] listed(ops)[i])
}

/// Whether every operand of an optional list names a declared kind.
pub open spec fn operands_declared(
    kinds: Seq<OperandKindView>,
    ops: Option<Seq<OperandView>>,
) -> bool {
    forall|i: int|
        0 <= i < listed(ops).len() ==> kind_declared(kinds, (#[trigger] listed(ops)[i]).kind)
}

/// Whether every operand of every instruction has a recognized quantifier.
pub open spec fn instructions_quantified(instrs: Seq<InstructionView>) -> bool {
    forall|i: int| 0 <= i < instrs.len() ==> operands_quantified((#[trigger] instrs[i]).operands)
}

/// Whether every operand of every instruction names a declared kind.
pub open spec fn instructions_declared(
    kinds: Seq<OperandKindView>,
    instrs: Seq<InstructionView>,
) -> bool {
    forall|i: int|
        0 <= i < instrs.len() ==> operands_declared(kinds, (#[trigger] instrs[i]).operands)
}

/// Whether every instruction of every grammar has recognized quantifiers only.
pub open spec fn grammars_quantified(grammars: Seq<GrammarView>) -> bool {
    forall|g: int|
        0 <= g < grammars.len() ==> instructions_quantified((#[trigger] grammars[g]).instructions)
}

/// Whether every instruction of every grammar names declared kinds only.
pub open spec fn grammars_declared(
    kinds: Seq<OperandKindView>,
    grammars: Seq<GrammarView>,
) -> bool {
    forall|g: int|
        0 <= g < grammars.len() ==> instructions_declared(
            kinds,
            (#[trigger] grammars[g]).instructions,
        )
}

/// Whether every parameter of an optional list names a declared kind.
pub open spec fn parameters_declared(
    kinds: Seq<OperandKindView>,
    ps: Option<Seq<ParameterView>>,
) -> bool {
    forall|i: int|
        0 <= i < listed(ps).len() ==> kind_declared(kinds, (#[trigger] listed(ps)[i]).kind)
}

/// Whether every name of an optional list is that of a declared kind.
pub open spec fn bases_declared(
    kinds: Seq<OperandKindView>,
    names: Option<Seq<Seq<char>>>,
) -> bool {
    forall|i: int| 0 <= i < listed(names).len() ==> kind_declared(kinds, #[trigger] listed(names)[i])
}

/// Whether the parameters of every enumerant name declared kinds.
pub open spec fn enumerants_declared(
    kinds: Seq<OperandKindView>,
    es: Option<Seq<EnumerantView>>,
) -> bool {
    forall|i: int|
        0 <= i < listed(es).len() ==> parameters_declared(kinds, (#[trigger] listed(es)[i]).parameters)
}

/// Whether the literal of every enumerant is a number that fits 32 bits.
pub open spec fn enumerants_numeric(es: Option<Seq<EnumerantView>>) -> bool {
    forall|i: int|
        0 <= i < listed(es).len() ==> literal_value((#[trigger] listed(es)[i]).value) is Some
}

/// Whether the bases and parameters of the first `n` kinds name declared kinds.
pub open spec fn kinds_declared_upto(kinds: Seq<OperandKindView>, n: int) -> bool {
    forall|k: int|
        0 <= k < n ==> bases_declared(kinds, (#[trigger] kinds[k]).bases) && enumerants_declared(
            kinds,
            kinds[k].enumerants,
        )
}

/// Whether the bases and parameters of every kind name declared kinds.
pub open spec fn kinds_declared(kinds: Seq<OperandKindView>) -> bool {
    kinds_declared_upto(kinds, kinds.len() as int)
}

/// Whether every enumerant literal of every kind is a 32-bit number.
pub open spec fn literals_numeric(kinds: Seq<OperandKindView>) -> bool {
    forall|k: int| 0 <= k < kinds.len() ==> enumerants_numeric((#[trigger] kinds[k]).enumerants)
}

/// Whether so many kinds and so many extended instruction sets can be
/// numbered within a 32-bit key component: positions of kinds start at 0,
/// namespaces of extended instruction sets at 1.
pub open spec fn counts_fit(kinds: nat, extended: nat) -> bool {
    kinds <= u32::MAX && extended < u32::MAX
}

/// Whether kind positions and namespace numbers fit a 32-bit key component.
pub open spec fn within_capacity(kinds: Seq<OperandKindView>, extended: Seq<GrammarView>) -> bool {
    counts_fit(kinds.len(), extended.len())
}

/// The fault of a core grammar and its extended instruction sets, if any.
pub open spec fn grammar_fault(core: GrammarView, extended: Seq<GrammarView>) -> Option<
    GrammarError,
> {
    let kinds = core.kinds();
    if !(instructions_quantified(core.instructions) && grammars_quantified(extended)) {
        Some(GrammarError::UnknownQuantifier)
    } else if !(instructions_declared(kinds, core.instructions) && grammars_declared(
        kinds,
        extended,
    ) && kinds_declared(kinds)) {
        Some(GrammarError::UndeclaredKind)
    } else if !literals_numeric(kinds) {
        Some(GrammarError::MalformedLiteral)
    } else if !within_capacity(kinds, extended) {
        Some(GrammarError::CapacityExceeded)
    } else {
        None
    }
}

/// Checks the operands of one instruction: whether all quantifiers are
/// recognized, and whether all kinds are declared.
pub fn check_operands(kinds: &Vec<OperandKind>, ops: &Option<Vec<Operand>>) -> (r: (bool, bool))
    ensures
        r.0 == operands_quantified(ops.deep_view()),
        r.1 == operands_declared(kinds.deep_view(), ops.deep_view()),
{
    match ops {
        None => {
            assert(listed(ops.deep_view()).len() == 0);
            (true, true)
        },
        Some(list) => {
            let ghost view = list.deep_view();
            assert(listed(ops.deep_view()) == view);
            let mut quantified = true;
            let mut declared = true;
            let mut i: usize = 0;
            while i < list.len()
                invariant
                    i <= list.len(),
                    view == list.deep_view(),
                    quantified == forall|j: int|
                        0 <= j < i ==> operand_quantified(#[trigger] view[j]),
                    declared == forall|j: int|
                        0 <= j < i ==> kind_declared(kinds.deep_view(), (#[trigger] view[j]).kind),
                decreases list.len() - i,
            {
                assert(view[i as int] == list@[i as int]@);
                if classify_quantifier(&list[i].quantifier).is_err() {
                    assert(!operand_quantified(view[i as int]));
                    quantified = false;
                } else {
                    assert(operand_quantified(view[i as int]));
                }
                if find_kind(kinds, list[i].kind.as_str()).is_none() {
                    declared = false;
                }
                i += 1;
            }
            (quantified, declared)
        },
    }
}

/// Checks the operands of every instruction of a list.
pub fn check_instructions(kinds: &Vec<OperandKind>, instrs: &Vec<Instruction>) -> (r: (bool, bool))
    ensures
        r.0 == instructions_quantified(instrs.deep_view()),
        r.1 == instructions_declared(kinds.deep_view(), instrs.deep_view()),
{
    let ghost view = instrs.deep_view();
    let mut quantified = true;
    let mut declared = true;
    let mut i: usize = 0;
    while i < instrs.len()
        invariant
            i <= instrs.len(),
            view == instrs.deep_view(),
            quantified == forall|j: int|
                0 <= j < i ==> operands_quantified((#[trigger] view[j]).operands),
            declared == forall|j: int|
                0 <= j < i ==> operands_declared(kinds.deep_view(), (#[trigger] view[j]).operands),
        decreases instrs.len() - i,
    {
        assert(view[i as int] == instrs@[i as int]@);
        let r = check_operands(kinds, &instrs[i].operands);
        if !r.0 {
            quantified = false;
        }
        if !r.1 {
            declared = false;
        }
        i += 1;
    }
    (quantified, declared)
}

/// Checks the operands of every instruction of every grammar of a list.
pub fn check_grammars(kinds: &Vec<OperandKind>, grammars: &Vec<Grammar>) -> (r: (bool, bool))
    ensures
        r.0 == grammars_quantified(grammars.deep_view()),
        r.1 == grammars_declared(kinds.deep_view(), grammars.deep_view()),
{
    let ghost view = grammars.deep_view();
    let mut quantified = true;
    let mut declared = true;
    let mut i: usize = 0;
    while i < grammars.len()
        invariant
            i <= grammars.len(),
            view == grammars.deep_view(),
            quantified == forall|j: int|
                0 <= j < i ==> instructions_quantified((#[trigger] view[j]).instructions),
            declared == forall|j: int|
                0 <= j < i ==> instructions_declared(
                    kinds.deep_view(),
                    (#[trigger] view[j]).instructions,
                ),
        decreases grammars.len() - i,
    {
        assert(view[i as int] == grammars@[i as int]@);
        let r = check_instructions(kinds, &grammars[i].instructions);
        if !r.0 {
            quantified = false;
        }
        if !r.1 {
            declared = false;
        }
        i += 1;
    }
    (quantified, declared)
}

/// Checks that every parameter of an optional list names a declared kind.
pub fn check_parameters(kinds: &Vec<OperandKind>, ps: &Option<Vec<Parameter>>) -> (r: bool)
    ensures
        r == parameters_declared(kinds.deep_view(), ps.deep_view()),
{
    match ps {
        None => {
            assert(listed(ps.deep_view()).len() == 0);
            true
        },
        Some(list) => {
            let ghost view = list.deep_view();
            assert(listed(ps.deep_view()) == view);
            let mut declared = true;
            let mut i: usize = 0;
            while i < list.len()
                invariant
                    i <= list.len(),
                    view == list.deep_view(),
                    declared == forall|j: int|
                        0 <= j < i ==> kind_declared(kinds.deep_view(), (#[trigger] view[j]).kind),
                decreases list.len() - i,
            {
                assert(view[i as int] == list@[i as int]@);
                if find_kind(kinds, list[i].kind.as_str()).is_none() {
                    declared = false;
                }
                i += 1;
            }
            declared
        },
    }
}

/// Checks that every base of an optional list is a declared kind.
pub fn check_bases(kinds: &Vec<OperandKind>, names: &Option<Vec<String>>) -> (r: bool)
    ensures
        r == bases_declared(kinds.deep_view(), names.deep_view()),
{
    match names {
        None => {
            assert(listed(names.deep_view()).len() == 0);
            true
        },
        Some(list) => {
            let ghost view = list.deep_view();
            assert(listed(names.deep_view()) == view);
            let mut declared = true;
            let mut i: usize = 0;
            while i < list.len()
                invariant
                    i <= list.len(),
                    view == list.deep_view(),
                    declared == forall|j: int|
                        0 <= j < i ==> kind_declared(kinds.deep_view(), #[trigger] view[j]),
                decreases list.len() - i,
            {
                assert(view[i as int] == list@[i as int]@);
                if find_kind(kinds, list[i].as_str()).is_none() {
                    assert(!kind_declared(kinds.deep_view(), view[i as int]));
                    declared = false;
                } else {
                    assert(kind_declared(kinds.deep_view(), view[i as int]));
                }
                i += 1;
            }
            declared
        },
    }
}

/// Checks the enumerants of one kind: whether all parameters name declared
/// kinds, and whether all literals are 32-bit numbers.
pub fn check_enumerants(kinds: &Vec<OperandKind>, es: &Option<Vec<Enumerant>>) -> (r: (bool, bool))
    ensures
        r.0 == enumerants_declared(kinds.deep_view(), es.deep_view()),
        r.1 == enumerants_numeric(es.deep_view()),
{
    match es {
        None => {
            assert(listed(es.deep_view()).len() == 0);
            (true, true)
        },
        Some(list) => {
            let ghost view = list.deep_view();
            assert(listed(es.deep_view()) == view);
            let mut declared = true;
            let mut numeric = true;
            let mut i: usize = 0;
            while i < list.len()
                invariant
                    i <= list.len(),
                    view == list.deep_view(),
                    declared == forall|j: int|
                        0 <= j < i ==> parameters_declared(
                            kinds.deep_view(),
                            (#[trigger] view[j]).parameters,
                        ),
                    numeric == forall|j: int|
                        0 <= j < i ==> literal_value((#[trigger] view[j]).value) is Some,
                decreases list.len() - i,
            {
                assert(view[i as int] == list@[i as int]@);
                if !check_parameters(kinds, &list[i].parameters) {
                    declared = false;
                }
                if literal_number(&list[i].value).is_none() {
                    numeric = false;
                }
                i += 1;
            }
            (declared, numeric)
        },
    }
}

/// Checks the declarations of the kinds themselves: whether all bases and
/// parameters name declared kinds, and whether all literals are 32-bit numbers.
pub fn check_kinds(kinds: &Vec<OperandKind>) -> (r: (bool, bool))
    ensures
        r.0 == kinds_declared(kinds.deep_view()),
        r.1 == literals_numeric(kinds.deep_view()),
{
    let ghost view = kinds.deep_view();
    let mut declared = true;
    let mut numeric = true;
    let mut i: usize = 0;
    while i < kinds.len()
        invariant
            i <= kinds.len(),
            view == kinds.deep_view(),
            declared == kinds_declared_upto(view, i as int),
            numeric == forall|j: int|
                0 <= j < i ==> enumerants_numeric((#[trigger] view[j]).enumerants),
        decreases kinds.len() - i,
    {
        assert(view[i as int] == kinds@[i as int]@);
        let bases = check_bases(kinds, &kinds[i].bases);
        let r = check_enumerants(kinds, &kinds[i].enumerants);
        if !bases || !r.0 {
            declared = false;
        }
        if !r.1 {
            numeric = false;
        }
        i += 1;
    }
    (declared, numeric)
}

/// Checks that so many kinds and so many extended instruction sets can be
/// numbered within a 32-bit key component.
pub fn check_capacity(kinds: usize, extended: usize) -> (r: Result<(), GrammarError>)
    ensures
        match r {
            Ok(_) => counts_fit(kinds as nat, extended as nat),
            Err(e) => !counts_fit(kinds as nat, extended as nat) && e
                == GrammarError::CapacityExceeded,
        },
{
    if kinds > 0xffff_ffff || extended >= 0xffff_ffff {
        Err(GrammarError::CapacityExceeded)
    } else {
        Ok(())
    }
}

/// Checks a core grammar, given with its operand kinds, and the extended
/// instruction sets that go with it.
pub fn validate_with(
    kinds: &Vec<OperandKind>,
    core: &Grammar,
    extended: &Vec<Grammar>,
) -> (r: Result<(), GrammarError>)
    requires
        kinds.deep_view() == core@.kinds(),
    ensures
        match r {
            Ok(_) => grammar_fault(core@, extended.deep_view()) is None,
            Err(e) => grammar_fault(core@, extended.deep_view()) == Some(e),
        },
{
    let own = check_instructions(kinds, &core.instructions);
    let others = check_grammars(kinds, extended);
    if !own.0 || !others.0 {
        return Err(GrammarError::UnknownQuantifier);
    }
    let declarations = check_kinds(kinds);
    if !own.1 || !others.1 || !declarations.0 {
        return Err(GrammarError::UndeclaredKind);
    }
    if !declarations.1 {
        return Err(GrammarError::MalformedLiteral);
    }
    check_capacity(kinds.len(), extended.len())
}

/// Checks a core grammar and the extended instruction sets that go with it.
pub fn validate(core: &Grammar, extended: &Vec<Grammar>) -> (r: Result<(), GrammarError>)
    ensures
        match r {
            Ok(_) => grammar_fault(core@, extended.deep_view()) is None,
            Err(e) => grammar_fault(core@, extended.deep_view()) == Some(e),
        },
{
    match &core.operand_kinds {
        Some(kinds) => validate_with(kinds, core, extended),
        None => {
            let kinds: Vec<OperandKind> = Vec::new();
            assert(kinds.deep_view() =~= core@.kinds());
            validate_with(&kinds, core, extended)
        },
    }
}

} // verus!
