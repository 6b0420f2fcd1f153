//! Classification predicates over opcodes.
//!
//! Each predicate is a total function of the opcode. It is derived from the
//! canonical instruction of the opcode and has a fixed answer for an opcode
//! that no instruction carries: most instructions produce a result and a
//! typed result, so the two result predicates default to true; the three
//! predicates that go by a name prefix default to false.

use crate::canon::{
    canonical_order, chosen, kept, lemma_canonical_covers, lemma_kept, opcode_at,
};
use crate::schema::{listed, Instruction, InstructionView};
use crate::text::{starts_with, str_equal};
use vstd::prelude::*;

verus! {

/// A classification predicate.
#[derive(Debug, Clone, Copy, PartialEq, Eq, Structural)]
pub enum Predicate {
    /// The instruction has a result id.
    HasResult,
    /// The instruction has a result-type id.
    HasResultType,
    /// The instruction defines a type.
    IsTypeOp,
    /// The instruction defines a constant.
    IsConstantOp,
    /// The instruction defines a specialization constant.
    IsSpecConstantOp,
}

/// Whether an instruction has an operand of the kind `kind`.
pub open spec fn has_operand_of_kind(i: InstructionView, kind: Seq<char>) -> bool {
    exists|k: int| 0 <= k < listed(i.operands).len() && (#[trigger] listed(i.operands)[k]).kind == kind
}

/// The answer of a predicate for an opcode that no instruction carries.
pub open spec fn predicate_default(p: Predicate) -> bool {
    p is HasResult || p is HasResultType
}

/// Whether a predicate holds of an instruction.
pub open spec fn predicate_holds(p: Predicate, i: InstructionView) -> bool {
    match p {
        Predicate::HasResult => has_operand_of_kind(i, "IdResult"@),
        Predicate::HasResultType => has_operand_of_kind(i, "IdResultType"@),
        Predicate::IsTypeOp => "OpType"@.is_prefix_of(i.opname),
        Predicate::IsConstantOp => "OpConstant"@.is_prefix_of(i.opname),
        Predicate::IsSpecConstantOp => "OpSpecConstant"@.is_prefix_of(i.opname),
    }
}

/// The answer of a predicate for an opcode: that of the canonical instruction
/// of the opcode, or the default where there is none.
pub open spec fn classify(p: Predicate, instrs: Seq<InstructionView>, opcode: u32) -> bool {
    match chosen(instrs, opcode) {
        Some(k) => predicate_holds(p, instrs[k]),
        None => predicate_default(p),
    }
}

/// Whether an instruction is an exception to the default of a predicate.
pub open spec fn is_exception(p: Predicate, i: InstructionView) -> bool {
    predicate_holds(p, i) != predicate_default(p)
}

/// Of the first `n` entries of an order, those that point at an exception to
/// the default of a predicate.
pub open spec fn exceptions(
    p: Predicate,
    instrs: Seq<InstructionView>,
    order: Seq<usize>,
    n: nat,
) -> Seq<usize>
    decreases n,
{
    if n == 0 {
        Seq::empty()
    } else {
        let before = exceptions(p, instrs, order, (n - 1) as nat);
        if is_exception(p, instrs[order[n - 1] as int]) {
            before.push(order[n - 1])
        } else {
            before
        }
    }
}

/// The default answer of a predicate.
pub fn default_of(p: Predicate) -> (r: bool)
    ensures
        r == predicate_default(p),
{
    match p {
        Predicate::HasResult => true,
        Predicate::HasResultType => true,
        Predicate::IsTypeOp => false,
        Predicate::IsConstantOp => false,
        Predicate::IsSpecConstantOp => false,
    }
}

/// Tells whether an instruction has an operand of the kind `kind`.
pub fn has_operand(instr: &Instruction, kind: &str) -> (r: bool)
    ensures
        r == has_operand_of_kind(instr@, kind@),
{
    match &instr.operands {
        None => {
            assert(listed(instr@.operands).len() == 0);
            false
        },
        Some(ops) => {
            let ghost view = ops.deep_view();
            assert(listed(instr@.operands) == view);
            let mut i: usize = 0;
            while i < ops.len()
                invariant
                    i <= ops.len(),
                    view == ops.deep_view(),
                    listed(instr@.operands) == view,
                    forall|j: int| 0 <= j < i ==> (#[trigger] view[j]).kind != kind@,
                decreases ops.len() - i,
            {
                assert(view[i as int] == ops@[i as int]@);
                if str_equal(ops[i].kind.as_str(), kind) {
                    assert(0 <= i < listed(instr@.operands).len() && listed(
                        instr@.operands,
                    )[i as int].kind == kind@);
                    return true;
                }
                i += 1;
            }
            false
        },
    }
}

/// Tells whether a predicate holds of an instruction.
pub fn holds(p: Predicate, instr: &Instruction) -> (r: bool)
    ensures
        r == predicate_holds(p, instr@),
{
    match p {
        Predicate::HasResult => has_operand(instr, "IdResult"),
        Predicate::HasResultType => has_operand(instr, "IdResultType"),
        Predicate::IsTypeOp => starts_with(instr.opname.as_str(), "OpType"),
        Predicate::IsConstantOp => starts_with(instr.opname.as_str(), "OpConstant"),
        Predicate::IsSpecConstantOp => starts_with(instr.opname.as_str(), "OpSpecConstant"),
    }
}

/// Finds the canonical instruction of an opcode.
pub fn canonical_of(instrs: &Vec<Instruction>, opcode: u32) -> (r: Option<usize>)
    ensures
        match r {
            Some(k) => chosen(instrs.deep_view(), opcode) == Some(k as int) && k < instrs.len(),
            None => chosen(instrs.deep_view(), opcode) is None,
        },
{
    let ghost view = instrs.deep_view();
    let mut held: Option<usize> = None;
    let mut n: usize = 0;
    while n < instrs.len()
        invariant
            n <= instrs.len(),
            view == instrs.deep_view(),
            match held {
                Some(k) => kept(view, n as nat, opcode) == Some(k as int) && k < n,
                None => kept(view, n as nat, opcode) is None,
            },
        decreases instrs.len() - n,
    {
        assert(view[n as int] == instrs@[n as int]@);
        if instrs[n].opcode == opcode {
            match held {
                None => {
                    held = Some(n);
                },
                Some(k) => {
                    assert(view[k as int] == instrs@[k as int]@);
                    if instrs[k].opname != instrs[n].opname {
                        held = Some(n);
                    }
                },
            }
        }
        n += 1;
    }
    held
}

/// Answers a predicate for an opcode.
pub fn classify_opcode(p: Predicate, instrs: &Vec<Instruction>, opcode: u32) -> (r: bool)
    ensures
        r == classify(p, instrs.deep_view(), opcode),
{
    match canonical_of(instrs, opcode) {
        Some(k) => {
            assert(instrs.deep_view()[k as int] == instrs@[k as int]@);
            holds(p, &instrs[k])
        },
        None => default_of(p),
    }
}

/// Lists, in the given order, the entries that point at an exception to the
/// default of a predicate.
pub fn list_exceptions(p: Predicate, instrs: &Vec<Instruction>, order: &Vec<usize>) -> (r: Vec<
    usize,
>)
    requires
        forall|j: int| 0 <= j < order.len() ==> (#[trigger] order@[j]) < instrs.len(),
    ensures
        r@ == exceptions(p, instrs.deep_view(), order@, order.len() as nat),
        forall|j: int| 0 <= j < r.len() ==> (#[trigger] r@[j]) < instrs.len(),
{
    let ghost view = instrs.deep_view();
    let fallback = default_of(p);
    let mut r: Vec<usize> = Vec::new();
    let mut n: usize = 0;
    while n < order.len()
        invariant
            n <= order.len(),
            view == instrs.deep_view(),
            fallback == predicate_default(p),
            forall|j: int| 0 <= j < order.len() ==> (#[trigger] order@[j]) < instrs.len(),
            r@ == exceptions(p, view, order@, n as nat),
            forall|j: int| 0 <= j < r.len() ==> (#[trigger] r@[j]) < instrs.len(),
        decreases order.len() - n,
    {
        let at = order[n];
        assert(view[at as int] == instrs@[at as int]@);
        if holds(p, &instrs[at]) != fallback {
            r.push(at);
        }
        n += 1;
    }
    r
}

/// The exceptions listed among the first `n` entries of an order are the
/// entries among them that point at an exception.
pub proof fn lemma_exceptions(
    p: Predicate,
    instrs: Seq<InstructionView>,
    order: Seq<usize>,
    n: nat,
    k: usize,
)
    requires
        n <= order.len(),
    ensures
        exceptions(p, instrs, order, n).contains(k) <==> exists|j: int|
            0 <= j < n && #[trigger] order[j] == k && is_exception(p, instrs[k as int]),
    decreases n,
{
    if n == 0 {
    } else {
        let before = exceptions(p, instrs, order, (n - 1) as nat);
        let all = exceptions(p, instrs, order, n);
        lemma_exceptions(p, instrs, order, (n - 1) as nat, k);
        if is_exception(p, instrs[order[n - 1] as int]) {
            assert(all == before.push(order[n - 1]));
            if all.contains(k) {
                let i = choose|i: int| 0 <= i < all.len() && all[i] == k;
                if i < before.len() {
                    assert(before[i] == k);
                } else {
                    assert(order[n - 1] == k);
                }
            }
            if before.contains(k) {
                let i = choose|i: int| 0 <= i < before.len() && before[i] == k;
                assert(all[i] == k);
            }
            if order[n - 1] == k {
                assert(all[all.len() - 1] == k);
            }
        }
        if exists|j: int|
            0 <= j < n && #[trigger] order[j] == k && is_exception(p, instrs[k as int]) {
            let j = choose|j: int|
                0 <= j < n && #[trigger] order[j] == k && is_exception(p, instrs[k as int]);
            if j < n - 1 {
                assert(0 <= j < n - 1 && order[j] == k);
            }
        }
        if before.contains(k) {
            let j = choose|j: int|
                0 <= j < n - 1 && #[trigger] order[j] == k && is_exception(p, instrs[k as int]);
            assert(0 <= j < n && order[j] == k);
        }
    }
}

/// The exceptions of a canonical order speak for the predicate: an opcode is
/// answered against the default exactly when its canonical instruction is
/// listed, and with the default for every other opcode, known or not.
pub proof fn lemma_exceptions_decide(
    p: Predicate,
    instrs: Seq<InstructionView>,
    order: Seq<usize>,
    opcode: u32,
)
    requires
        canonical_order(instrs, order),
    ensures
        classify(p, instrs, opcode) != predicate_default(p) <==> exists|k: usize|
            #[trigger] exceptions(p, instrs, order, order.len()).contains(k) && k < instrs.len()
                && instrs[k as int].opcode == opcode,
{
    let listed = exceptions(p, instrs, order, order.len());
    lemma_kept(instrs, instrs.len(), opcode);
    lemma_canonical_covers(instrs, order, opcode);
    if classify(p, instrs, opcode) != predicate_default(p) {
        let c = chosen(instrs, opcode)->0;
        let j = choose|j: int| 0 <= j < order.len() && #[trigger] order[j] as int == c;
        let k = order[j];
        lemma_exceptions(p, instrs, order, order.len(), k);
        assert(0 <= j < order.len() && order[j] == k && is_exception(p, instrs[k as int]));
        assert(listed.contains(k) && k < instrs.len() && instrs[k as int].opcode == opcode);
    }
    if exists|k: usize|
        #[trigger] listed.contains(k) && k < instrs.len() && instrs[k as int].opcode == opcode {
        let k = choose|k: usize|
            #[trigger] listed.contains(k) && k < instrs.len() && instrs[k as int].opcode == opcode;
        lemma_exceptions(p, instrs, order, order.len(), k);
        let j = choose|j: int|
            0 <= j < order.len() && #[trigger] order[j] == k && is_exception(p, instrs[k as int]);
        assert(opcode_at(instrs, order, j) == opcode);
        assert(chosen(instrs, opcode) == Some(k as int));
    }
}

/// An opcode is answered against the default exactly when its canonical
/// instruction is an exception.
pub proof fn lemma_classify_exception(p: Predicate, instrs: Seq<InstructionView>, opcode: u32)
    ensures
        classify(p, instrs, opcode) != predicate_default(p) <==> (chosen(instrs, opcode) matches Some(
            k,
        ) && is_exception(p, instrs[k])),
{
}

/// Every opcode that no instruction carries gets the default answer.
pub proof fn lemma_classify_unknown(p: Predicate, instrs: Seq<InstructionView>, opcode: u32)
    requires
        forall|i: int| 0 <= i < instrs.len() ==> (#[trigger] instrs[i]).opcode != opcode,
    ensures
        classify(p, instrs, opcode) == predicate_default(p),
{
    lemma_kept(instrs, instrs.len(), opcode);
}

} // verus!
