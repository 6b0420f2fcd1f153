//! Canonicalization: one instruction per opcode, in ascending opcode order.
//!
//! Instructions are read in document order. The first instruction seen for an
//! opcode is kept; a later instruction with the same opcode replaces the kept
//! one exactly when its name differs from the kept one's name. Vendor suffixes
//! are not consulted: document order alone decides, so a caller that wants a
//! ratified name to win must put it last.

use crate::schema::{Instruction, InstructionView};
use vstd::prelude::*;

verus! {

/// The position of the instruction kept for `opcode` once the first `n`
/// instructions have been read; `None` while the opcode has not been seen.
pub open spec fn kept(instrs: Seq<InstructionView>, n: nat, opcode: u32) -> Option<int>
    decreases n,
{
    if n == 0 {
        None
    } else {
        let prior = kept(instrs, (n - 1) as nat, opcode);
        let i = n - 1;
        if instrs[i].opcode != opcode {
            prior
        } else {
            match prior {
                None => Some(i),
                Some(k) => if instrs[k].opname != instrs[i].opname {
                    Some(i)
                } else {
                    Some(k)
                },
            }
        }
    }
}

/// The position of the canonical instruction for `opcode` in a whole list.
pub open spec fn chosen(instrs: Seq<InstructionView>, opcode: u32) -> Option<int> {
    kept(instrs, instrs.len(), opcode)
}

/// The opcode of the instruction that entry `j` of `order` points at.
pub open spec fn opcode_at(instrs: Seq<InstructionView>, order: Seq<usize>, j: int) -> u32 {
    instrs[order[j] as int].opcode
}

/// Whether `order` lists, by position, the instruction kept for every opcode
/// among the first `n` instructions, in strictly ascending opcode order.
pub open spec fn canonical_upto(instrs: Seq<InstructionView>, n: nat, order: Seq<usize>) -> bool {
    &&& forall|j: int| 0 <= j < order.len() ==> (#[trigger] order[j]) < n
    &&& forall|j: int, k: int|
        0 <= j < k < order.len() ==> #[trigger] opcode_at(instrs, order, j) < #[trigger] opcode_at(
            instrs,
            order,
            k,
        )
    &&& forall|j: int|
        0 <= j < order.len() ==> kept(instrs, n, #[trigger] opcode_at(instrs, order, j)) == Some(
            order[j] as int,
        )
    &&& forall|i: int|
        0 <= i < n ==> exists|j: int|
            0 <= j < order.len() && #[trigger] opcode_at(instrs, order, j) == (
            #[trigger] instrs[i]).opcode
}

/// Whether `order` lists, by position in `instrs`, the canonical instruction
/// of every opcode that occurs, in strictly ascending opcode order.
pub open spec fn canonical_order(instrs: Seq<InstructionView>, order: Seq<usize>) -> bool {
    canonical_upto(instrs, instrs.len(), order)
}

/// A kept position lies among the instructions read and holds the opcode asked
/// for; nothing is kept only while no instruction read has that opcode.
pub proof fn lemma_kept(instrs: Seq<InstructionView>, n: nat, opcode: u32)
    requires
        n <= instrs.len(),
    ensures
        kept(instrs, n, opcode) matches Some(k) ==> 0 <= k < n && instrs[k].opcode == opcode,
        kept(instrs, n, opcode) is None ==> forall|i: int|
            0 <= i < n ==> (#[trigger] instrs[i]).opcode != opcode,
    decreases n,
{
    if n > 0 {
        lemma_kept(instrs, (n - 1) as nat, opcode);
    }
}

/// No two entries of a canonical order share an opcode.
pub proof fn lemma_canonical_opcodes_unique(
    instrs: Seq<InstructionView>,
    order: Seq<usize>,
    j: int,
    k: int,
)
    requires
        canonical_order(instrs, order),
        0 <= j < order.len(),
        0 <= k < order.len(),
        j != k,
    ensures
        instrs[order[j] as int].opcode != instrs[order[k] as int].opcode,
{
    if j < k {
        assert(opcode_at(instrs, order, j) < opcode_at(instrs, order, k));
    } else {
        assert(opcode_at(instrs, order, k) < opcode_at(instrs, order, j));
    }
}

/// An opcode has an entry in a canonical order exactly when some instruction
/// carries it, and that entry is the canonical instruction of the opcode.
pub proof fn lemma_canonical_covers(instrs: Seq<InstructionView>, order: Seq<usize>, opcode: u32)
    requires
        canonical_order(instrs, order),
    ensures
        chosen(instrs, opcode) matches Some(k) ==> exists|j: int|
            0 <= j < order.len() && #[trigger] order[j] as int == k,
        chosen(instrs, opcode) is None ==> forall|j: int|
            0 <= j < order.len() ==> #[trigger] opcode_at(instrs, order, j) != opcode,
{
    lemma_kept(instrs, instrs.len(), opcode);
    if let Some(k) = chosen(instrs, opcode) {
        assert(instrs[k].opcode == opcode);
        let j = choose|j: int|
            0 <= j < order.len() && #[trigger] opcode_at(instrs, order, j) == instrs[k].opcode;
        assert(order[j] as int == k);
    } else {
        assert forall|j: int| 0 <= j < order.len() implies #[trigger] opcode_at(instrs, order, j)
            != opcode by {
            assert(order[j] < instrs.len());
        }
    }
}

/// Where two instructions alone share an opcode, under different names, what
/// is kept for that opcode goes from nothing to the earlier one to the later one.
proof fn lemma_two_names_upto(instrs: Seq<InstructionView>, a: int, b: int, n: nat)
    requires
        0 <= a < b < instrs.len(),
        n <= instrs.len(),
        instrs[a].opcode == instrs[b].opcode,
        instrs[a].opname != instrs[b].opname,
        forall|i: int|
            0 <= i < instrs.len() && i != a && i != b ==> (#[trigger] instrs[i]).opcode
                != instrs[a].opcode,
    ensures
        kept(instrs, n, instrs[a].opcode) == if n <= a {
            None
        } else if n <= b {
            Some(a)
        } else {
            Some(b)
        },
    decreases n,
{
    if n > 0 {
        lemma_two_names_upto(instrs, a, b, (n - 1) as nat);
    }
}

/// Of two instructions that alone share an opcode, under different names, the
/// one that comes later in the document is canonical, whichever of the two
/// carries a vendor suffix.
pub proof fn lemma_later_name_wins(instrs: Seq<InstructionView>, a: int, b: int)
    requires
        0 <= a < b < instrs.len(),
        instrs[a].opcode == instrs[b].opcode,
        instrs[a].opname != instrs[b].opname,
        forall|i: int|
            0 <= i < instrs.len() && i != a && i != b ==> (#[trigger] instrs[i]).opcode
                != instrs[a].opcode,
    ensures
        chosen(instrs, instrs[a].opcode) == Some(b),
{
    lemma_two_names_upto(instrs, a, b, instrs.len());
}

/// The opcodes that the entries of `order` point at, in order.
pub open spec fn opcodes_of(instrs: Seq<InstructionView>, order: Seq<usize>) -> Seq<u32> {
    Seq::new(order.len(), |j: int| opcode_at(instrs, order, j))
}

/// Two strictly ascending sequences with the same elements are the same sequence.
proof fn lemma_ascending_unique(a: Seq<u32>, b: Seq<u32>)
    requires
        forall|i: int, j: int| 0 <= i < j < a.len() ==> a[i] < a[j],
        forall|i: int, j: int| 0 <= i < j < b.len() ==> b[i] < b[j],
        forall|x: u32| a.contains(x) <==> b.contains(x),
    ensures
        a == b,
    decreases a.len(),
{
    if a.len() == 0 {
        if b.len() > 0 {
            assert(b.contains(b[0]));
            assert(a.contains(b[0]));
        }
        assert(a =~= b);
    } else {
        let top = a.last();
        assert(a.contains(top));
        assert(b.contains(top));
        let at = choose|i: int| 0 <= i < b.len() && b[i] == top;
        if at != b.len() - 1 {
            let other = b.last();
            assert(b[at] < b[b.len() - 1]);
            assert(b.contains(other));
            assert(a.contains(other));
            let back = choose|i: int| 0 <= i < a.len() && a[i] == other;
            if back < a.len() - 1 {
                assert(a[back] < a[a.len() - 1]);
            }
            assert(false);
        }
        let a0 = a.drop_last();
        let b0 = b.drop_last();
        assert forall|x: u32| a0.contains(x) <==> b0.contains(x) by {
            if a0.contains(x) {
                let i = choose|i: int| 0 <= i < a0.len() && a0[i] == x;
                assert(a[i] == x);
                assert(a[i] < a[a.len() - 1]);
                assert(a.contains(x));
                assert(b.contains(x));
                let j = choose|j: int| 0 <= j < b.len() && b[j] == x;
                assert(b0[j] == x);
            }
            if b0.contains(x) {
                let i = choose|i: int| 0 <= i < b0.len() && b0[i] == x;
                assert(b[i] == x);
                assert(b[i] < b[b.len() - 1]);
                assert(b.contains(x));
                assert(a.contains(x));
                let j = choose|j: int| 0 <= j < a.len() && a[j] == x;
                assert(a0[j] == x);
            }
        }
        assert forall|i: int, j: int| 0 <= i < j < a0.len() implies a0[i] < a0[j] by {
            assert(a[i] < a[j]);
        }
        assert forall|i: int, j: int| 0 <= i < j < b0.len() implies b0[i] < b0[j] by {
            assert(b[i] < b[j]);
        }
        lemma_ascending_unique(a0, b0);
        assert(a =~= a0.push(top));
        assert(b =~= b0.push(top));
    }
}

/// Every opcode of one canonical order occurs in any other.
proof fn lemma_canonical_same_opcodes(
    instrs: Seq<InstructionView>,
    a: Seq<usize>,
    b: Seq<usize>,
    x: u32,
)
    requires
        canonical_order(instrs, a),
        canonical_order(instrs, b),
        opcodes_of(instrs, a).contains(x),
    ensures
        opcodes_of(instrs, b).contains(x),
{
    let oa = opcodes_of(instrs, a);
    let ob = opcodes_of(instrs, b);
    let j = choose|j: int| 0 <= j < oa.len() && oa[j] == x;
    assert(opcode_at(instrs, a, j) == x);
    let i = a[j] as int;
    assert(0 <= i < instrs.len());
    let k = choose|k: int|
        0 <= k < b.len() && #[trigger] opcode_at(instrs, b, k) == instrs[i].opcode;
    assert(ob[k] == x);
}

/// A list of instructions has one canonical order only.
pub proof fn lemma_canonical_unique(instrs: Seq<InstructionView>, a: Seq<usize>, b: Seq<usize>)
    requires
        canonical_order(instrs, a),
        canonical_order(instrs, b),
    ensures
        a == b,
{
    let oa = opcodes_of(instrs, a);
    let ob = opcodes_of(instrs, b);
    assert forall|x: u32| oa.contains(x) <==> ob.contains(x) by {
        if oa.contains(x) {
            lemma_canonical_same_opcodes(instrs, a, b, x);
        }
        if ob.contains(x) {
            lemma_canonical_same_opcodes(instrs, b, a, x);
        }
    }
    assert forall|i: int, j: int| 0 <= i < j < oa.len() implies oa[i] < oa[j] by {
        assert(opcode_at(instrs, a, i) < opcode_at(instrs, a, j));
    }
    assert forall|i: int, j: int| 0 <= i < j < ob.len() implies ob[i] < ob[j] by {
        assert(opcode_at(instrs, b, i) < opcode_at(instrs, b, j));
    }
    lemma_ascending_unique(oa, ob);
    assert(a.len() == b.len());
    assert forall|j: int| 0 <= j < a.len() implies a[j] == b[j] by {
        assert(oa[j] == ob[j]);
        assert(kept(instrs, instrs.len(), opcode_at(instrs, a, j)) == Some(a[j] as int));
        assert(kept(instrs, instrs.len(), opcode_at(instrs, b, j)) == Some(b[j] as int));
    }
    assert(a =~= b);
}

/// The canonical order of a list of instructions.
pub open spec fn canonical_positions(instrs: Seq<InstructionView>) -> Seq<usize> {
    choose|order: Seq<usize>| canonical_order(instrs, order)
}

/// Reading an instruction whose opcode already has an entry keeps the entry
/// where the names agree and points it at the newcomer where they differ.
proof fn lemma_step_seen(instrs: Seq<InstructionView>, n: nat, before: Seq<usize>, q: int)
    requires
        n < instrs.len(),
        n <= usize::MAX,
        canonical_upto(instrs, n, before),
        0 <= q < before.len(),
        opcode_at(instrs, before, q) == instrs[n as int].opcode,
    ensures
        instrs[before[q] as int].opname != instrs[n as int].opname ==> canonical_upto(
            instrs,
            n + 1,
            before.update(q, n as usize),
        ),
        instrs[before[q] as int].opname == instrs[n as int].opname ==> canonical_upto(
            instrs,
            n + 1,
            before,
        ),
{
    let opcode = instrs[n as int].opcode;
    let after = if instrs[before[q] as int].opname != instrs[n as int].opname {
        before.update(q, n as usize)
    } else {
        before
    };
    assert(kept(instrs, n, opcode_at(instrs, before, q)) == Some(before[q] as int));
    assert forall|j: int| 0 <= j < after.len() implies opcode_at(instrs, after, j) == opcode_at(
        instrs,
        before,
        j,
    ) by {}
    assert forall|j: int| 0 <= j < after.len() implies kept(
        instrs,
        n + 1,
        #[trigger] opcode_at(instrs, after, j),
    ) == Some(after[j] as int) by {
        assert(kept(instrs, n, opcode_at(instrs, before, j)) == Some(before[j] as int));
        if j < q {
            assert(opcode_at(instrs, before, j) < opcode_at(instrs, before, q));
        } else if j > q {
            assert(opcode_at(instrs, before, q) < opcode_at(instrs, before, j));
        }
    }
    assert forall|i: int| 0 <= i < n + 1 implies exists|j: int|
        0 <= j < after.len() && #[trigger] opcode_at(instrs, after, j) == (
        #[trigger] instrs[i]).opcode by {
        if i == n {
            assert(opcode_at(instrs, after, q) == opcode);
        } else {
            let j = choose|j: int|
                0 <= j < before.len() && #[trigger] opcode_at(instrs, before, j)
                    == instrs[i].opcode;
            assert(opcode_at(instrs, after, j) == instrs[i].opcode);
        }
    }
    assert forall|j: int, k: int| 0 <= j < k < after.len() implies #[trigger] opcode_at(
        instrs,
        after,
        j,
    ) < #[trigger] opcode_at(instrs, after, k) by {
        assert(opcode_at(instrs, before, j) < opcode_at(instrs, before, k));
    }
    assert forall|j: int| 0 <= j < after.len() implies (#[trigger] after[j]) < n + 1 by {
        assert(before[j] < n);
    }
}

/// Reading an instruction whose opcode has no entry yet puts it where the
/// opcodes stay ascending.
proof fn lemma_step_new(instrs: Seq<InstructionView>, n: nat, before: Seq<usize>, p: int)
    requires
        n < instrs.len(),
        n <= usize::MAX,
        canonical_upto(instrs, n, before),
        0 <= p <= before.len(),
        forall|j: int| 0 <= j < p ==> #[trigger] opcode_at(instrs, before, j) < instrs[n as int].opcode,
        forall|j: int|
            p <= j < before.len() ==> #[trigger] opcode_at(instrs, before, j) > instrs[n as int].opcode,
    ensures
        canonical_upto(instrs, n + 1, before.insert(p, n as usize)),
{
    let opcode = instrs[n as int].opcode;
    let after = before.insert(p, n as usize);
    lemma_kept(instrs, n, opcode);
    if kept(instrs, n, opcode) is Some {
        let k = kept(instrs, n, opcode)->0;
        let j = choose|j: int|
            0 <= j < before.len() && #[trigger] opcode_at(instrs, before, j) == instrs[k].opcode;
        assert(false);
    }
    assert(kept(instrs, n + 1, opcode) == Some(n as int));
    assert forall|j: int| 0 <= j < after.len() implies opcode_at(instrs, after, j) == (if j < p {
        opcode_at(instrs, before, j)
    } else if j == p {
        opcode
    } else {
        opcode_at(instrs, before, j - 1)
    }) by {}
    assert forall|j: int| 0 <= j < after.len() implies kept(
        instrs,
        n + 1,
        #[trigger] opcode_at(instrs, after, j),
    ) == Some(after[j] as int) by {
        if j < p {
            assert(kept(instrs, n, opcode_at(instrs, before, j)) == Some(before[j] as int));
        } else if j > p {
            assert(kept(instrs, n, opcode_at(instrs, before, j - 1)) == Some(
                before[j - 1] as int,
            ));
        }
    }
    assert forall|i: int| 0 <= i < n + 1 implies exists|j: int|
        0 <= j < after.len() && #[trigger] opcode_at(instrs, after, j) == (
        #[trigger] instrs[i]).opcode by {
        if i == n {
            assert(opcode_at(instrs, after, p) == opcode);
        } else {
            let j = choose|j: int|
                0 <= j < before.len() && #[trigger] opcode_at(instrs, before, j)
                    == instrs[i].opcode;
            if j < p {
                assert(opcode_at(instrs, after, j) == instrs[i].opcode);
            } else {
                assert(opcode_at(instrs, after, j + 1) == instrs[i].opcode);
            }
        }
    }
    assert forall|j: int, k: int| 0 <= j < k < after.len() implies #[trigger] opcode_at(
        instrs,
        after,
        j,
    ) < #[trigger] opcode_at(instrs, after, k) by {
        let a = if j < p {
            j
        } else {
            j - 1
        };
        let b = if k < p {
            k
        } else {
            k - 1
        };
        if j != p && k != p {
            assert(opcode_at(instrs, before, a) < opcode_at(instrs, before, b));
        } else if j == p {
            assert(opcode_at(instrs, before, b) > opcode);
        } else {
            assert(opcode_at(instrs, before, a) < opcode);
        }
    }
    assert forall|j: int| 0 <= j < after.len() implies (#[trigger] after[j]) < n + 1 by {
        if j < p {
            assert(before[j] < n);
        } else if j > p {
            assert(before[j - 1] < n);
        }
    }
}

/// Finds where a new opcode goes among ascending ones.
proof fn lemma_split(instrs: Seq<InstructionView>, order: Seq<usize>, opcode: u32, i: int) -> (p:
    int)
    requires
        0 <= i <= order.len(),
        forall|j: int, k: int|
            0 <= j < k < order.len() ==> #[trigger] opcode_at(instrs, order, j)
                < #[trigger] opcode_at(instrs, order, k),
        forall|j: int| 0 <= j < order.len() ==> #[trigger] opcode_at(instrs, order, j) != opcode,
        forall|j: int| 0 <= j < i ==> #[trigger] opcode_at(instrs, order, j) < opcode,
    ensures
        0 <= p <= order.len(),
        forall|j: int| 0 <= j < p ==> #[trigger] opcode_at(instrs, order, j) < opcode,
        forall|j: int| p <= j < order.len() ==> #[trigger] opcode_at(instrs, order, j) > opcode,
    decreases order.len() - i,
{
    if i == order.len() {
        i
    } else if opcode_at(instrs, order, i) > opcode {
        assert forall|j: int| i <= j < order.len() implies #[trigger] opcode_at(instrs, order, j)
            > opcode by {
            if j > i {
                assert(opcode_at(instrs, order, i) < opcode_at(instrs, order, j));
            }
        }
        i
    } else {
        lemma_split(instrs, order, opcode, i + 1)
    }
}

/// The first `n` instructions of any list have a canonical order.
proof fn lemma_canonical_upto_exists(instrs: Seq<InstructionView>, n: nat) -> (order: Seq<usize>)
    requires
        n <= instrs.len(),
        instrs.len() <= usize::MAX,
    ensures
        canonical_upto(instrs, n, order),
    decreases n,
{
    if n == 0 {
        Seq::empty()
    } else {
        let m = (n - 1) as nat;
        let before = lemma_canonical_upto_exists(instrs, m);
        let opcode = instrs[m as int].opcode;
        if exists|q: int| 0 <= q < before.len() && #[trigger] opcode_at(instrs, before, q) == opcode {
            let q = choose|q: int|
                0 <= q < before.len() && #[trigger] opcode_at(instrs, before, q) == opcode;
            lemma_step_seen(instrs, m, before, q);
            if instrs[before[q] as int].opname != instrs[m as int].opname {
                before.update(q, m as usize)
            } else {
                before
            }
        } else {
            let p = lemma_split(instrs, before, opcode, 0);
            lemma_step_new(instrs, m, before, p);
            before.insert(p, m as usize)
        }
    }
}

/// Every list of instructions has its canonical order.
pub proof fn lemma_canonical_exists(instrs: Seq<InstructionView>)
    requires
        instrs.len() <= usize::MAX,
    ensures
        canonical_order(instrs, canonical_positions(instrs)),
{
    let order = lemma_canonical_upto_exists(instrs, instrs.len());
    assert(canonical_order(instrs, order));
}

/// Canonicalizes one namespace: the positions of the canonical instructions,
/// in strictly ascending opcode order.
pub fn canonical_instructions(instrs: &Vec<Instruction>) -> (order: Vec<usize>)
    ensures
        canonical_order(instrs.deep_view(), order@),
        order@ == canonical_positions(instrs.deep_view()),
{
    let ghost view = instrs.deep_view();
    let mut order: Vec<usize> = Vec::new();
    let mut n: usize = 0;
    while n < instrs.len()
        invariant
            n <= instrs.len(),
            view == instrs.deep_view(),
            canonical_upto(view, n as nat, order@),
        decreases instrs.len() - n,
    {
        let opcode = instrs[n].opcode;
        let mut p: usize = order.len();
        while p > 0 && instrs[order[p - 1]].opcode > opcode
            invariant
                p <= order.len(),
                n < instrs.len(),
                view == instrs.deep_view(),
                opcode == view[n as int].opcode,
                forall|j: int| 0 <= j < order.len() ==> (#[trigger] order@[j]) < n,
                forall|j: int| p <= j < order.len() ==> #[trigger] opcode_at(view, order@, j) > opcode,
            decreases p,
        {
            assert(opcode_at(view, order@, p - 1) == instrs@[order@[p - 1] as int].opcode);
            p -= 1;
        }
        if p > 0 && instrs[order[p - 1]].opcode == opcode {
            let q = p - 1;
            let held = order[q];
            proof {
                assert(opcode_at(view, order@, q as int) == opcode);
                assert(view[held as int].opname == instrs@[held as int].opname@);
                assert(view[n as int].opname == instrs@[n as int].opname@);
                lemma_step_seen(view, n as nat, order@, q as int);
            }
            if instrs[held].opname != instrs[n].opname {
                order.set(q, n);
            }
        } else {
            proof {
                assert forall|j: int| 0 <= j < p implies #[trigger] opcode_at(view, order@, j)
                    < opcode by {
                    assert(opcode_at(view, order@, p - 1) == instrs@[order@[p - 1] as int].opcode);
                    if j < p - 1 {
                        assert(opcode_at(view, order@, j) < opcode_at(view, order@, p - 1));
                    }
                }
                lemma_step_new(view, n as nat, order@, p as int);
            }
            order.insert(p, n);
        }
        n += 1;
    }
    proof {
        lemma_canonical_unique(view, order@, canonical_positions(view));
    }
    order
}

} // verus!
