//! The extension registry: every extension name that a grammar refers to,
//! once each, in lexicographic order.
//!
//! The order is that of the names themselves, never the order of discovery,
//! so the dense index of a name is the same for any arrangement of the input.

use crate::schema::{
    listed, EnumerantView, Grammar, GrammarView, InstructionView, OperandKind, OperandKindView,
};
use crate::text::{
    lemma_lex_asymmetric, lemma_lex_irreflexive, lemma_lex_total, lemma_lex_transitive, lex_less,
    str_equal, str_less,
};
use vstd::prelude::*;
use vstd::string::StringExecFns;

verus! {

/// Whether each element comes strictly before every later one.
pub open spec fn strictly_sorted(s: Seq<Seq<char>>) -> bool {
    forall|i: int, j: int| 0 <= i < j < s.len() ==> lex_less(#[trigger] s[i], #[trigger] s[j])
}

/// Whether an optional list of names holds `name`.
pub open spec fn names_listed(list: Option<Seq<Seq<char>>>, name: Seq<char>) -> bool {
    listed(list).contains(name)
}

/// Whether an enumerant refers to the extension `name`.
pub open spec fn enumerant_refers(e: EnumerantView, name: Seq<char>) -> bool {
    names_listed(e.extensions, name)
}

/// Whether some enumerant of an operand kind refers to the extension `name`.
pub open spec fn kind_refers(k: OperandKindView, name: Seq<char>) -> bool {
    exists|e: int|
        0 <= e < listed(k.enumerants).len() && enumerant_refers(
            #[trigger] listed(k.enumerants)[e],
            name,
        )
}

/// Whether an instruction refers to the extension `name`.
pub open spec fn instruction_refers(i: InstructionView, name: Seq<char>) -> bool {
    names_listed(i.extensions, name)
}

/// Whether any enumerant or instruction of a grammar refers to the extension `name`.
pub open spec fn grammar_refers(g: GrammarView, name: Seq<char>) -> bool {
    ||| exists|k: int| 0 <= k < g.kinds().len() && kind_refers(#[trigger] g.kinds()[k], name)
    ||| exists|i: int|
        0 <= i < g.instructions.len() && instruction_refers(#[trigger] g.instructions[i], name)
}

/// A strictly sorted sequence holds nothing twice.
pub proof fn lemma_sorted_no_duplicates(s: Seq<Seq<char>>)
    requires
        strictly_sorted(s),
    ensures
        s.no_duplicates(),
{
    assert forall|i: int, j: int| 0 <= i < s.len() && 0 <= j < s.len() && i != j implies s[i]
        != s[j] by {
        if i < j {
            assert(lex_less(s[i], s[j]));
        } else {
            assert(lex_less(s[j], s[i]));
        }
        lemma_lex_irreflexive(s[i]);
    }
}

/// Two strictly sorted sequences with the same elements are the same
/// sequence: the order of a registry depends on its names alone.
pub proof fn lemma_sorted_unique(a: Seq<Seq<char>>, b: Seq<Seq<char>>)
    requires
        strictly_sorted(a),
        strictly_sorted(b),
        forall|x: Seq<char>| a.contains(x) <==> b.contains(x),
    ensures
        a == b,
    decreases a.len(),
{
    if a.len() == 0 {
        if b.len() > 0 {
            assert(b.contains(b[0]));
            assert(a.contains(b[0]));
        }
        assert(a =~= b);
    } else {
        let top = a.last();
        assert(a.contains(top));
        assert(b.contains(top));
        let at = choose|i: int| 0 <= i < b.len() && b[i] == top;
        if at != b.len() - 1 {
            let other = b.last();
            assert(lex_less(b[at], b[b.len() - 1]));
            assert(b.contains(other));
            assert(a.contains(other));
            let back = choose|i: int| 0 <= i < a.len() && a[i] == other;
            if back < a.len() - 1 {
                assert(lex_less(a[back], a[a.len() - 1]));
                lemma_lex_asymmetric(top, other);
            } else {
                lemma_lex_irreflexive(top);
            }
            assert(false);
        }
        let a0 = a.drop_last();
        let b0 = b.drop_last();
        assert forall|x: Seq<char>| a0.contains(x) <==> b0.contains(x) by {
            if a0.contains(x) {
                let i = choose|i: int| 0 <= i < a0.len() && a0[i] == x;
                assert(a[i] == x);
                assert(lex_less(a[i], a[a.len() - 1]));
                assert(a.contains(x));
                assert(b.contains(x));
                let j = choose|j: int| 0 <= j < b.len() && b[j] == x;
                if j == b.len() - 1 {
                    lemma_lex_irreflexive(top);
                }
                assert(b0[j] == x);
            }
            if b0.contains(x) {
                let i = choose|i: int| 0 <= i < b0.len() && b0[i] == x;
                assert(b[i] == x);
                assert(lex_less(b[i], b[b.len() - 1]));
                assert(b.contains(x));
                assert(a.contains(x));
                let j = choose|j: int| 0 <= j < a.len() && a[j] == x;
                if j == a.len() - 1 {
                    lemma_lex_irreflexive(top);
                }
                assert(a0[j] == x);
            }
        }
        assert forall|i: int, j: int| 0 <= i < j < a0.len() implies lex_less(
            #[trigger] a0[i],
            #[trigger] a0[j],
        ) by {
            assert(lex_less(a[i], a[j]));
        }
        assert forall|i: int, j: int| 0 <= i < j < b0.len() implies lex_less(
            #[trigger] b0[i],
            #[trigger] b0[j],
        ) by {
            assert(lex_less(b[i], b[j]));
        }
        lemma_sorted_unique(a0, b0);
        assert(a =~= a0.push(top));
        assert(b =~= b0.push(top));
    }
}

/// Putting a new name at the place where the order is kept adds that name
/// and nothing else.
proof fn lemma_insert_sorted(s: Seq<Seq<char>>, p: int, name: Seq<char>)
    requires
        strictly_sorted(s),
        0 <= p <= s.len(),
        forall|j: int| 0 <= j < p ==> lex_less(#[trigger] s[j], name),
        p < s.len() ==> lex_less(name, s[p]),
    ensures
        strictly_sorted(s.insert(p, name)),
        !s.contains(name),
        forall|x: Seq<char>| s.insert(p, name).contains(x) <==> (s.contains(x) || x == name),
{
    let t = s.insert(p, name);
    assert forall|j: int| p <= j < s.len() implies lex_less(name, #[trigger] s[j]) by {
        if j > p {
            assert(lex_less(s[p], s[j]));
            lemma_lex_transitive(name, s[p], s[j]);
        }
    }
    assert forall|i: int, j: int| 0 <= i < j < t.len() implies lex_less(
        #[trigger] t[i],
        #[trigger] t[j],
    ) by {
        let a = if i < p {
            i
        } else {
            i - 1
        };
        let b = if j < p {
            j
        } else {
            j - 1
        };
        if i != p && j != p {
            assert(lex_less(s[a], s[b]));
        } else if i == p {
            assert(lex_less(name, s[b]));
        } else {
            assert(lex_less(s[a], name));
        }
    }
    if s.contains(name) {
        let j = choose|j: int| 0 <= j < s.len() && s[j] == name;
        if j < p {
            assert(lex_less(s[j], name));
        } else {
            assert(lex_less(name, s[j]));
        }
        lemma_lex_irreflexive(name);
    }
    assert forall|x: Seq<char>| t.contains(x) <==> (s.contains(x) || x == name) by {
        if t.contains(x) {
            let j = choose|j: int| 0 <= j < t.len() && t[j] == x;
            if j < p {
                assert(s[j] == x);
            } else if j > p {
                assert(s[j - 1] == x);
            }
        }
        if s.contains(x) {
            let j = choose|j: int| 0 <= j < s.len() && s[j] == x;
            if j < p {
                assert(t[j] == x);
            } else {
                assert(t[j + 1] == x);
            }
        }
        if x == name {
            assert(t[p] == x);
        }
    }
}

/// A set of extension names kept in lexicographic order.
pub struct ExtensionRegistry {
    names: Vec<String>,
}

impl View for ExtensionRegistry {
    type V = Seq<Seq<char>>;

    closed spec fn view(&self) -> Seq<Seq<char>> {
        self.names.deep_view()
    }
}

impl ExtensionRegistry {
    /// Whether the names are in strictly ascending order.
    pub open spec fn wf(&self) -> bool {
        strictly_sorted(self@)
    }

    /// The registry with no names.
    pub fn new() -> (r: Self)
        ensures
            r.wf(),
            r@ == Seq::<Seq<char>>::empty(),
    {
        let r = ExtensionRegistry { names: Vec::new() };
        assert(r@ =~= Seq::<Seq<char>>::empty());
        r
    }

    /// The number of names.
    pub fn len(&self) -> (n: usize)
        ensures
            n == self@.len(),
    {
        self.names.len()
    }

    /// The name with dense index `i`.
    pub fn name(&self, i: usize) -> (s: &String)
        requires
            i < self@.len(),
        ensures
            s@ == self@[i as int],
    {
        &self.names[i]
    }

    /// The names in order, copied out.
    pub fn names(&self) -> (v: Vec<String>)
        ensures
            v.deep_view() == self@,
    {
        let mut v: Vec<String> = Vec::new();
        let mut i: usize = 0;
        while i < self.names.len()
            invariant
                i <= self.names.len(),
                v.len() == i,
                forall|j: int| 0 <= j < i ==> v@[j]@ == self.names@[j]@,
            decreases self.names.len() - i,
        {
            v.push(self.names[i].clone());
            i += 1;
        }
        assert(v.deep_view() =~= self@);
        v
    }

    /// The dense index of `name`; `None` where the registry does not hold it.
    pub fn index_of(&self, name: &str) -> (r: Option<usize>)
        ensures
            match r {
                Some(i) => i < self@.len() && self@[i as int] == name@ && forall|j: int|
                    0 <= j < i ==> self@[j] != name@,
                None => !self@.contains(name@),
            },
    {
        let mut i: usize = 0;
        while i < self.names.len()
            invariant
                i <= self.names.len(),
                forall|j: int| 0 <= j < i ==> self@[j] != name@,
            decreases self.names.len() - i,
        {
            if str_equal(self.names[i].as_str(), name) {
                return Some(i);
            }
            i += 1;
        }
        None
    }

    /// Adds `name` unless the registry holds it already; tells whether it was added.
    pub fn insert(&mut self, name: &str) -> (added: bool)
        requires
            old(self).wf(),
        ensures
            final(self).wf(),
            added == !old(self)@.contains(name@),
            !added ==> final(self)@ == old(self)@,
            forall|x: Seq<char>| #[trigger] final(self)@.contains(x) <==> (old(self)@.contains(x) || x == name@),
    {
        let mut p: usize = 0;
        while p < self.names.len() && str_less(self.names[p].as_str(), name)
            invariant
                p <= self.names.len(),
                self@ == old(self)@,
                forall|j: int| 0 <= j < p ==> lex_less(#[trigger] self@[j], name@),
            decreases self.names.len() - p,
        {
            p += 1;
        }
        if p < self.names.len() && str_equal(self.names[p].as_str(), name) {
            assert(self@[p as int] == name@);
            return false;
        }
        proof {
            if p < self.names.len() {
                lemma_lex_total(self@[p as int], name@);
            }
            lemma_insert_sorted(self@, p as int, name@);
        }
        self.names.insert(p, String::from_str(name));
        assert(self@ =~= old(self)@.insert(p as int, name@));
        true
    }

    /// Adds every name of a list.
    pub fn add_names(&mut self, list: &Vec<String>)
        requires
            old(self).wf(),
        ensures
            final(self).wf(),
            forall|x: Seq<char>|
                #[trigger] final(self)@.contains(x) <==> (old(self)@.contains(x) || list.deep_view().contains(
                    x,
                )),
    {
        let ghost names = list.deep_view();
        let mut i: usize = 0;
        while i < list.len()
            invariant
                i <= list.len(),
                names == list.deep_view(),
                self.wf(),
                forall|x: Seq<char>|
                    #[trigger] self@.contains(x) <==> (old(self)@.contains(x) || exists|j: int|
                        0 <= j < i && names[j] == x),
            decreases list.len() - i,
        {
            let ghost before = self@;
            self.insert(list[i].as_str());
            proof {
                assert(names[i as int] == list@[i as int]@);
                assert forall|x: Seq<char>|
                    #[trigger] self@.contains(x) <==> (old(self)@.contains(x) || exists|j: int|
                        0 <= j < i + 1 && names[j] == x) by {
                    if before.contains(x) && !old(self)@.contains(x) {
                        let j = choose|j: int| 0 <= j < i && names[j] == x;
                        assert(0 <= j < i + 1 && names[j] == x);
                    }
                    if exists|j: int| 0 <= j < i + 1 && names[j] == x {
                        let j = choose|j: int| 0 <= j < i + 1 && names[j] == x;
                        if j < i {
                            assert(before.contains(x));
                        }
                    }
                }
            }
            i += 1;
        }
    }

    /// Adds every name of an optional list; an absent list adds nothing.
    pub fn add_listed(&mut self, list: &Option<Vec<String>>)
        requires
            old(self).wf(),
        ensures
            final(self).wf(),
            forall|x: Seq<char>|
                #[trigger] final(self)@.contains(x) <==> (old(self)@.contains(x) || names_listed(
                    list.deep_view(),
                    x,
                )),
    {
        match list {
            Some(l) => {
                assert(listed(list.deep_view()) == l.deep_view());
                self.add_names(l);
            },
            None => {
                assert(listed(list.deep_view()).len() == 0);
            },
        }
    }

    /// Adds every extension that an enumerant of `kind` refers to.
    pub fn add_kind(&mut self, kind: &OperandKind)
        requires
            old(self).wf(),
        ensures
            final(self).wf(),
            forall|x: Seq<char>|
                #[trigger] final(self)@.contains(x) <==> (old(self)@.contains(x) || kind_refers(kind@, x)),
    {
        match &kind.enumerants {
            Some(es) => {
                let ghost view = es.deep_view();
                assert(listed(kind@.enumerants) == view);
                let mut i: usize = 0;
                while i < es.len()
                    invariant
                        i <= es.len(),
                        view == es.deep_view(),
                        listed(kind@.enumerants) == view,
                        self.wf(),
                        forall|x: Seq<char>|
                            #[trigger] self@.contains(x) <==> (old(self)@.contains(x) || exists|j: int|
                                0 <= j < i && enumerant_refers(#[trigger] view[j], x)),
                    decreases es.len() - i,
                {
                    let ghost before = self@;
                    self.add_listed(&es[i].extensions);
                    proof {
                        assert(view[i as int].extensions == es@[i as int].extensions.deep_view());
                        assert forall|x: Seq<char>|
                            #[trigger] self@.contains(x) <==> (old(self)@.contains(x) || exists|j: int|
                                0 <= j < i + 1 && enumerant_refers(#[trigger] view[j], x)) by {
                            if before.contains(x) && !old(self)@.contains(x) {
                                let j = choose|j: int|
                                    0 <= j < i && enumerant_refers(#[trigger] view[j], x);
                                assert(0 <= j < i + 1 && enumerant_refers(view[j], x));
                            }
                            if enumerant_refers(view[i as int], x) {
                                assert(0 <= i < i + 1 && enumerant_refers(view[i as int], x));
                            }
                            if exists|j: int|
                                0 <= j < i + 1 && enumerant_refers(#[trigger] view[j], x) {
                                let j = choose|j: int|
                                    0 <= j < i + 1 && enumerant_refers(#[trigger] view[j], x);
                                if j < i {
                                    assert(before.contains(x));
                                }
                            }
                        }
                    }
                    i += 1;
                }
            },
            None => {
                assert(listed(kind@.enumerants).len() == 0);
            },
        }
    }

    /// Adds every extension that an enumerant or an instruction of `grammar`
    /// refers to.
    pub fn add_grammar(&mut self, grammar: &Grammar)
        requires
            old(self).wf(),
        ensures
            final(self).wf(),
            forall|x: Seq<char>|
                #[trigger] final(self)@.contains(x) <==> (old(self)@.contains(x) || grammar_refers(
                    grammar@,
                    x,
                )),
    {
        let ghost kinds = grammar@.kinds();
        match &grammar.operand_kinds {
            Some(ks) => {
                let mut k: usize = 0;
                while k < ks.len()
                    invariant
                        k <= ks.len(),
                        kinds == ks.deep_view(),
                        self.wf(),
                        forall|x: Seq<char>|
                            #[trigger] self@.contains(x) <==> (old(self)@.contains(x) || exists|j: int|
                                0 <= j < k && kind_refers(#[trigger] kinds[j], x)),
                    decreases ks.len() - k,
                {
                    let ghost before = self@;
                    self.add_kind(&ks[k]);
                    proof {
                        assert(kinds[k as int] == ks@[k as int]@);
                        assert forall|x: Seq<char>|
                            #[trigger] self@.contains(x) <==> (old(self)@.contains(x) || exists|j: int|
                                0 <= j < k + 1 && kind_refers(#[trigger] kinds[j], x)) by {
                            if before.contains(x) && !old(self)@.contains(x) {
                                let j = choose|j: int|
                                    0 <= j < k && kind_refers(#[trigger] kinds[j], x);
                                assert(0 <= j < k + 1 && kind_refers(kinds[j], x));
                            }
                            if kind_refers(kinds[k as int], x) {
                                assert(0 <= k < k + 1 && kind_refers(kinds[k as int], x));
                            }
                            if exists|j: int| 0 <= j < k + 1 && kind_refers(#[trigger] kinds[j], x) {
                                let j = choose|j: int|
                                    0 <= j < k + 1 && kind_refers(#[trigger] kinds[j], x);
                                if j < k {
                                    assert(before.contains(x));
                                }
                            }
                        }
                    }
                    k += 1;
                }
            },
            None => {},
        }
        let ghost middle = self@;
        let ghost instrs = grammar@.instructions;
        let mut i: usize = 0;
        while i < grammar.instructions.len()
            invariant
                i <= grammar.instructions.len(),
                instrs == grammar.instructions.deep_view(),
                self.wf(),
                forall|x: Seq<char>|
                    #[trigger] self@.contains(x) <==> (middle.contains(x) || exists|j: int|
                        0 <= j < i && instruction_refers(#[trigger] instrs[j], x)),
            decreases grammar.instructions.len() - i,
        {
            let ghost before = self@;
            self.add_listed(&grammar.instructions[i].extensions);
            proof {
                assert(instrs[i as int].extensions
                    == grammar.instructions@[i as int].extensions.deep_view());
                assert forall|x: Seq<char>|
                    #[trigger] self@.contains(x) <==> (middle.contains(x) || exists|j: int|
                        0 <= j < i + 1 && instruction_refers(#[trigger] instrs[j], x)) by {
                    if before.contains(x) && !middle.contains(x) {
                        let j = choose|j: int|
                            0 <= j < i && instruction_refers(#[trigger] instrs[j], x);
                        assert(0 <= j < i + 1 && instruction_refers(instrs[j], x));
                    }
                    if instruction_refers(instrs[i as int], x) {
                        assert(0 <= i < i + 1 && instruction_refers(instrs[i as int], x));
                    }
                    if exists|j: int| 0 <= j < i + 1 && instruction_refers(#[trigger] instrs[j], x) {
                        let j = choose|j: int|
                            0 <= j < i + 1 && instruction_refers(#[trigger] instrs[j], x);
                        if j < i {
                            assert(before.contains(x));
                        }
                    }
                }
            }
            i += 1;
        }
    }
}

/// Whether `names` is the registry of `grammars`: in strictly ascending
/// order, holding exactly the extensions that some grammar refers to.
pub open spec fn is_registry_of(names: Seq<Seq<char>>, grammars: Seq<GrammarView>) -> bool {
    &&& strictly_sorted(names)
    &&& forall|x: Seq<char>|
        #[trigger] names.contains(x) <==> exists|g: int|
            0 <= g < grammars.len() && grammar_refers(#[trigger] grammars[g], x)
}

/// The registry of `grammars`.
pub open spec fn registry_of(grammars: Seq<GrammarView>) -> Seq<Seq<char>> {
    choose|names: Seq<Seq<char>>| is_registry_of(names, grammars)
}

/// A list of grammars has one registry only, however the grammars and what
/// they hold are arranged.
pub proof fn lemma_registry_unique(
    a: Seq<Seq<char>>,
    b: Seq<Seq<char>>,
    grammars: Seq<GrammarView>,
)
    requires
        is_registry_of(a, grammars),
        is_registry_of(b, grammars),
    ensures
        a == b,
{
    assert forall|x: Seq<char>| a.contains(x) <==> b.contains(x) by {
        assert(a.contains(x) <==> exists|g: int|
            0 <= g < grammars.len() && grammar_refers(#[trigger] grammars[g], x));
        assert(b.contains(x) <==> exists|g: int|
            0 <= g < grammars.len() && grammar_refers(#[trigger] grammars[g], x));
    }
    lemma_sorted_unique(a, b);
}

/// Every extension that a grammar refers to is in the registry, and nothing
/// is in the registry twice.
pub proof fn lemma_registry_total(
    grammars: Seq<GrammarView>,
    names: Seq<Seq<char>>,
    g: int,
    x: Seq<char>,
)
    requires
        is_registry_of(names, grammars),
        0 <= g < grammars.len(),
        grammar_refers(grammars[g], x),
    ensures
        names.contains(x),
        names.no_duplicates(),
{
    lemma_sorted_no_duplicates(names);
}

/// Builds the registry of the extensions that one grammar refers to.
pub fn grammar_registry(grammar: &Grammar) -> (r: ExtensionRegistry)
    ensures
        r.wf(),
        is_registry_of(r@, seq![grammar@]),
        r@ == registry_of(seq![grammar@]),
{
    let mut r = ExtensionRegistry::new();
    r.add_grammar(grammar);
    proof {
        let gs = seq![grammar@];
        assert forall|x: Seq<char>|
            #[trigger] r@.contains(x) <==> exists|g: int|
                0 <= g < gs.len() && grammar_refers(#[trigger] gs[g], x) by {
            if grammar_refers(grammar@, x) {
                assert(grammar_refers(gs[0], x));
            }
        }
        lemma_registry_unique(r@, registry_of(gs), gs);
    }
    r
}

/// Builds the registry of every extension that any of `grammars` refers to.
pub fn extension_registry(grammars: &Vec<Grammar>) -> (r: ExtensionRegistry)
    ensures
        r.wf(),
        is_registry_of(r@, grammars.deep_view()),
        r@ == registry_of(grammars.deep_view()),
{
    let mut r = ExtensionRegistry::new();
    let mut n: usize = 0;
    while n < grammars.len()
        invariant
            n <= grammars.len(),
            r.wf(),
            forall|x: Seq<char>|
                #[trigger] r@.contains(x) <==> exists|g: int|
                    0 <= g < n && grammar_refers(#[trigger] grammars@[g]@, x),
        decreases grammars.len() - n,
    {
        let ghost before = r@;
        r.add_grammar(&grammars[n]);
        proof {
            assert forall|x: Seq<char>|
                #[trigger] r@.contains(x) <==> exists|g: int|
                    0 <= g < n + 1 && grammar_refers(#[trigger] grammars@[g]@, x) by {
                if before.contains(x) {
                    let g = choose|g: int| 0 <= g < n && grammar_refers(#[trigger] grammars@[g]@, x);
                    assert(0 <= g < n + 1 && grammar_refers(grammars@[g]@, x));
                }
                if grammar_refers(grammars@[n as int]@, x) {
                    assert(0 <= n < n + 1 && grammar_refers(grammars@[n as int]@, x));
                }
                if exists|g: int| 0 <= g < n + 1 && grammar_refers(#[trigger] grammars@[g]@, x) {
                    let g = choose|g: int|
                        0 <= g < n + 1 && grammar_refers(#[trigger] grammars@[g]@, x);
                    if g < n {
                        assert(before.contains(x));
                    }
                }
            }
        }
        n += 1;
    }
    proof {
        let gs = grammars.deep_view();
        assert forall|x: Seq<char>|
            #[trigger] r@.contains(x) <==> exists|g: int|
                0 <= g < gs.len() && grammar_refers(#[trigger] gs[g], x) by {
            if r@.contains(x) {
                let g = choose|g: int|
                    0 <= g < grammars.len() && grammar_refers(#[trigger] grammars@[g]@, x);
                assert(gs[g] == grammars@[g]@);
            }
            if exists|g: int| 0 <= g < gs.len() && grammar_refers(#[trigger] gs[g], x) {
                let g = choose|g: int| 0 <= g < gs.len() && grammar_refers(#[trigger] gs[g], x);
                assert(gs[g] == grammars@[g]@);
            }
        }
        lemma_registry_unique(r@, registry_of(gs), gs);
    }
    r
}

} // verus!
