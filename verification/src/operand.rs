//! Operands as the tables hold them: a kind, that kind's category, a display
//! name and a quantifier.

use crate::schema::{Operand, OperandKind, OperandKindView, OperandView, Parameter, ParameterView};
use crate::table::{first_index, lemma_first_index};
use crate::text::{str_equal, strip_newlines, without_newlines};
use vstd::prelude::*;
use vstd::string::StringExecFns;

verus! {

/// How often an operand may occur.
#[derive(Debug, Clone, Copy, PartialEq, Eq, Structural)]
pub enum Quantifier {
    /// No token: the operand occurs once.
    ExactlyOne,
    /// The token `?`: the operand occurs at most once.
    ZeroOrOne,
    /// The token `*`: the operand occurs any number of times.
    ZeroOrMany,
}

/// Why a grammar cannot be compiled.
#[derive(Debug, Clone, Copy, PartialEq, Eq, Structural)]
pub enum GrammarError {
    /// An operand carries a quantifier token other than `?` and `*`.
    UnknownQuantifier,
    /// An operand, a parameter or a base names a kind that is not declared.
    UndeclaredKind,
    /// The literal of an enumerant is no number that fits 32 bits.
    MalformedLiteral,
    /// There are more operand kinds or namespaces than a key component can number.
    CapacityExceeded,
}

/// The classification of a quantifier token; `None` for a token that is not
/// recognized.
pub open spec fn quantifier_of(token: Option<Seq<char>>) -> Option<Quantifier> {
    match token {
        None => Some(Quantifier::ExactlyOne),
        Some(t) => if t == "?"@ {
            Some(Quantifier::ZeroOrOne)
        } else if t == "*"@ {
            Some(Quantifier::ZeroOrMany)
        } else {
            None
        },
    }
}

/// The three tokens map to three different classifications, and every other
/// token is rejected.
pub proof fn lemma_quantifier_total()
    ensures
        quantifier_of(None) == Some(Quantifier::ExactlyOne),
        quantifier_of(Some(seq!['?'])) == Some(Quantifier::ZeroOrOne),
        quantifier_of(Some(seq!['*'])) == Some(Quantifier::ZeroOrMany),
        forall|t: Seq<char>|
            t != seq!['?'] && t != seq!['*'] ==> #[trigger] quantifier_of(Some(t)) is None,
{
    reveal_strlit("?");
    reveal_strlit("*");
    assert("?"@ =~= seq!['?']);
    assert("*"@ =~= seq!['*']);
    assert(seq!['*'][0] != seq!['?'][0]);
}

/// Classifies a quantifier token.
pub fn classify_quantifier(token: &Option<String>) -> (r: Result<Quantifier, GrammarError>)
    ensures
        match r {
            Ok(q) => quantifier_of(token.deep_view()) == Some(q),
            Err(e) => quantifier_of(token.deep_view()) is None && e
                == GrammarError::UnknownQuantifier,
        },
{
    match token {
        None => Ok(Quantifier::ExactlyOne),
        Some(t) => {
            if str_equal(t.as_str(), "?") {
                Ok(Quantifier::ZeroOrOne)
            } else if str_equal(t.as_str(), "*") {
                Ok(Quantifier::ZeroOrMany)
            } else {
                Err(GrammarError::UnknownQuantifier)
            }
        },
    }
}

/// The names of the declared kinds, in declaration order.
pub open spec fn kind_names(kinds: Seq<OperandKindView>) -> Seq<Seq<char>> {
    Seq::new(kinds.len(), |i: int| kinds[i].kind)
}

/// The position of the first declaration of the kind `name`.
pub open spec fn kind_position(kinds: Seq<OperandKindView>, name: Seq<char>) -> Option<int> {
    first_index(kind_names(kinds), name)
}

/// Whether a kind of this name is declared.
pub open spec fn kind_declared(kinds: Seq<OperandKindView>, name: Seq<char>) -> bool {
    kind_position(kinds, name) is Some
}

/// The category of the kind `name`, taken from its first declaration.
pub open spec fn category_of(kinds: Seq<OperandKindView>, name: Seq<char>) -> Seq<char> {
    kinds[kind_position(kinds, name)->0].category
}

/// Finds the first declaration of the kind `name`.
pub fn find_kind(kinds: &Vec<OperandKind>, name: &str) -> (r: Option<usize>)
    ensures
        match r {
            Some(i) => kind_position(kinds.deep_view(), name@) == Some(i as int) && i
                < kinds.len(),
            None => kind_position(kinds.deep_view(), name@) is None,
        },
{
    let ghost names = kind_names(kinds.deep_view());
    let mut i: usize = 0;
    while i < kinds.len()
        invariant
            i <= kinds.len(),
            names == kind_names(kinds.deep_view()),
            forall|j: int| 0 <= j < i ==> names[j] != name@,
        decreases kinds.len() - i,
    {
        assert(names[i as int] == kinds@[i as int].kind@);
        if str_equal(kinds[i].kind.as_str(), name) {
            proof {
                lemma_first_index(names, name@);
            }
            return Some(i);
        }
        i += 1;
    }
    proof {
        lemma_first_index(names, name@);
    }
    None
}

/// An operand as a table holds it.
#[derive(Debug, Clone, PartialEq, Eq)]
pub struct OperandInfo {
    pub kind: String,
    pub category: String,
    pub name: String,
    pub quantifier: Quantifier,
}

/// View of an [`OperandInfo`].
pub struct OperandInfoView {
    pub kind: Seq<char>,
    pub category: Seq<char>,
    pub name: Seq<char>,
    pub quantifier: Quantifier,
}

impl DeepView for OperandInfo {
    type V = OperandInfoView;

    open spec fn deep_view(&self) -> OperandInfoView {
        OperandInfoView {
            kind: self.kind@,
            category: self.category@,
            name: self.name@,
            quantifier: self.quantifier,
        }
    }
}

impl View for OperandInfo {
    type V = OperandInfoView;

    open spec fn view(&self) -> OperandInfoView {
        self.deep_view()
    }
}

/// The display name of an operand: the name it carries, or else `ResultType`
/// and `Result` for the two kinds that produce an id and nothing for any
/// other kind; line feeds are dropped.
pub open spec fn operand_display_name(op: OperandView) -> Seq<char> {
    without_newlines(
        match op.name {
            Some(n) => n,
            None => if op.kind == "IdResultType"@ {
                "ResultType"@
            } else if op.kind == "IdResult"@ {
                "Result"@
            } else {
                Seq::empty()
            },
        },
    )
}

/// Whether an operand can be compiled: its quantifier token is recognized.
pub open spec fn operand_quantified(op: OperandView) -> bool {
    quantifier_of(op.quantifier) is Some
}

/// The table form of an operand whose kind is declared and whose quantifier
/// token is recognized.
pub open spec fn operand_info(kinds: Seq<OperandKindView>, op: OperandView) -> OperandInfoView {
    OperandInfoView {
        kind: op.kind,
        category: category_of(kinds, op.kind),
        name: operand_display_name(op),
        quantifier: quantifier_of(op.quantifier)->0,
    }
}

/// The table form of a parameter whose kind is declared: its display name is
/// the name it carries without line feeds, and it occurs once.
pub open spec fn parameter_info(kinds: Seq<OperandKindView>, p: ParameterView) -> OperandInfoView {
    OperandInfoView {
        kind: p.kind,
        category: category_of(kinds, p.kind),
        name: without_newlines(
            match p.name {
                Some(n) => n,
                None => Seq::empty(),
            },
        ),
        quantifier: Quantifier::ExactlyOne,
    }
}

/// The table form of a base kind that is declared: it has no display name and
/// occurs once.
pub open spec fn base_info(kinds: Seq<OperandKindView>, base: Seq<char>) -> OperandInfoView {
    OperandInfoView {
        kind: base,
        category: category_of(kinds, base),
        name: Seq::empty(),
        quantifier: Quantifier::ExactlyOne,
    }
}

/// Compiles one operand.
pub fn compile_operand(kinds: &Vec<OperandKind>, op: &Operand) -> (r: Result<
    OperandInfo,
    GrammarError,
>)
    ensures
        match r {
            Ok(info) => operand_quantified(op@) && kind_declared(kinds.deep_view(), op@.kind)
                && info@ == operand_info(kinds.deep_view(), op@),
            Err(e) => if !operand_quantified(op@) {
                e == GrammarError::UnknownQuantifier
            } else {
                !kind_declared(kinds.deep_view(), op@.kind) && e == GrammarError::UndeclaredKind
            },
        },
{
    let quantifier = match classify_quantifier(&op.quantifier) {
        Ok(q) => q,
        Err(e) => {
            return Err(e);
        },
    };
    let at = match find_kind(kinds, op.kind.as_str()) {
        Some(i) => i,
        None => {
            return Err(GrammarError::UndeclaredKind);
        },
    };
    let name = match &op.name {
        Some(n) => strip_newlines(n.as_str()),
        None => {
            if str_equal(op.kind.as_str(), "IdResultType") {
                strip_newlines("ResultType")
            } else if str_equal(op.kind.as_str(), "IdResult") {
                strip_newlines("Result")
            } else {
                let s = String::new();
                assert(without_newlines(s@) =~= s@);
                s
            }
        },
    };
    assert(kinds.deep_view()[at as int].category == kinds@[at as int].category@);
    Ok(
        OperandInfo {
            kind: op.kind.clone(),
            category: kinds[at].category.clone(),
            name,
            quantifier,
        },
    )
}

/// Compiles one parameter.
pub fn compile_parameter(kinds: &Vec<OperandKind>, p: &Parameter) -> (r: Result<
    OperandInfo,
    GrammarError,
>)
    ensures
        match r {
            Ok(info) => kind_declared(kinds.deep_view(), p@.kind) && info@ == parameter_info(
                kinds.deep_view(),
                p@,
            ),
            Err(e) => !kind_declared(kinds.deep_view(), p@.kind) && e
                == GrammarError::UndeclaredKind,
        },
{
    let at = match find_kind(kinds, p.kind.as_str()) {
        Some(i) => i,
        None => {
            return Err(GrammarError::UndeclaredKind);
        },
    };
    let name = match &p.name {
        Some(n) => strip_newlines(n.as_str()),
        None => {
            let s = String::new();
            assert(without_newlines(s@) =~= s@);
            s
        },
    };
    assert(kinds.deep_view()[at as int].category == kinds@[at as int].category@);
    Ok(
        OperandInfo {
            kind: p.kind.clone(),
            category: kinds[at].category.clone(),
            name,
            quantifier: Quantifier::ExactlyOne,
        },
    )
}

/// Compiles one base kind.
pub fn compile_base(kinds: &Vec<OperandKind>, base: &String) -> (r: Result<
    OperandInfo,
    GrammarError,
>)
    ensures
        match r {
            Ok(info) => kind_declared(kinds.deep_view(), base@) && info@ == base_info(
                kinds.deep_view(),
                base@,
            ),
            Err(e) => !kind_declared(kinds.deep_view(), base@) && e
                == GrammarError::UndeclaredKind,
        },
{
    let at = match find_kind(kinds, base.as_str()) {
        Some(i) => i,
        None => {
            return Err(GrammarError::UndeclaredKind);
        },
    };
    assert(kinds.deep_view()[at as int].category == kinds@[at as int].category@);
    Ok(
        OperandInfo {
            kind: base.clone(),
            category: kinds[at].category.clone(),
            name: String::new(),
            quantifier: Quantifier::ExactlyOne,
        },
    )
}

} // verus!
