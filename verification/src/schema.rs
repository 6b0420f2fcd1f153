//! The schema model: one grammar document held in memory, with every optional
//! field kept optional.
//!
//! Each type has a view that replaces strings by character sequences and
//! vectors by sequences; contracts throughout the crate speak of these views.

use vstd::prelude::*;

verus! {

/// The literal value of an enumerant: a non-negative integer, or a token that
/// is kept verbatim (hexadecimal constants are written this way).
#[derive(Debug, Clone, PartialEq, Eq)]
pub enum Literal {
    Integer(u64),
    Text(String),
}

/// View of a [`Literal`].
pub enum LiteralView {
    Integer(u64),
    Text(Seq<char>),
}

impl DeepView for Literal {
    type V = LiteralView;

    open spec fn deep_view(&self) -> LiteralView {
        match self {
            Literal::Integer(n) => LiteralView::Integer(*n),
            Literal::Text(s) => LiteralView::Text(s@),
        }
    }
}

impl View for Literal {
    type V = LiteralView;

    open spec fn view(&self) -> LiteralView {
        self.deep_view()
    }
}

/// A field that follows an enumerant when that enumerant is selected.
#[derive(Debug, Clone, PartialEq, Eq)]
pub struct Parameter {
    pub kind: String,
    pub name: Option<String>,
}

/// View of a [`Parameter`].
pub struct ParameterView {
    pub kind: Seq<char>,
    pub name: Option<Seq<char>>,
}

impl DeepView for Parameter {
    type V = ParameterView;

    open spec fn deep_view(&self) -> ParameterView {
        ParameterView { kind: self.kind@, name: self.name.deep_view() }
    }
}

impl View for Parameter {
    type V = ParameterView;

    open spec fn view(&self) -> ParameterView {
        self.deep_view()
    }
}

/// One operand of an instruction.
#[derive(Debug, Clone, PartialEq, Eq)]
pub struct Operand {
    pub kind: String,
    pub quantifier: Option<String>,
    pub name: Option<String>,
}

/// View of an [`Operand`].
pub struct OperandView {
    pub kind: Seq<char>,
    pub quantifier: Option<Seq<char>>,
    pub name: Option<Seq<char>>,
}

impl DeepView for Operand {
    type V = OperandView;

    open spec fn deep_view(&self) -> OperandView {
        OperandView {
            kind: self.kind@,
            quantifier: self.quantifier.deep_view(),
            name: self.name.deep_view(),
        }
    }
}

impl View for Operand {
    type V = OperandView;

    open spec fn view(&self) -> OperandView {
        self.deep_view()
    }
}

/// One named value of an operand kind.
#[derive(Debug, Clone, PartialEq, Eq)]
pub struct Enumerant {
    pub enumerant: String,
    pub value: Literal,
    pub capabilities: Option<Vec<String>>,
    pub parameters: Option<Vec<Parameter>>,
    pub extensions: Option<Vec<String>>,
    pub version: Option<String>,
}

/// View of an [`Enumerant`].
pub struct EnumerantView {
    pub enumerant: Seq<char>,
    pub value: LiteralView,
    pub capabilities: Option<Seq<Seq<char>>>,
    pub parameters: Option<Seq<ParameterView>>,
    pub extensions: Option<Seq<Seq<char>>>,
    pub version: Option<Seq<char>>,
}

impl DeepView for Enumerant {
    type V = EnumerantView;

    open spec fn deep_view(&self) -> EnumerantView {
        EnumerantView {
            enumerant: self.enumerant@,
            value: self.value.deep_view(),
            capabilities: self.capabilities.deep_view(),
            parameters: self.parameters.deep_view(),
            extensions: self.extensions.deep_view(),
            version: self.version.deep_view(),
        }
    }
}

impl View for Enumerant {
    type V = EnumerantView;

    open spec fn view(&self) -> EnumerantView {
        self.deep_view()
    }
}

/// The declaration of one operand kind.
#[derive(Debug, Clone, PartialEq, Eq)]
pub struct OperandKind {
    pub category: String,
    pub kind: String,
    pub enumerants: Option<Vec<Enumerant>>,
    pub bases: Option<Vec<String>>,
}

/// View of an [`OperandKind`].
pub struct OperandKindView {
    pub category: Seq<char>,
    pub kind: Seq<char>,
    pub enumerants: Option<Seq<EnumerantView>>,
    pub bases: Option<Seq<Seq<char>>>,
}

impl DeepView for OperandKind {
    type V = OperandKindView;

    open spec fn deep_view(&self) -> OperandKindView {
        OperandKindView {
            category: self.category@,
            kind: self.kind@,
            enumerants: self.enumerants.deep_view(),
            bases: self.bases.deep_view(),
        }
    }
}

impl View for OperandKind {
    type V = OperandKindView;

    open spec fn view(&self) -> OperandKindView {
        self.deep_view()
    }
}

/// One instruction of a grammar.
#[derive(Debug, Clone, PartialEq, Eq)]
pub struct Instruction {
    pub opname: String,
    pub class: Option<String>,
    pub opcode: u32,
    pub operands: Option<Vec<Operand>>,
    pub capabilities: Option<Vec<String>>,
    pub extensions: Option<Vec<String>>,
    pub version: Option<String>,
}

/// View of an [`Instruction`].
pub struct InstructionView {
    pub opname: Seq<char>,
    pub class: Option<Seq<char>>,
    pub opcode: u32,
    pub operands: Option<Seq<OperandView>>,
    pub capabilities: Option<Seq<Seq<char>>>,
    pub extensions: Option<Seq<Seq<char>>>,
    pub version: Option<Seq<char>>,
}

impl DeepView for Instruction {
    type V = InstructionView;

    open spec fn deep_view(&self) -> InstructionView {
        InstructionView {
            opname: self.opname@,
            class: self.class.deep_view(),
            opcode: self.opcode,
            operands: self.operands.deep_view(),
            capabilities: self.capabilities.deep_view(),
            extensions: self.extensions.deep_view(),
            version: self.version.deep_view(),
        }
    }
}

impl View for Instruction {
    type V = InstructionView;

    open spec fn view(&self) -> InstructionView {
        self.deep_view()
    }
}

/// One grammar document. A core document carries a magic number and a
/// major/minor version pair; an extended instruction set carries a single
/// version number.
#[derive(Debug, Clone, PartialEq, Eq)]
pub struct Grammar {
    pub copyright: Vec<String>,
    pub magic_number: Option<String>,
    pub major_version: Option<u32>,
    pub minor_version: Option<u32>,
    pub version: Option<u32>,
    pub revision: u32,
    pub instructions: Vec<Instruction>,
    pub operand_kinds: Option<Vec<OperandKind>>,
}

/// View of a [`Grammar`].
pub struct GrammarView {
    pub copyright: Seq<Seq<char>>,
    pub magic_number: Option<Seq<char>>,
    pub major_version: Option<u32>,
    pub minor_version: Option<u32>,
    pub version: Option<u32>,
    pub revision: u32,
    pub instructions: Seq<InstructionView>,
    pub operand_kinds: Option<Seq<OperandKindView>>,
}

impl DeepView for Grammar {
    type V = GrammarView;

    open spec fn deep_view(&self) -> GrammarView {
        GrammarView {
            copyright: self.copyright.deep_view(),
            magic_number: self.magic_number.deep_view(),
            major_version: self.major_version,
            minor_version: self.minor_version,
            version: self.version,
            revision: self.revision,
            instructions: self.instructions.deep_view(),
            operand_kinds: self.operand_kinds.deep_view(),
        }
    }
}

impl View for Grammar {
    type V = GrammarView;

    open spec fn view(&self) -> GrammarView {
        self.deep_view()
    }
}

impl GrammarView {
    /// The operand kinds of the document; none where the list is absent.
    pub open spec fn kinds(self) -> Seq<OperandKindView> {
        listed(self.operand_kinds)
    }
}

/// The elements of an optional list: none where the list is absent.
pub open spec fn listed<T>(list: Option<Seq<T>>) -> Seq<T> {
    match list {
        Some(l) => l,
        None => Seq::empty(),
    }
}

/// Which sort of document a grammar is, told from the fields it populates.
#[derive(Debug, Clone, Copy, PartialEq, Eq, Structural)]
pub enum DocumentKind {
    /// Carries a magic number and a major/minor version pair.
    Core,
    /// Carries a single version number.
    Extended,
}

/// The sort of a document: core where the magic number and both halves of the
/// version pair are present, else extended where the single version number is
/// present, else neither.
pub open spec fn document_kind_of(g: GrammarView) -> Option<DocumentKind> {
    if g.magic_number is Some && g.major_version is Some && g.minor_version is Some {
        Some(DocumentKind::Core)
    } else if g.version is Some {
        Some(DocumentKind::Extended)
    } else {
        None
    }
}

impl Grammar {
    /// Tells a core document from an extended instruction set by the optional
    /// fields that are populated; `None` where the document is neither.
    pub fn document_kind(&self) -> (r: Option<DocumentKind>)
        ensures
            r == document_kind_of(self@),
    {
        if self.magic_number.is_some() && self.major_version.is_some()
            && self.minor_version.is_some() {
            Some(DocumentKind::Core)
        } else if self.version.is_some() {
            Some(DocumentKind::Extended)
        } else {
            None
        }
    }
}

} // verus!
