//! The values that the lookup tables hold, and how each is made from the
//! schema model.

use crate::keys::{
    instruction_key, make_instruction_key, make_operand_base_key, make_operand_name_key,
    make_operand_parameter_key, operand_base_key, operand_name_key, operand_parameter_key,
};
use crate::literal::{literal_number, literal_string, literal_text, literal_value};
use crate::operand::{
    base_info, compile_base, compile_operand, compile_parameter, kind_declared, operand_info,
    operand_quantified, parameter_info, OperandInfo, OperandInfoView,
};
use crate::schema::{
    listed, Enumerant, EnumerantView, Instruction, InstructionView, Operand, OperandKind,
    OperandKindView, OperandView, Parameter, ParameterView,
};
use crate::symbol::{enumerant_symbol, symbol_string};
use crate::validate::{
    bases_declared, operands_declared, operands_quantified, parameters_declared,
};
use crate::version::{encode_version, version_code};
use vstd::pervasive::unreached;
use vstd::prelude::*;

verus! {

/// What the instruction table holds for one instruction.
#[derive(Debug, Clone, PartialEq, Eq)]
pub struct InstructionInfo {
    pub name: String,
    pub opcode: u32,
    pub namespace: u32,
    pub operands: Vec<OperandInfo>,
    pub capabilities: Vec<String>,
    pub extensions: Vec<String>,
    pub version: u32,
}

/// View of an [`InstructionInfo`].
pub struct InstructionInfoView {
    pub name: Seq<char>,
    pub opcode: u32,
    pub namespace: u32,
    pub operands: Seq<OperandInfoView>,
    pub capabilities: Seq<Seq<char>>,
    pub extensions: Seq<Seq<char>>,
    pub version: u32,
}

impl DeepView for InstructionInfo {
    type V = InstructionInfoView;

    open spec fn deep_view(&self) -> InstructionInfoView {
        InstructionInfoView {
            name: self.name@,
            opcode: self.opcode,
            namespace: self.namespace,
            operands: self.operands.deep_view(),
            capabilities: self.capabilities.deep_view(),
            extensions: self.extensions.deep_view(),
            version: self.version,
        }
    }
}

impl View for InstructionInfo {
    type V = InstructionInfoView;

    open spec fn view(&self) -> InstructionInfoView {
        self.deep_view()
    }
}

/// What the operand-name table holds for one enumerant: the display name,
/// with the kind and the literal as they were written.
#[derive(Debug, Clone, PartialEq, Eq)]
pub struct OperandName {
    pub kind: String,
    pub literal: String,
    pub name: String,
}

/// View of an [`OperandName`].
pub struct OperandNameView {
    pub kind: Seq<char>,
    pub literal: Seq<char>,
    pub name: Seq<char>,
}

impl DeepView for OperandName {
    type V = OperandNameView;

    open spec fn deep_view(&self) -> OperandNameView {
        OperandNameView { kind: self.kind@, literal: self.literal@, name: self.name@ }
    }
}

impl View for OperandName {
    type V = OperandNameView;

    open spec fn view(&self) -> OperandNameView {
        self.deep_view()
    }
}

/// What the operand-parameter table holds for one enumerant: its parameters
/// in order, with the kind and the literal as they were written.
#[derive(Debug, Clone, PartialEq, Eq)]
pub struct OperandParameters {
    pub kind: String,
    pub literal: String,
    pub parameters: Vec<OperandInfo>,
}

/// View of an [`OperandParameters`].
pub struct OperandParametersView {
    pub kind: Seq<char>,
    pub literal: Seq<char>,
    pub parameters: Seq<OperandInfoView>,
}

impl DeepView for OperandParameters {
    type V = OperandParametersView;

    open spec fn deep_view(&self) -> OperandParametersView {
        OperandParametersView {
            kind: self.kind@,
            literal: self.literal@,
            parameters: self.parameters.deep_view(),
        }
    }
}

impl View for OperandParameters {
    type V = OperandParametersView;

    open spec fn view(&self) -> OperandParametersView {
        self.deep_view()
    }
}

/// What the operand-base table holds for one composite kind: its bases in order.
#[derive(Debug, Clone, PartialEq, Eq)]
pub struct OperandBases {
    pub kind: String,
    pub bases: Vec<OperandInfo>,
}

/// View of an [`OperandBases`].
pub struct OperandBasesView {
    pub kind: Seq<char>,
    pub bases: Seq<OperandInfoView>,
}

impl DeepView for OperandBases {
    type V = OperandBasesView;

    open spec fn deep_view(&self) -> OperandBasesView {
        OperandBasesView { kind: self.kind@, bases: self.bases.deep_view() }
    }
}

impl View for OperandBases {
    type V = OperandBasesView;

    open spec fn view(&self) -> OperandBasesView {
        self.deep_view()
    }
}

/// The table forms of a list of operands.
pub open spec fn operand_infos(kinds: Seq<OperandKindView>, ops: Seq<OperandView>) -> Seq<
    OperandInfoView,
> {
    Seq::new(ops.len(), |i: int| operand_info(kinds, ops[i]))
}

/// The table forms of a list of parameters.
pub open spec fn parameter_infos(kinds: Seq<OperandKindView>, ps: Seq<ParameterView>) -> Seq<
    OperandInfoView,
> {
    Seq::new(ps.len(), |i: int| parameter_info(kinds, ps[i]))
}

/// The table forms of a list of base kinds.
pub open spec fn base_infos(kinds: Seq<OperandKindView>, bases: Seq<Seq<char>>) -> Seq<
    OperandInfoView,
> {
    Seq::new(bases.len(), |i: int| base_info(kinds, bases[i]))
}

/// What the instruction table holds for an instruction of namespace
/// `namespace`: absent lists are empty, the version is encoded.
pub open spec fn instruction_info(
    kinds: Seq<OperandKindView>,
    i: InstructionView,
    namespace: u32,
) -> InstructionInfoView {
    InstructionInfoView {
        name: i.opname,
        opcode: i.opcode,
        namespace,
        operands: operand_infos(kinds, listed(i.operands)),
        capabilities: listed(i.capabilities),
        extensions: listed(i.extensions),
        version: version_code(i.version),
    }
}

/// The entry of the instruction table for an instruction.
pub open spec fn instruction_entry(
    kinds: Seq<OperandKindView>,
    i: InstructionView,
    namespace: u32,
) -> (u64, InstructionInfoView) {
    (instruction_key(i.opcode, namespace), instruction_info(kinds, i, namespace))
}

/// The entry of the operand-name table for an enumerant of the kind at
/// position `k`.
pub open spec fn name_entry(kind: OperandKindView, k: u32, e: EnumerantView) -> (
    u64,
    OperandNameView,
) {
    (
        operand_name_key(k, literal_value(e.value)->0),
        OperandNameView {
            kind: kind.kind,
            literal: literal_text(e.value),
            name: enumerant_symbol(kind.kind, e.enumerant),
        },
    )
}

/// The entry of the operand-parameter table for an enumerant, of the kind at
/// position `k`, that declares the parameters `ps`.
pub open spec fn parameter_entry(
    kinds: Seq<OperandKindView>,
    kind: OperandKindView,
    k: u32,
    e: EnumerantView,
    ps: Seq<ParameterView>,
) -> (u64, OperandParametersView) {
    (
        operand_parameter_key(k, literal_value(e.value)->0),
        OperandParametersView {
            kind: kind.kind,
            literal: literal_text(e.value),
            parameters: parameter_infos(kinds, ps),
        },
    )
}

/// The entry of the operand-base table for the kind at position `k` with the
/// bases `bases`.
pub open spec fn base_entry(
    kinds: Seq<OperandKindView>,
    kind: OperandKindView,
    k: u32,
    bases: Seq<Seq<char>>,
) -> (u64, OperandBasesView) {
    (operand_base_key(k), OperandBasesView { kind: kind.kind, bases: base_infos(kinds, bases) })
}

/// Copies a list of strings.
pub fn copy_strings(list: &Vec<String>) -> (r: Vec<String>)
    ensures
        r.deep_view() == list.deep_view(),
{
    let mut r: Vec<String> = Vec::new();
    let mut i: usize = 0;
    while i < list.len()
        invariant
            i <= list.len(),
            r.len() == i,
            forall|j: int| 0 <= j < i ==> r@[j]@ == list@[j]@,
        decreases list.len() - i,
    {
        r.push(list[i].clone());
        i += 1;
    }
    assert(r.deep_view() =~= list.deep_view());
    r
}

/// Copies an optional list of strings; an absent list gives an empty one.
pub fn copy_listed(list: &Option<Vec<String>>) -> (r: Vec<String>)
    ensures
        r.deep_view() == listed(list.deep_view()),
{
    match list {
        Some(l) => copy_strings(l),
        None => {
            let r: Vec<String> = Vec::new();
            assert(r.deep_view() =~= listed(list.deep_view()));
            r
        },
    }
}

/// Compiles the operands of an instruction; an absent list gives an empty one.
pub fn compile_operands(kinds: &Vec<OperandKind>, ops: &Option<Vec<Operand>>) -> (r: Vec<
    OperandInfo,
>)
    requires
        operands_quantified(ops.deep_view()),
        operands_declared(kinds.deep_view(), ops.deep_view()),
    ensures
        r.deep_view() == operand_infos(kinds.deep_view(), listed(ops.deep_view())),
{
    let mut r: Vec<OperandInfo> = Vec::new();
    match ops {
        Some(list) => {
            let ghost view = list.deep_view();
            assert(listed(ops.deep_view()) == view);
            let mut i: usize = 0;
            while i < list.len()
                invariant
                    i <= list.len(),
                    view == list.deep_view(),
                    r.len() == i,
                    forall|j: int|
                        0 <= j < view.len() ==> operand_quantified(#[trigger] view[j])
                            && kind_declared(kinds.deep_view(), view[j].kind),
                    forall|j: int|
                        0 <= j < i ==> (#[trigger] r@[j])@ == operand_info(
                            kinds.deep_view(),
                            view[j],
                        ),
                decreases list.len() - i,
            {
                assert(view[i as int] == list@[i as int]@);
                match compile_operand(kinds, &list[i]) {
                    Ok(info) => {
                        r.push(info);
                    },
                    Err(_) => {
                        unreached::<()>();
                    },
                }
                i += 1;
            }
            assert(r.deep_view() =~= operand_infos(kinds.deep_view(), view));
        },
        None => {
            assert(listed(ops.deep_view()).len() == 0);
            assert(r.deep_view() =~= operand_infos(kinds.deep_view(), listed(ops.deep_view())));
        },
    }
    r
}

/// Compiles the parameters of an enumerant.
pub fn compile_parameters(kinds: &Vec<OperandKind>, ps: &Vec<Parameter>) -> (r: Vec<OperandInfo>)
    requires
        parameters_declared(kinds.deep_view(), Some(ps.deep_view())),
    ensures
        r.deep_view() == parameter_infos(kinds.deep_view(), ps.deep_view()),
{
    let mut r: Vec<OperandInfo> = Vec::new();
    let ghost view = ps.deep_view();
    assert(listed(Some(view)) == view);
    let mut i: usize = 0;
    while i < ps.len()
        invariant
            i <= ps.len(),
            view == ps.deep_view(),
            r.len() == i,
            forall|j: int|
                0 <= j < view.len() ==> kind_declared(kinds.deep_view(), (#[trigger] view[j]).kind),
            forall|j: int|
                0 <= j < i ==> (#[trigger] r@[j])@ == parameter_info(kinds.deep_view(), view[j]),
        decreases ps.len() - i,
    {
        assert(view[i as int] == ps@[i as int]@);
        match compile_parameter(kinds, &ps[i]) {
            Ok(info) => {
                r.push(info);
            },
            Err(_) => {
                unreached::<()>();
            },
        }
        i += 1;
    }
    assert(r.deep_view() =~= parameter_infos(kinds.deep_view(), view));
    r
}

/// Compiles the bases of a composite kind.
pub fn compile_bases(kinds: &Vec<OperandKind>, bases: &Vec<String>) -> (r: Vec<OperandInfo>)
    requires
        bases_declared(kinds.deep_view(), Some(bases.deep_view())),
    ensures
        r.deep_view() == base_infos(kinds.deep_view(), bases.deep_view()),
{
    let mut r: Vec<OperandInfo> = Vec::new();
    let ghost view = bases.deep_view();
    assert(listed(Some(view)) == view);
    let mut i: usize = 0;
    while i < bases.len()
        invariant
            i <= bases.len(),
            view == bases.deep_view(),
            r.len() == i,
            forall|j: int| 0 <= j < view.len() ==> kind_declared(kinds.deep_view(), #[trigger] view[j]),
            forall|j: int|
                0 <= j < i ==> (#[trigger] r@[j])@ == base_info(kinds.deep_view(), view[j]),
        decreases bases.len() - i,
    {
        assert(view[i as int] == bases@[i as int]@);
        match compile_base(kinds, &bases[i]) {
            Ok(info) => {
                r.push(info);
            },
            Err(_) => {
                unreached::<()>();
            },
        }
        i += 1;
    }
    assert(r.deep_view() =~= base_infos(kinds.deep_view(), view));
    r
}

/// Compiles one instruction of namespace `namespace` into its table entry.
pub fn compile_instruction(kinds: &Vec<OperandKind>, instr: &Instruction, namespace: u32) -> (r: (
    u64,
    InstructionInfo,
))
    requires
        operands_quantified(instr@.operands),
        operands_declared(kinds.deep_view(), instr@.operands),
    ensures
        (r.0, r.1@) == instruction_entry(kinds.deep_view(), instr@, namespace),
{
    let info = InstructionInfo {
        name: instr.opname.clone(),
        opcode: instr.opcode,
        namespace,
        operands: compile_operands(kinds, &instr.operands),
        capabilities: copy_listed(&instr.capabilities),
        extensions: copy_listed(&instr.extensions),
        version: encode_version(&instr.version),
    };
    (make_instruction_key(instr.opcode, namespace), info)
}

/// Compiles the display name of an enumerant of the kind at position `k`
/// into its table entry.
pub fn compile_name(kind: &OperandKind, k: u32, e: &Enumerant) -> (r: (u64, OperandName))
    requires
        literal_value(e@.value) is Some,
    ensures
        (r.0, r.1@) == name_entry(kind@, k, e@),
{
    let value = match literal_number(&e.value) {
        Some(v) => v,
        None => unreached(),
    };
    let entry = OperandName {
        kind: kind.kind.clone(),
        literal: literal_string(&e.value),
        name: symbol_string(kind.kind.as_str(), e.enumerant.as_str()),
    };
    (make_operand_name_key(k, value), entry)
}

/// Compiles the parameters `ps` of an enumerant of the kind at position `k`
/// into their table entry.
pub fn compile_parameter_entry(
    kinds: &Vec<OperandKind>,
    kind: &OperandKind,
    k: u32,
    e: &Enumerant,
    ps: &Vec<Parameter>,
) -> (r: (u64, OperandParameters))
    requires
        literal_value(e@.value) is Some,
        parameters_declared(kinds.deep_view(), Some(ps.deep_view())),
    ensures
        (r.0, r.1@) == parameter_entry(kinds.deep_view(), kind@, k, e@, ps.deep_view()),
{
    let value = match literal_number(&e.value) {
        Some(v) => v,
        None => unreached(),
    };
    let entry = OperandParameters {
        kind: kind.kind.clone(),
        literal: literal_string(&e.value),
        parameters: compile_parameters(kinds, ps),
    };
    (make_operand_parameter_key(k, value), entry)
}

/// Compiles the bases of the kind at position `k` into their table entry.
pub fn compile_base_entry(
    kinds: &Vec<OperandKind>,
    kind: &OperandKind,
    k: u32,
    bases: &Vec<String>,
) -> (r: (u64, OperandBases))
    requires
        bases_declared(kinds.deep_view(), Some(bases.deep_view())),
    ensures
        (r.0, r.1@) == base_entry(kinds.deep_view(), kind@, k, bases.deep_view()),
{
    let entry = OperandBases { kind: kind.kind.clone(), bases: compile_bases(kinds, bases) };
    (make_operand_base_key(k), entry)
}

} // verus!
