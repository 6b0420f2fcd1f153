//! Enumeration declarations.
//!
//! A value enumeration gives one flat declaration, closed by a sentinel that
//! holds the largest value, so that a consumer can tell a value out of the
//! known range. A bit enumeration gives two: a mask declaration with the bit
//! patterns, and a shift declaration that numbers the enumerants from zero in
//! declaration order, whatever their bit patterns are.

use crate::emit::{join3, join5, lemma_take_ends, lemma_take_push, push_line, push_text};
use crate::literal::{literal_string, literal_text};
use crate::schema::{Enumerant, EnumerantView, OperandKind, OperandKindView};
use crate::symbol::{enumerant_symbol, mask_symbol, mask_symbol_string, symbol_string};
use crate::text::{decimal, decimal_string, str_equal};
use vstd::prelude::*;
use vstd::string::StringExecFns;

verus! {

/// One named value of an enumeration declaration.
#[derive(Debug, Clone, PartialEq, Eq)]
pub struct EnumEntry {
    pub symbol: String,
    pub value: String,
}

/// View of an [`EnumEntry`].
pub struct EnumEntryView {
    pub symbol: Seq<char>,
    pub value: Seq<char>,
}

impl DeepView for EnumEntry {
    type V = EnumEntryView;

    open spec fn deep_view(&self) -> EnumEntryView {
        EnumEntryView { symbol: self.symbol@, value: self.value@ }
    }
}

impl View for EnumEntry {
    type V = EnumEntryView;

    open spec fn view(&self) -> EnumEntryView {
        self.deep_view()
    }
}

/// An enumeration declaration: a name, the named values in order, and
/// whether the terminal sentinel follows them.
#[derive(Debug, Clone, PartialEq, Eq)]
pub struct EnumDecl {
    pub name: String,
    pub entries: Vec<EnumEntry>,
    pub sentinel: bool,
}

/// View of an [`EnumDecl`].
pub struct EnumDeclView {
    pub name: Seq<char>,
    pub entries: Seq<EnumEntryView>,
    pub sentinel: bool,
}

impl DeepView for EnumDecl {
    type V = EnumDeclView;

    open spec fn deep_view(&self) -> EnumDeclView {
        EnumDeclView {
            name: self.name@,
            entries: self.entries.deep_view(),
            sentinel: self.sentinel,
        }
    }
}

impl View for EnumDecl {
    type V = EnumDeclView;

    open spec fn view(&self) -> EnumDeclView {
        self.deep_view()
    }
}

/// The entry of an enumerant in the flat declaration of the kind `kind`.
pub open spec fn value_entry(kind: Seq<char>, e: EnumerantView) -> EnumEntryView {
    EnumEntryView { symbol: enumerant_symbol(kind, e.enumerant), value: literal_text(e.value) }
}

/// The entry of an enumerant in a mask declaration.
pub open spec fn mask_entry(e: EnumerantView) -> EnumEntryView {
    EnumEntryView { symbol: mask_symbol(e.enumerant, e.value), value: literal_text(e.value) }
}

/// The entry of the enumerant at position `i` in a shift declaration.
pub open spec fn shift_entry(e: EnumerantView, i: int) -> EnumEntryView {
    EnumEntryView { symbol: e.enumerant, value: decimal(i as nat) }
}

/// The flat declaration of a kind with the enumerants `es`.
pub open spec fn value_enum(kind: Seq<char>, es: Seq<EnumerantView>) -> EnumDeclView {
    EnumDeclView {
        name: kind,
        entries: Seq::new(es.len(), |i: int| value_entry(kind, es[i])),
        sentinel: true,
    }
}

/// The mask declaration of a kind with the enumerants `es`.
pub open spec fn mask_enum(kind: Seq<char>, es: Seq<EnumerantView>) -> EnumDeclView {
    EnumDeclView {
        name: kind + "Mask"@,
        entries: Seq::new(es.len(), |i: int| mask_entry(es[i])),
        sentinel: false,
    }
}

/// The shift declaration of a kind with the enumerants `es`.
pub open spec fn shift_enum(kind: Seq<char>, es: Seq<EnumerantView>) -> EnumDeclView {
    EnumDeclView {
        name: kind + "Shift"@,
        entries: Seq::new(es.len(), |i: int| shift_entry(es[i], i)),
        sentinel: true,
    }
}

/// The declarations that a kind gives rise to: none where it has no list of
/// enumerants, a mask and a shift declaration where its category is
/// `BitEnum`, one flat declaration for any other category.
pub open spec fn kind_enums(kind: OperandKindView) -> Seq<EnumDeclView> {
    match kind.enumerants {
        None => Seq::empty(),
        Some(es) => if kind.category == "BitEnum"@ {
            seq![mask_enum(kind.kind, es), shift_enum(kind.kind, es)]
        } else {
            seq![value_enum(kind.kind, es)]
        },
    }
}

/// Builds the flat declaration of a kind.
pub fn build_value_enum(kind: &str, es: &Vec<Enumerant>) -> (d: EnumDecl)
    ensures
        d@ == value_enum(kind@, es.deep_view()),
{
    let ghost view = es.deep_view();
    let mut entries: Vec<EnumEntry> = Vec::new();
    let mut i: usize = 0;
    while i < es.len()
        invariant
            i <= es.len(),
            view == es.deep_view(),
            entries.len() == i,
            forall|j: int| 0 <= j < i ==> (#[trigger] entries@[j])@ == value_entry(kind@, view[j]),
        decreases es.len() - i,
    {
        assert(view[i as int] == es@[i as int]@);
        entries.push(
            EnumEntry {
                symbol: symbol_string(kind, es[i].enumerant.as_str()),
                value: literal_string(&es[i].value),
            },
        );
        i += 1;
    }
    assert(entries.deep_view() =~= value_enum(kind@, view).entries);
    EnumDecl { name: String::from_str(kind), entries, sentinel: true }
}

/// Builds the mask declaration of a kind.
pub fn build_mask_enum(kind: &str, es: &Vec<Enumerant>) -> (d: EnumDecl)
    ensures
        d@ == mask_enum(kind@, es.deep_view()),
{
    let ghost view = es.deep_view();
    let mut entries: Vec<EnumEntry> = Vec::new();
    let mut i: usize = 0;
    while i < es.len()
        invariant
            i <= es.len(),
            view == es.deep_view(),
            entries.len() == i,
            forall|j: int| 0 <= j < i ==> (#[trigger] entries@[j])@ == mask_entry(view[j]),
        decreases es.len() - i,
    {
        assert(view[i as int] == es@[i as int]@);
        entries.push(
            EnumEntry {
                symbol: mask_symbol_string(es[i].enumerant.as_str(), &es[i].value),
                value: literal_string(&es[i].value),
            },
        );
        i += 1;
    }
    assert(entries.deep_view() =~= mask_enum(kind@, view).entries);
    let mut name = String::from_str(kind);
    name.append("Mask");
    EnumDecl { name, entries, sentinel: false }
}

/// Builds the shift declaration of a kind.
pub fn build_shift_enum(kind: &str, es: &Vec<Enumerant>) -> (d: EnumDecl)
    ensures
        d@ == shift_enum(kind@, es.deep_view()),
{
    let ghost view = es.deep_view();
    let mut entries: Vec<EnumEntry> = Vec::new();
    let mut i: usize = 0;
    while i < es.len()
        invariant
            i <= es.len(),
            view == es.deep_view(),
            entries.len() == i,
            forall|j: int| 0 <= j < i ==> (#[trigger] entries@[j])@ == shift_entry(view[j], j),
        decreases es.len() - i,
    {
        assert(view[i as int] == es@[i as int]@);
        entries.push(
            EnumEntry { symbol: es[i].enumerant.clone(), value: decimal_string(i as u64) },
        );
        i += 1;
    }
    assert(entries.deep_view() =~= shift_enum(kind@, view).entries);
    let mut name = String::from_str(kind);
    name.append("Shift");
    EnumDecl { name, entries, sentinel: true }
}

/// Builds the declarations that a kind gives rise to.
pub fn build_kind_enums(kind: &OperandKind) -> (ds: Vec<EnumDecl>)
    ensures
        ds.deep_view() == kind_enums(kind@),
{
    let mut ds: Vec<EnumDecl> = Vec::new();
    match &kind.enumerants {
        None => {
            assert(ds.deep_view() =~= kind_enums(kind@));
        },
        Some(es) => {
            assert(kind@.enumerants == Some(es.deep_view()));
            if str_equal(kind.category.as_str(), "BitEnum") {
                ds.push(build_mask_enum(kind.kind.as_str(), es));
                ds.push(build_shift_enum(kind.kind.as_str(), es));
            } else {
                ds.push(build_value_enum(kind.kind.as_str(), es));
            }
            assert(ds.deep_view() =~= kind_enums(kind@));
        },
    }
    ds
}

/// The line that opens a declaration.
pub open spec fn enum_head(name: Seq<char>) -> Seq<char> {
    "\tenum class "@ + name + " : unsigned"@
}

/// The line of one named value.
pub open spec fn enum_entry_line(e: EnumEntryView) -> Seq<char> {
    "\t\t"@ + e.symbol + " = "@ + e.value + ","@
}

/// The lines of the named values of a declaration.
pub open spec fn enum_entry_lines(entries: Seq<EnumEntryView>) -> Seq<Seq<char>> {
    Seq::new(entries.len(), |i: int| enum_entry_line(entries[i]))
}

/// The lines that close a declaration, the sentinel first where it has one.
pub open spec fn enum_tail(sentinel: bool) -> Seq<Seq<char>> {
    if sentinel {
        seq!["\t\tMax = 0x7fffffff"@, "\t};"@]
    } else {
        seq!["\t};"@]
    }
}

/// The lines of a declaration.
pub open spec fn enum_lines(d: EnumDeclView) -> Seq<Seq<char>> {
    seq![enum_head(d.name), "\t{"@] + enum_entry_lines(d.entries) + enum_tail(d.sentinel)
}

/// The lines of the first `n` declarations of a list.
pub open spec fn enums_lines(ds: Seq<EnumDeclView>, n: nat) -> Seq<Seq<char>>
    decreases n,
{
    if n == 0 {
        Seq::empty()
    } else {
        enums_lines(ds, (n - 1) as nat) + enum_lines(ds[n - 1])
    }
}

/// Writes a declaration.
pub fn emit_enum(out: &mut Vec<String>, d: &EnumDecl)
    ensures
        final(out).deep_view() == old(out).deep_view() + enum_lines(d@),
{
    let ghost start = out.deep_view();
    push_line(out, join3("\tenum class ", d.name.as_str(), " : unsigned"));
    push_text(out, "\t{");
    let ghost base = out.deep_view();
    let ghost all = enum_entry_lines(d@.entries);
    proof {
        lemma_take_ends(base, all);
    }
    let mut i: usize = 0;
    while i < d.entries.len()
        invariant
            i <= d.entries.len(),
            all == enum_entry_lines(d@.entries),
            all.len() == d.entries.len(),
            out.deep_view() == base + all.take(i as int),
        decreases d.entries.len() - i,
    {
        assert(d@.entries[i as int] == d.entries@[i as int]@);
        push_line(
            out,
            join5("\t\t", d.entries[i].symbol.as_str(), " = ", d.entries[i].value.as_str(), ","),
        );
        proof {
            lemma_take_push(base, all, i as int);
        }
        i += 1;
    }
    proof {
        lemma_take_ends(base, all);
    }
    if d.sentinel {
        push_text(out, "\t\tMax = 0x7fffffff");
    }
    push_text(out, "\t};");
    assert(out.deep_view() =~= start + enum_lines(d@));
}

/// Writes the declarations of a list, one after the other.
pub fn emit_enums(out: &mut Vec<String>, ds: &Vec<EnumDecl>)
    ensures
        final(out).deep_view() == old(out).deep_view() + enums_lines(
            ds.deep_view(),
            ds.len() as nat,
        ),
{
    let ghost start = out.deep_view();
    let ghost view = ds.deep_view();
    let mut i: usize = 0;
    assert(start + enums_lines(view, 0) =~= start);
    while i < ds.len()
        invariant
            i <= ds.len(),
            view == ds.deep_view(),
            out.deep_view() == start + enums_lines(view, i as nat),
        decreases ds.len() - i,
    {
        assert(view[i as int] == ds@[i as int]@);
        emit_enum(out, &ds[i]);
        assert(start + enums_lines(view, i as nat) + enum_lines(view[i as int]) =~= start
            + enums_lines(view, (i + 1) as nat));
        i += 1;
    }
}

} // verus!
