//! The symbols under which enumerants are emitted.

use crate::literal::{literal_number, literal_value};
use crate::schema::{Literal, LiteralView};
use crate::text::str_equal;
use vstd::prelude::*;
use vstd::string::StrSliceExecFns;
use vstd::string::StringExecFns;

verus! {

/// The symbol of an enumerant in a flat enumeration and in the name table.
/// An enumerant of the dimensionality kind `Dim` whose name is exactly two
/// characters long gets the kind's name in front, since the bare form would
/// read as a number; every other name stands as it is.
pub open spec fn enumerant_symbol(kind: Seq<char>, name: Seq<char>) -> Seq<char> {
    if kind == "Dim"@ && name.len() == 2 {
        "Dim"@ + name
    } else {
        name
    }
}

/// Whether a literal denotes zero.
pub open spec fn is_zero(value: LiteralView) -> bool {
    literal_value(value) == Some(0u32)
}

/// The symbol of an enumerant in a mask enumeration: the zero-valued
/// enumerant gets `Mask` in front, every other name stands as it is.
pub open spec fn mask_symbol(name: Seq<char>, value: LiteralView) -> Seq<char> {
    if is_zero(value) {
        "Mask"@ + name
    } else {
        name
    }
}

/// Builds the symbol of an enumerant of the kind `kind`.
pub fn symbol_string(kind: &str, name: &str) -> (s: String)
    ensures
        s@ == enumerant_symbol(kind@, name@),
{
    if str_equal(kind, "Dim") && name.unicode_len() == 2 {
        let mut s = String::from_str("Dim");
        s.append(name);
        s
    } else {
        String::from_str(name)
    }
}

/// Builds the symbol of an enumerant in a mask enumeration.
pub fn mask_symbol_string(name: &str, value: &Literal) -> (s: String)
    ensures
        s@ == mask_symbol(name@, value@),
{
    let zero = match literal_number(value) {
        Some(v) => v == 0,
        None => false,
    };
    if zero {
        let mut s = String::from_str("Mask");
        s.append(name);
        s
    } else {
        String::from_str(name)
    }
}

} // verus!
