//! Enumerant literals: their text, kept as written, and their numeric value.

use crate::schema::{Literal, LiteralView};
use crate::text::{chars_of, decimal, decimal_string, numeral_u32, read_numeral};
use vstd::prelude::*;

verus! {

/// The text of a literal: an integer in decimal, a token as it was written.
pub open spec fn literal_text(l: LiteralView) -> Seq<char> {
    match l {
        LiteralView::Integer(n) => decimal(n as nat),
        LiteralView::Text(s) => s,
    }
}

/// Whether a token opens with the hexadecimal prefix.
pub open spec fn has_hex_prefix(s: Seq<char>) -> bool {
    s.len() >= 2 && s[0] == '0' && (s[1] == 'x' || s[1] == 'X')
}

/// The number that a token denotes: hexadecimal digits after the prefix
/// `0x`, decimal digits otherwise; `None` where it is no numeral or does not
/// fit 32 bits.
pub open spec fn token_value(s: Seq<char>) -> Option<u32> {
    if has_hex_prefix(s) {
        numeral_u32(s.skip(2), 16)
    } else {
        numeral_u32(s, 10)
    }
}

/// The number that a literal denotes, where it fits 32 bits.
pub open spec fn literal_value(l: LiteralView) -> Option<u32> {
    match l {
        LiteralView::Integer(n) => if n <= u32::MAX {
            Some(n as u32)
        } else {
            None
        },
        LiteralView::Text(s) => token_value(s),
    }
}

/// Renders a literal as text.
pub fn literal_string(l: &Literal) -> (s: String)
    ensures
        s@ == literal_text(l@),
{
    match l {
        Literal::Integer(n) => decimal_string(*n),
        Literal::Text(t) => t.clone(),
    }
}

/// Reads a token as a number.
pub fn token_number(s: &str) -> (r: Option<u32>)
    ensures
        r == token_value(s@),
{
    let chars = chars_of(s);
    if chars.len() >= 2 && chars[0] == '0' && (chars[1] == 'x' || chars[1] == 'X') {
        assert(s@.skip(2) =~= chars@.subrange(2, chars@.len() as int));
        read_numeral(&chars, 2, chars.len(), 16)
    } else {
        assert(s@ =~= chars@.subrange(0, chars@.len() as int));
        read_numeral(&chars, 0, chars.len(), 10)
    }
}

/// Reads a literal as a number.
pub fn literal_number(l: &Literal) -> (r: Option<u32>)
    ensures
        r == literal_value(l@),
{
    match l {
        Literal::Integer(n) => {
            if *n <= 0xffff_ffff {
                Some(*n as u32)
            } else {
                None
            }
        },
        Literal::Text(t) => token_number(t.as_str()),
    }
}

} // verus!
