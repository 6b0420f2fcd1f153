//! Minimum-version strings packed into one integer.
//!
//! A version reads `major.minor`; it is packed as `(major << 16) | (minor << 8)`
//! so that versions compare as plain integers. An absent or malformed string
//! encodes to zero, which stands for "no minimum version".

use crate::text::{chars_of, numeral_u32, read_numeral};
use vstd::prelude::*;

verus! {

/// The packed form of a version pair.
pub open spec fn pack_version(major: u32, minor: u32) -> u32 {
    (major << 16) | (minor << 8)
}

/// Whether index `i` holds the one and only full stop of `s`.
pub open spec fn only_dot_at(s: Seq<char>, i: int) -> bool {
    &&& 0 <= i < s.len()
    &&& s[i] == '.'
    &&& forall|j: int| 0 <= j < s.len() && s[j] == '.' ==> j == i
}

/// The value of one half of a version string: decimal digits, optionally
/// preceded by a plus sign, denoting a number that fits 32 bits.
pub open spec fn version_field(s: Seq<char>) -> Option<u32> {
    if s.len() > 0 && s[0] == '+' {
        numeral_u32(s.skip(1), 10)
    } else {
        numeral_u32(s, 10)
    }
}

/// The pair a version string denotes: the string holds exactly one full stop,
/// and both halves around it are numbers.
pub open spec fn version_pair(s: Seq<char>) -> Option<(u32, u32)> {
    if exists|i: int| only_dot_at(s, i) {
        let i = choose|i: int| only_dot_at(s, i);
        match (version_field(s.take(i)), version_field(s.skip(i + 1))) {
            (Some(major), Some(minor)) => Some((major, minor)),
            _ => None,
        }
    } else {
        None
    }
}

/// The encoding of an optional version string: the packed pair where the
/// string is well formed, zero where it is absent or malformed.
pub open spec fn version_code(version: Option<Seq<char>>) -> u32 {
    match version {
        Some(s) => match version_pair(s) {
            Some((major, minor)) => pack_version(major, minor),
            None => 0,
        },
        None => 0,
    }
}

/// Reads the characters `chars[from..to]` as one half of a version string.
fn read_field(chars: &Vec<char>, from: usize, to: usize) -> (r: Option<u32>)
    requires
        from <= to <= chars.len(),
    ensures
        r == version_field(chars@.subrange(from as int, to as int)),
{
    let ghost s = chars@.subrange(from as int, to as int);
    if from < to && chars[from] == '+' {
        assert(s.skip(1) =~= chars@.subrange(from + 1, to as int));
        read_numeral(chars, from + 1, to, 10)
    } else {
        read_numeral(chars, from, to, 10)
    }
}

/// Packs a version pair.
pub fn pack(major: u32, minor: u32) -> (code: u32)
    ensures
        code == pack_version(major, minor),
{
    (major << 16) | (minor << 8)
}

/// Reads a version string as a pair; `None` where it is malformed.
pub fn parse_version(s: &str) -> (r: Option<(u32, u32)>)
    ensures
        r == version_pair(s@),
{
    let chars = chars_of(s);
    let mut dots: usize = 0;
    let mut at: usize = 0;
    let mut i: usize = 0;
    while i < chars.len()
        invariant
            i <= chars.len(),
            chars@ == s@,
            dots <= i,
            dots == 0 ==> forall|j: int| 0 <= j < i ==> s@[j] != '.',
            dots == 1 ==> at < i && s@[at as int] == '.' && forall|j: int|
                0 <= j < i && s@[j] == '.' ==> j == at,
            dots >= 2 ==> exists|j: int, k: int|
                0 <= j < k < i && s@[j] == '.' && s@[k] == '.',
        decreases chars.len() - i,
    {
        if chars[i] == '.' {
            if dots == 0 {
                at = i;
            } else if dots == 1 {
                assert(0 <= at < i < i + 1 && s@[at as int] == '.' && s@[i as int] == '.');
            }
            dots += 1;
        }
        i += 1;
    }
    if dots != 1 {
        assert(forall|p: int| !only_dot_at(s@, p));
        return None;
    }
    assert(only_dot_at(s@, at as int));
    proof {
        let p = choose|p: int| only_dot_at(s@, p);
        assert(p == at);
        assert(s@.take(at as int) =~= chars@.subrange(0, at as int));
        assert(s@.skip(at + 1) =~= chars@.subrange(at + 1, chars@.len() as int));
    }
    let major = read_field(&chars, 0, at);
    let minor = read_field(&chars, at + 1, chars.len());
    match (major, minor) {
        (Some(a), Some(b)) => Some((a, b)),
        _ => None,
    }
}

/// Encodes an optional minimum-version string.
pub fn encode_version(version: &Option<String>) -> (code: u32)
    ensures
        code == version_code(version.deep_view()),
{
    match version {
        Some(s) => match parse_version(s.as_str()) {
            Some((major, minor)) => pack(major, minor),
            None => 0,
        },
        None => 0,
    }
}

/// The major half of a packed version.
pub open spec fn major_of(code: u32) -> u32 {
    code >> 16
}

/// The minor half of a packed version.
pub open spec fn minor_of(code: u32) -> u32 {
    (code >> 8) & 0xff
}

/// Takes a packed version apart.
pub fn unpack(code: u32) -> (pair: (u32, u32))
    ensures
        pair == (major_of(code), minor_of(code)),
{
    (code >> 16, (code >> 8) & 0xff)
}

/// A version pair that fits its fields comes back from its packed form.
pub proof fn lemma_pack_round_trip(major: u32, minor: u32)
    requires
        major < 0x1_0000,
        minor < 0x100,
    ensures
        major_of(pack_version(major, minor)) == major,
        minor_of(pack_version(major, minor)) == minor,
{
    assert(major < 0x1_0000 && minor < 0x100 ==> ((major << 16) | (minor << 8)) >> 16 == major && (
    (((major << 16) | (minor << 8)) >> 8) & 0xff) == minor) by (bit_vector);
}

/// An absent version encodes to zero.
pub proof fn lemma_absent_version_is_zero()
    ensures
        version_code(None) == 0,
{
}

/// A malformed version string encodes to zero.
pub proof fn lemma_malformed_version_is_zero(s: Seq<char>)
    requires
        version_pair(s) is None,
    ensures
        version_code(Some(s)) == 0,
{
}

/// A well-formed version string encodes to its packed pair.
pub proof fn lemma_well_formed_version(s: Seq<char>, major: u32, minor: u32)
    requires
        version_pair(s) == Some((major, minor)),
    ensures
        version_code(Some(s)) == (major << 16) | (minor << 8),
{
}

/// Every real version packs to more than zero, the code of "no minimum".
pub proof fn lemma_real_version_above_none(major: u32, minor: u32)
    requires
        major < 0x1_0000,
        minor < 0x100_0000,
        major > 0 || minor > 0,
    ensures
        pack_version(major, minor) > 0,
{
    assert(major < 0x1_0000 && minor < 0x100_0000 && (major > 0 || minor > 0) ==> (major << 16) | (
    minor << 8) > 0) by (bit_vector);
}

/// Packed versions compare as the pairs do, major first, while each half
/// stays within its field.
pub proof fn lemma_pack_version_ordered(major1: u32, minor1: u32, major2: u32, minor2: u32)
    requires
        major1 < 0x1_0000,
        major2 < 0x1_0000,
        minor1 < 0x100,
        minor2 < 0x100,
    ensures
        pack_version(major1, minor1) < pack_version(major2, minor2) <==> (major1 < major2 || (major1
            == major2 && minor1 < minor2)),
{
    assert(major1 < 0x1_0000 && major2 < 0x1_0000 && minor1 < 0x100 && minor2 < 0x100 ==> (((major1
        << 16) | (minor1 << 8)) < ((major2 << 16) | (minor2 << 8)) <==> (major1 < major2 || (major1
        == major2 && minor1 < minor2)))) by (bit_vector);
}

} // verus!
