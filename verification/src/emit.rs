//! Building the lines of an output artifact.
//!
//! An artifact is a sequence of lines; each line is written out followed by a
//! line feed. The contracts of the emitters give the lines exactly.

use vstd::prelude::*;
use vstd::string::StringExecFns;

verus! {

/// Appends a line.
pub fn push_line(out: &mut Vec<String>, line: String)
    ensures
        final(out).deep_view() == old(out).deep_view().push(line@),
{
    out.push(line);
    assert(out.deep_view() =~= old(out).deep_view().push(line@));
}

/// Appends a line given as a string slice.
pub fn push_text(out: &mut Vec<String>, line: &str)
    ensures
        final(out).deep_view() == old(out).deep_view().push(line@),
{
    push_line(out, String::from_str(line));
}

/// Joins two pieces of text.
pub fn join2(a: &str, b: &str) -> (s: String)
    ensures
        s@ == a@ + b@,
{
    let mut s = String::from_str(a);
    s.append(b);
    s
}

/// Joins three pieces of text.
pub fn join3(a: &str, b: &str, c: &str) -> (s: String)
    ensures
        s@ == a@ + b@ + c@,
{
    let mut s = String::from_str(a);
    s.append(b);
    s.append(c);
    s
}

/// Joins five pieces of text.
pub fn join5(a: &str, b: &str, c: &str, d: &str, e: &str) -> (s: String)
    ensures
        s@ == a@ + b@ + c@ + d@ + e@,
{
    let mut s = String::from_str(a);
    s.append(b);
    s.append(c);
    s.append(d);
    s.append(e);
    s
}

/// Joins seven pieces of text.
pub fn join7(a: &str, b: &str, c: &str, d: &str, e: &str, f: &str, g: &str) -> (s: String)
    ensures
        s@ == a@ + b@ + c@ + d@ + e@ + f@ + g@,
{
    let mut s = String::from_str(a);
    s.append(b);
    s.append(c);
    s.append(d);
    s.append(e);
    s.append(f);
    s.append(g);
    s
}

/// Appending the next element of a run to what came before it.
pub proof fn lemma_take_push<T>(base: Seq<T>, all: Seq<T>, i: int)
    requires
        0 <= i < all.len(),
    ensures
        (base + all.take(i)).push(all[i]) == base + all.take(i + 1),
{
    assert((base + all.take(i)).push(all[i]) =~= base + all.take(i + 1));
}

/// A run taken in full is the run, and taken not at all is nothing.
pub proof fn lemma_take_ends<T>(base: Seq<T>, all: Seq<T>)
    ensures
        base + all.take(0) == base,
        base + all.take(all.len() as int) == base + all,
{
    assert(base + all.take(0) =~= base);
    assert(all.take(all.len() as int) =~= all);
}

} // verus!
