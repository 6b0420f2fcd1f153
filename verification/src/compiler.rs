//! One compilation run: which artifact a request asks for, and its lines.
//!
//! A run reads its grammars, compiles, and renders one artifact. The three
//! sorts of artifact exclude one another: a request for primitive
//! definitions is served before one for declarations, and that before one
//! for table definitions. Every artifact opens with a banner line. A fault
//! ends the run with no artifact at all.

use crate::cpp::{grammar_cpp, grammar_cpp_lines};
use crate::defs::{ext_defs, ext_defs_lines, spv_defs, spv_defs_lines, Extension};
use crate::emit::push_text;
use crate::header::{grammar_header, grammar_header_lines};
use crate::operand::GrammarError;
use crate::schema::{Grammar, GrammarView};
use crate::validate::grammar_fault;
use vstd::prelude::*;

verus! {

/// What a run is asked to render.
#[derive(Debug, Clone, Copy, PartialEq, Eq, Structural)]
pub struct Request {
    /// Primitive definitions: enumerations and classification predicates.
    pub defs: bool,
    /// Declarations of the table types and query signatures.
    pub header: bool,
    /// Definitions of the compiled tables.
    pub cpp: bool,
}

/// The line that opens every artifact.
pub open spec fn banner() -> Seq<char> {
    "// Auto generated - do not modify"@
}

/// The artifact of a run, or the fault that ends it.
///
/// Primitive definitions are those of the core grammar where there is one,
/// else those of the first extended instruction set that is there.
/// Declarations need the core grammar. Table definitions need the core
/// grammar and both extended instruction sets, which take the namespaces 1
/// and 2 in this order. A request that cannot be served gives the banner
/// alone.
pub open spec fn generated(
    request: Request,
    spv: Option<GrammarView>,
    glsl: Option<GrammarView>,
    opencl: Option<GrammarView>,
) -> Result<Seq<Seq<char>>, GrammarError> {
    if request.defs {
        if spv is Some {
            Ok(seq![banner()] + spv_defs_lines(spv->0))
        } else if glsl is Some {
            Ok(seq![banner()] + ext_defs_lines(glsl->0, Extension::GlslStd450))
        } else if opencl is Some {
            Ok(seq![banner()] + ext_defs_lines(opencl->0, Extension::OpenCl100))
        } else {
            Ok(seq![banner()])
        }
    } else if request.header && spv is Some {
        Ok(seq![banner()] + grammar_header_lines(spv->0))
    } else if request.cpp && spv is Some && glsl is Some && opencl is Some {
        match grammar_fault(spv->0, seq![glsl->0, opencl->0]) {
            Some(e) => Err(e),
            None => Ok(seq![banner()] + grammar_cpp_lines(spv->0, seq![glsl->0, opencl->0])),
        }
    } else {
        Ok(seq![banner()])
    }
}

/// Two runs on the same request and on grammars of the same content give
/// the same artifact, line for line, or end with the same fault.
pub proof fn lemma_generated_deterministic(
    request: Request,
    spv: Option<GrammarView>,
    glsl: Option<GrammarView>,
    opencl: Option<GrammarView>,
    first: Result<Seq<Seq<char>>, GrammarError>,
    second: Result<Seq<Seq<char>>, GrammarError>,
)
    requires
        first == generated(request, spv, glsl, opencl),
        second == generated(request, spv, glsl, opencl),
    ensures
        first == second,
{
}

/// Puts the banner in front of the lines of an artifact.
pub fn with_banner(lines: Vec<String>) -> (out: Vec<String>)
    ensures
        out.deep_view() == seq![banner()] + lines.deep_view(),
{
    let mut out: Vec<String> = Vec::new();
    let mut rest = lines;
    assert(out.deep_view() =~= Seq::<Seq<char>>::empty());
    push_text(&mut out, "// Auto generated - do not modify");
    let ghost head = out@;
    let ghost tail = rest@;
    assert(head.len() == out.deep_view().len());
    assert(head[0]@ == out.deep_view()[0]);
    out.append(&mut rest);
    assert(out@ == head + tail);
    assert(out.deep_view() =~= seq![banner()] + lines.deep_view()) by {
        assert forall|i: int| 0 <= i < out@.len() implies #[trigger] out.deep_view()[i] == (seq![
            banner(),
        ] + lines.deep_view())[i] by {
            if i >= 1 {
                assert(out@[i] == tail[i - 1]);
            }
        }
    }
    out
}

/// Runs one compilation: renders the artifact that the request asks for.
pub fn generate(
    request: Request,
    spv: Option<Grammar>,
    glsl: Option<Grammar>,
    opencl: Option<Grammar>,
) -> (r: Result<Vec<String>, GrammarError>)
    ensures
        match r {
            Ok(lines) => generated(request, spv.deep_view(), glsl.deep_view(), opencl.deep_view())
                == Ok::<Seq<Seq<char>>, GrammarError>(lines.deep_view()),
            Err(e) => generated(request, spv.deep_view(), glsl.deep_view(), opencl.deep_view())
                == Err::<Seq<Seq<char>>, GrammarError>(e),
        },
{
    if request.defs {
        match &spv {
            Some(g) => {
                return Ok(with_banner(spv_defs(g)));
            },
            None => {},
        }
        match &glsl {
            Some(g) => {
                return Ok(with_banner(ext_defs(g, Extension::GlslStd450)));
            },
            None => {},
        }
        match &opencl {
            Some(g) => {
                return Ok(with_banner(ext_defs(g, Extension::OpenCl100)));
            },
            None => {},
        }
        return Ok(with_banner(Vec::new()));
    }
    if request.header {
        match &spv {
            Some(g) => {
                return Ok(with_banner(grammar_header(g)));
            },
            None => {},
        }
    }
    if request.cpp {
        match (spv, glsl, opencl) {
            (Some(core), Some(first), Some(second)) => {
                let ghost views = seq![first@, second@];
                let mut extended: Vec<Grammar> = Vec::new();
                extended.push(first);
                extended.push(second);
                assert(extended.deep_view() =~= views);
                return match grammar_cpp(&core, &extended) {
                    Ok(lines) => Ok(with_banner(lines)),
                    Err(e) => Err(e),
                };
            },
            _ => {},
        }
    }
    let out = with_banner(Vec::new());
    assert(out.deep_view() =~= seq![banner()]);
    Ok(out)
}

} // verus!
