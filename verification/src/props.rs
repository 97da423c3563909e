//! Properties of the library as a whole, stated and proved once.

use vstd::prelude::*;

use crate::parser::program_of_source;
use crate::ubc::{step_result, UbcErrSpec, UbcSpec};

verus! {

/// Lowering is deterministic: the same source text always tokenizes,
/// parses and lowers to the same result, so parsing a text twice
/// yields structurally equal ASTs — or the same error.
pub proof fn lemma_parse_program_deterministic(s1: Seq<char>, s2: Seq<char>)
    requires
        s1 == s2,
    ensures
        program_of_source(s1) == program_of_source(s2),
{
}

/// Exhaustion is idempotent: once a step reports that no statement was
/// left, the interpreter is complete, and every further step reports
/// the same outcome and leaves the state untouched.
pub proof fn lemma_step_exhaustion_idempotent(u: UbcSpec)
    requires
        step_result(u).1 == Ok::<bool, UbcErrSpec>(false),
    ensures
        step_result(u).0.complete,
        step_result(step_result(u).0) == (step_result(u).0, Ok::<bool, UbcErrSpec>(false)),
{
}

} // verus!
