//! Code generators: single-pass emitters from a module to target source text.

use vstd::prelude::*;
use crate::ast::Module;

pub mod rust;
pub mod rust_v2;

verus! {

/// Codegen determinism: modules with the same view yield the same text,
/// character for character, from either generator.
pub proof fn lemma_codegen_deterministic(a: Module, b: Module)
    requires
        a@ == b@,
    ensures
        rust::generate_spec(a@) == rust::generate_spec(b@),
        rust_v2::generate_spec(a@) == rust_v2::generate_spec(b@),
{
}

} // verus!
