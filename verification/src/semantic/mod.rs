//! Semantic passes over a lowered module: name resolution, effect checking
//! and totality checking. Each pass returns its diagnostics; none changes
//! the module.

use vstd::prelude::*;
use crate::ast::{Module, ModuleView};
use crate::diagnostics::{Diagnostic, DiagnosticView, diags_view};

pub mod effects;
pub mod resolve;
pub mod totality;

verus! {

/// The diagnostics of all passes: those of name resolution, then those of
/// the effects pass, then those of the totality pass.
pub open spec fn analyze_spec(m: ModuleView) -> Seq<DiagnosticView> {
    resolve::resolve_names_spec(m) + effects::check_effects_spec(m) + totality::check_totality_spec(
        m,
    )
}

/// Runs all semantic passes on a module and returns their diagnostics.
pub fn analyze(module: &Module) -> (diagnostics: Vec<Diagnostic>)
    ensures
        diags_view(diagnostics@) == analyze_spec(module@),
{
    let mut diagnostics = resolve::resolve_names(module);
    let mut second = effects::check_effects(module);
    let mut third = totality::check_totality(module);
    let ghost a = diagnostics@;
    let ghost b = second@;
    let ghost c = third@;
    diagnostics.append(&mut second);
    diagnostics.append(&mut third);
    assert(diags_view(a + b + c) =~= diags_view(a) + diags_view(b) + diags_view(c));
    diagnostics
}

} // verus!
