//! Scaffold synthesizer: from a module to the files of a small web service.

use vstd::prelude::*;
use vstd::string::StringExecFns;
use crate::ast::{Module, ModuleView};

pub mod route_analysis;
pub mod cargo_emitter;
pub mod html_emitter;
pub mod main_emitter;
pub mod handlers_emitter;

verus! {

/// All the files of the scaffold, as text.
pub struct ScaffoldOutput {
    pub main_rs: String,
    pub handlers_rs: String,
    pub html_rs: String,
    pub cargo_toml: String,
    pub generated_mod_rs: String,
}

pub ghost struct ScaffoldView {
    pub main_rs: Seq<char>,
    pub handlers_rs: Seq<char>,
    pub html_rs: Seq<char>,
    pub cargo_toml: Seq<char>,
    pub generated_mod_rs: Seq<char>,
}

impl View for ScaffoldOutput {
    type V = ScaffoldView;

    open spec fn view(&self) -> ScaffoldView {
        ScaffoldView {
            main_rs: self.main_rs@,
            handlers_rs: self.handlers_rs@,
            html_rs: self.html_rs@,
            cargo_toml: self.cargo_toml@,
            generated_mod_rs: self.generated_mod_rs@,
        }
    }
}

/// The files of the scaffold for a module: each is what its emitter writes
/// for the route table of the module; the index file exposes the generated
/// domain code under the module's name, with `_` for `-`.
pub open spec fn scaffold_spec(m: ModuleView) -> ScaffoldView {
    let table = route_analysis::analyze_spec(m);
    ScaffoldView {
        main_rs: main_emitter::emit_spec(table),
        handlers_rs: handlers_emitter::emit_spec(table),
        html_rs: html_emitter::emit_spec(table),
        cargo_toml: cargo_emitter::emit_spec(table),
        generated_mod_rs: "pub mod "@ + route_analysis::replaced(m.name, '-', '_') + ";\n"@,
    }
}

/// Generates all the files of the scaffold from a module.
pub fn scaffold(module: &Module) -> (out: ScaffoldOutput)
    ensures
        out@ == scaffold_spec(module@),
{
    let table = route_analysis::analyze(module);
    let module_name = route_analysis::replace_char(module.name.as_str(), '-', '_');
    let mut index = String::from_str("pub mod ");
    index.append(module_name.as_str());
    index.append(";\n");
    ScaffoldOutput {
        main_rs: main_emitter::emit(&table),
        handlers_rs: handlers_emitter::emit(&table),
        html_rs: html_emitter::emit(&table),
        cargo_toml: cargo_emitter::emit(&table),
        generated_mod_rs: index,
    }
}

/// The route table of a module.
pub fn analyze(module: &Module) -> (table: route_analysis::RouteTable)
    ensures
        table@ == route_analysis::analyze_spec(module@),
{
    route_analysis::analyze(module)
}

} // verus!
