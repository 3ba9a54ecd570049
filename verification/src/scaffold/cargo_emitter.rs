//! Emitter of the package manifest of the web service.

use vstd::prelude::*;
use vstd::string::StringExecFns;
use crate::names::{title, to_title};
use crate::scaffold::route_analysis::{RouteTable, RouteTableView, StoreInfo, StoreInfoView, Route,
    RouteView, RouteKind, HttpMethod, replaced, replace_char, store_infos_view, routes_view};
use crate::text::{left, owned};

verus! {

/// The package manifest of the web service; the package is named after the
/// module, with `-` for `_` and the ending `-web`.
pub open spec fn manifest(acc: Seq<char>, t: RouteTableView) -> Seq<char> {
    let s = acc + "[package]\nname = \""@ + replaced(t.module_name, '_', '-') + "-web\"\nversion = \"0.1.0\"\nedition = \"2021\"\n\n[dependencies]\npact-runtime = { path = \"../pact-runtime\" }\naxum = \"0.8\"\ntokio = { version = \"1\", features = [\"full\"] }\nserde = { version = \"1\", features = [\"derive\"] }\nserde_json = \"1\"\nuuid = { version = \"1\", features = [\"v4\"] }\n"@;
    s
}

fn emit_manifest(out: &mut String, table: &RouteTable)
    ensures
        final(out)@ == manifest(old(out)@, table@),
{
    let package = replace_char(table.module_name.as_str(), '_', '-');
    out.append("[package]\nname = \"");
    out.append(package.as_str());
    out.append("-web\"\nversion = \"0.1.0\"\nedition = \"2021\"\n\n[dependencies]\npact-runtime = { path = \"../pact-runtime\" }\naxum = \"0.8\"\ntokio = { version = \"1\", features = [\"full\"] }\nserde = { version = \"1\", features = [\"derive\"] }\nserde_json = \"1\"\nuuid = { version = \"1\", features = [\"v4\"] }\n");
}
/// The package manifest of the web service for a route table.
pub open spec fn emit_spec(t: RouteTableView) -> Seq<char> {
    manifest(Seq::empty(), t)
}

/// Generates the package manifest of the web service.
pub fn emit(table: &RouteTable) -> (r: String)
    ensures
        r@ == emit_spec(table@),
{
    let mut out = String::new();
    emit_manifest(&mut out, table);
    out
}

} // verus!
