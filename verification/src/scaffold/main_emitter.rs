//! Emitter of the main entry file of the web service.

use vstd::prelude::*;
use vstd::string::StringExecFns;
use crate::ast::opt_str_view;
use crate::names::{title, to_title};
use crate::scaffold::route_analysis::{RouteTable, RouteTableView, StoreInfo, StoreInfoView, Route,
    RouteView, RouteKind, HttpMethod, replaced, replace_char, store_infos_view, routes_view};
use crate::text::{left, owned, str_eq};

verus! {

broadcast use crate::scaffold::route_analysis::group_route_views;

/// The imports and the module declarations.
pub open spec fn imports(acc: Seq<char>) -> Seq<char> {
    let s = acc + "use std::sync::{Arc, Mutex};\n"@ + "\n"@ + "use axum::routing::{get, post};\n"@ + "use axum::Router;\n"@ + "use pact_runtime::prelude::InMemoryStore;\n"@ + "\n"@ + "mod generated;\n"@ + "mod handlers;\n"@ + "mod html;\n"@ + "\n"@;
    s
}

fn emit_imports(out: &mut String)
    ensures
        final(out)@ == imports(old(out)@),
{
    out.append("use std::sync::{Arc, Mutex};\n");
    out.append("\n");
    out.append("use axum::routing::{get, post};\n");
    out.append("use axum::Router;\n");
    out.append("use pact_runtime::prelude::InMemoryStore;\n");
    out.append("\n");
    out.append("mod generated;\n");
    out.append("mod handlers;\n");
    out.append("mod html;\n");
    out.append("\n");
}
/// The import of the type of one store.
pub open spec fn store_use(acc: Seq<char>, store: StoreInfoView, module_name: Seq<char>) -> Seq<char> {
    let s = acc + "use generated::"@ + module_name + "::"@ + store.ty_name + ";\n"@;
    s
}

fn emit_store_use(out: &mut String, store: &StoreInfo, module_name: &str)
    ensures
        final(out)@ == store_use(old(out)@, store@, module_name@),
{
    out.append("use generated::");
    out.append(module_name);
    out.append("::");
    out.append(store.ty_name.as_str());
    out.append(";\n");
}
/// The imports of the types of the stores from `i` on.
pub open spec fn store_uses(acc: Seq<char>, items: Seq<StoreInfoView>, i: int, module_name: Seq<char>) -> Seq<char>
    decreases left(items.len(), i),
{
    if 0 <= i < items.len() {
        store_uses(store_use(acc, items[i], module_name), items, i + 1, module_name)
    } else {
        acc
    }
}

fn emit_store_uses(out: &mut String, items: &Vec<StoreInfo>, module_name: &str)
    ensures
        final(out)@ == store_uses(old(out)@, store_infos_view(items@), 0, module_name@),
{
    broadcast use crate::scaffold::route_analysis::group_route_views;

    let ghost vs = store_infos_view(items@);
    let mut i: usize = 0;
    while i < items.len()
        invariant
            i <= items.len(),
            store_uses(out@, vs, i as int, module_name@) == store_uses(old(out)@, vs, 0, module_name@),
        decreases items.len() - i,
    {
        emit_store_use(out, &items[i], module_name);
        i += 1;
    }
}

/// The field of the application state for one store.
pub open spec fn state_field(acc: Seq<char>, store: StoreInfoView) -> Seq<char> {
    let s = acc + "    pub "@ + store.singular + "_store"@ + ": Arc<Mutex<InMemoryStore<"@ + store.ty_name + ">>>,\n"@;
    s
}

fn emit_state_field(out: &mut String, store: &StoreInfo)
    ensures
        final(out)@ == state_field(old(out)@, store@),
{
    out.append("    pub ");
    out.append(store.singular.as_str());
    out.append("_store");
    out.append(": Arc<Mutex<InMemoryStore<");
    out.append(store.ty_name.as_str());
    out.append(">>>,\n");
}
/// The fields of the application state for the stores from `i` on.
pub open spec fn state_fields(acc: Seq<char>, items: Seq<StoreInfoView>, i: int) -> Seq<char>
    decreases left(items.len(), i),
{
    if 0 <= i < items.len() {
        state_fields(state_field(acc, items[i]), items, i + 1)
    } else {
        acc
    }
}

fn emit_state_fields(out: &mut String, items: &Vec<StoreInfo>)
    ensures
        final(out)@ == state_fields(old(out)@, store_infos_view(items@), 0),
{
    broadcast use crate::scaffold::route_analysis::group_route_views;

    let ghost vs = store_infos_view(items@);
    let mut i: usize = 0;
    while i < items.len()
        invariant
            i <= items.len(),
            state_fields(out@, vs, i as int) == state_fields(old(out)@, vs, 0),
        decreases items.len() - i,
    {
        emit_state_field(out, &items[i]);
        i += 1;
    }
}

/// The initializer of the application state for one store.
pub open spec fn state_init(acc: Seq<char>, store: StoreInfoView) -> Seq<char> {
    let s = acc + "        "@ + store.singular + "_store"@ + ": Arc::new(Mutex::new(InMemoryStore::new())),\n"@;
    s
}

fn emit_state_init(out: &mut String, store: &StoreInfo)
    ensures
        final(out)@ == state_init(old(out)@, store@),
{
    out.append("        ");
    out.append(store.singular.as_str());
    out.append("_store");
    out.append(": Arc::new(Mutex::new(InMemoryStore::new())),\n");
}
/// The initializers of the application state for the stores from `i` on.
pub open spec fn state_inits(acc: Seq<char>, items: Seq<StoreInfoView>, i: int) -> Seq<char>
    decreases left(items.len(), i),
{
    if 0 <= i < items.len() {
        state_inits(state_init(acc, items[i]), items, i + 1)
    } else {
        acc
    }
}

fn emit_state_inits(out: &mut String, items: &Vec<StoreInfo>)
    ensures
        final(out)@ == state_inits(old(out)@, store_infos_view(items@), 0),
{
    broadcast use crate::scaffold::route_analysis::group_route_views;

    let ghost vs = store_infos_view(items@);
    let mut i: usize = 0;
    while i < items.len()
        invariant
            i <= items.len(),
            state_inits(out@, vs, i as int) == state_inits(old(out)@, vs, 0),
        decreases items.len() - i,
    {
        emit_state_init(out, &items[i]);
        i += 1;
    }
}

/// The first route of kind `List` from `i` on.
pub open spec fn first_list(routes: Seq<RouteView>, i: int) -> Option<RouteView>
    decreases left(routes.len(), i),
{
    if 0 <= i < routes.len() {
        if routes[i].kind is List {
            Some(routes[i])
        } else {
            first_list(routes, i + 1)
        }
    } else {
        None
    }
}

/// The root route: the list handler of the first store.
pub open spec fn root_route(acc: Seq<char>, routes: Seq<RouteView>) -> Seq<char> {
    match first_list(routes, 0) {
        Some(r) => acc + "        .route(\"/\", get(handlers::"@ + r.handler_name + "))\n"@,
        None => acc,
    }
}

fn emit_root_route(out: &mut String, routes: &Vec<Route>)
    ensures
        final(out)@ == root_route(old(out)@, routes_view(routes@)),
{
    let ghost vs = routes_view(routes@);
    let mut i: usize = 0;
    while i < routes.len()
        invariant
            i <= routes.len(),
            out@ == old(out)@,
            first_list(vs, i as int) == first_list(vs, 0),
        decreases routes.len() - i,
    {
        if let RouteKind::List = routes[i].kind {
            out.append("        .route(\"/\", get(handlers::");
            out.append(routes[i].handler_name.as_str());
            out.append("))\n");
            return ;
        }
        i += 1;
    }
}

/// The HTML route of one route, mounted at its own path: lists, forms and
/// pages are served by `get`, creation and deletion by `post`.
pub open spec fn html_route(acc: Seq<char>, r: RouteView) -> Seq<char> {
    match r.kind {
        RouteKind::List | RouteKind::NewForm | RouteKind::Show => acc + "        .route(\""@ + r.path
            + "\", get(handlers::"@ + r.handler_name + "))\n"@,
        RouteKind::Create | RouteKind::Delete => acc + "        .route(\""@ + r.path
            + "\", post(handlers::"@ + r.handler_name + "))\n"@,
    }
}

fn emit_html_route(out: &mut String, route: &Route)
    ensures
        final(out)@ == html_route(old(out)@, route@),
{
    match route.kind {
        RouteKind::List | RouteKind::NewForm | RouteKind::Show => {
            out.append("        .route(\"");
            out.append(route.path.as_str());
            out.append("\", get(handlers::");
            out.append(route.handler_name.as_str());
            out.append("))\n");
        },
        RouteKind::Create | RouteKind::Delete => {
            out.append("        .route(\"");
            out.append(route.path.as_str());
            out.append("\", post(handlers::");
            out.append(route.handler_name.as_str());
            out.append("))\n");
        },
    }
}

/// The JSON route of one route, where it has an API path and an API handler.
pub open spec fn api_route(acc: Seq<char>, r: RouteView) -> Seq<char> {
    match (r.api_path, r.api_handler_name) {
        (Some(path), Some(handler)) => acc + "        .route(\""@ + path + "\", "@ + (match r.method {
            HttpMethod::Get => "get"@,
            HttpMethod::Post => "post"@,
        }) + "(handlers::"@ + handler + "))\n"@,
        _ => acc,
    }
}

fn emit_api_route(out: &mut String, route: &Route)
    ensures
        final(out)@ == api_route(old(out)@, route@),
{
    if let Some(path) = &route.api_path {
        if let Some(handler) = &route.api_handler_name {
            out.append("        .route(\"");
            out.append(path.as_str());
            out.append("\", ");
            match route.method {
                HttpMethod::Get => {
                    out.append("get");
                },
                HttpMethod::Post => {
                    out.append("post");
                },
            }
            out.append("(handlers::");
            out.append(handler.as_str());
            out.append("))\n");
        }
    }
}

/// The HTML routes of the routes from `i` on.
pub open spec fn html_routes(acc: Seq<char>, items: Seq<RouteView>, i: int) -> Seq<char>
    decreases left(items.len(), i),
{
    if 0 <= i < items.len() {
        html_routes(html_route(acc, items[i]), items, i + 1)
    } else {
        acc
    }
}

fn emit_html_routes(out: &mut String, items: &Vec<Route>)
    ensures
        final(out)@ == html_routes(old(out)@, routes_view(items@), 0),
{
    broadcast use crate::scaffold::route_analysis::group_route_views;

    let ghost vs = routes_view(items@);
    let mut i: usize = 0;
    while i < items.len()
        invariant
            i <= items.len(),
            html_routes(out@, vs, i as int) == html_routes(old(out)@, vs, 0),
        decreases items.len() - i,
    {
        emit_html_route(out, &items[i]);
        i += 1;
    }
}

/// The JSON routes of the routes from `i` on.
pub open spec fn api_routes(acc: Seq<char>, items: Seq<RouteView>, i: int) -> Seq<char>
    decreases left(items.len(), i),
{
    if 0 <= i < items.len() {
        api_routes(api_route(acc, items[i]), items, i + 1)
    } else {
        acc
    }
}

fn emit_api_routes(out: &mut String, items: &Vec<Route>)
    ensures
        final(out)@ == api_routes(old(out)@, routes_view(items@), 0),
{
    broadcast use crate::scaffold::route_analysis::group_route_views;

    let ghost vs = routes_view(items@);
    let mut i: usize = 0;
    while i < items.len()
        invariant
            i <= items.len(),
            api_routes(out@, vs, i as int) == api_routes(old(out)@, vs, 0),
        decreases items.len() - i,
    {
        emit_api_route(out, &items[i]);
        i += 1;
    }
}

/// The main entry file: the application state with one in-memory store per
/// store type, the router with every route, and the server.
pub open spec fn main_file(acc: Seq<char>, t: RouteTableView) -> Seq<char> {
    let s = imports(acc);
    let s = store_uses(s, t.store_types, 0, t.module_name);
    let s = s + "\n"@ + "#[derive(Clone)]\n"@ + "pub struct AppState {\n"@;
    let s = state_fields(s, t.store_types, 0);
    let s = s + "}\n"@ + "\n"@ + "#[tokio::main]\n"@ + "async fn main() {\n"@ + "    let state = AppState {\n"@;
    let s = state_inits(s, t.store_types, 0);
    let s = s + "    };\n"@ + "\n"@ + "    let app = Router::new()\n"@ + "        // HTML routes\n"@;
    let s = root_route(s, t.routes);
    let s = html_routes(s, t.routes, 0);
    let s = s + "        // JSON API routes\n"@;
    let s = api_routes(s, t.routes, 0);
    let s = s + "        .with_state(state);\n"@ + "\n"@ + "    let listener = tokio::net::TcpListener::bind(\"0.0.0.0:3000\").await.unwrap();\n"@ + "    eprintln!(\""@ + title(t.module_name) + " listening on http://localhost:3000\");\n"@ + "    axum::serve(listener, app).await.unwrap();\n"@ + "}\n"@;
    s
}

fn emit_main_file(out: &mut String, table: &RouteTable)
    ensures
        final(out)@ == main_file(old(out)@, table@),
{
    let app_title = to_title(table.module_name.as_str());
    emit_imports(out);
    emit_store_uses(out, &table.store_types, table.module_name.as_str());
    out.append("\n");
    out.append("#[derive(Clone)]\n");
    out.append("pub struct AppState {\n");
    emit_state_fields(out, &table.store_types);
    out.append("}\n");
    out.append("\n");
    out.append("#[tokio::main]\n");
    out.append("async fn main() {\n");
    out.append("    let state = AppState {\n");
    emit_state_inits(out, &table.store_types);
    out.append("    };\n");
    out.append("\n");
    out.append("    let app = Router::new()\n");
    out.append("        // HTML routes\n");
    emit_root_route(out, &table.routes);
    emit_html_routes(out, &table.routes);
    out.append("        // JSON API routes\n");
    emit_api_routes(out, &table.routes);
    out.append("        .with_state(state);\n");
    out.append("\n");
    out.append("    let listener = tokio::net::TcpListener::bind(\"0.0.0.0:3000\").await.unwrap();\n");
    out.append("    eprintln!(\"");
    out.append(app_title.as_str());
    out.append(" listening on http://localhost:3000\");\n");
    out.append("    axum::serve(listener, app).await.unwrap();\n");
    out.append("}\n");
}
/// The main entry file of the web service for a route table.
pub open spec fn emit_spec(t: RouteTableView) -> Seq<char> {
    main_file(Seq::empty(), t)
}

/// Generates the main entry file of the web service.
pub fn emit(table: &RouteTable) -> (r: String)
    ensures
        r@ == emit_spec(table@),
{
    let mut out = String::new();
    emit_main_file(&mut out, table);
    out
}

} // verus!
