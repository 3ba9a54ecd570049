//! Emitter of the handlers file of the web service: one HTML handler per
//! route, and one JSON handler per route that has an API path.

use vstd::prelude::*;
use vstd::string::StringExecFns;
use crate::ast::{opt_str_view, strs_view};
use crate::names::{phrase, title, to_phrase, to_title};
use crate::scaffold::route_analysis::{RouteTable, RouteTableView, StoreInfo, StoreInfoView, Route,
    RouteView, RouteKind, HttpMethod, FormField, FormFieldView, FnRoute, FnRouteView, RouteVariant,
    RouteVariantView, PayloadKind, PayloadKindView, form_fields_view, pairs_view,
    route_variants_view, routes_view, store_infos_view};
use crate::text::{chars_of, dec, left, lower_text, owned, push_u64, str_eq, str_lower, string_from};

verus! {

broadcast use {crate::scaffold::route_analysis::group_route_views, crate::ast::group_ast_views};

/// The name of the field of the application state that holds a store.
pub open spec fn store_field(acc: Seq<char>, store_type: Seq<char>) -> Seq<char> {
    acc + lower_text(store_type) + "_store"@
}

fn emit_store_field(out: &mut String, store_type: &str)
    ensures
        final(out)@ == store_field(old(out)@, store_type@),
{
    let low = str_lower(store_type);
    out.append(low.as_str());
    out.append("_store");
}

/// The title of a store's type: its lowercase name in title case.
pub open spec fn type_title(store_type: Seq<char>) -> Seq<char> {
    title(lower_text(store_type))
}

fn type_title_of(store_type: &str) -> (r: String)
    ensures
        r@ == type_title(store_type@),
{
    let low = str_lower(store_type);
    to_title(low.as_str())
}

/// The plural of a store's type: its lowercase name followed by `s`.
pub open spec fn plural_name(store_type: Seq<char>) -> Seq<char> {
    lower_text(store_type) + "s"@
}

fn plural_name_of(store_type: &str) -> (r: String)
    ensures
        r@ == plural_name(store_type@),
{
    let mut low = str_lower(store_type);
    low.append("s");
    low
}

/// The index of the first character of `s` from `i` on that is no `/`.
pub open spec fn after_slashes(s: Seq<char>, i: int) -> int
    decreases left(s.len(), i),
{
    if 0 <= i < s.len() && s[i] == '/' {
        after_slashes(s, i + 1)
    } else {
        i
    }
}

/// A path without its leading slashes.
pub open spec fn path_plural(path: Seq<char>) -> Seq<char> {
    path.subrange(after_slashes(path, 0), path.len() as int)
}

fn strip_slashes(path: &str) -> (r: String)
    ensures
        r@ == path_plural(path@),
{
    let chars = chars_of(path);
    let mut i: usize = 0;
    while i < chars.len() && chars[i] == '/'
        invariant
            i <= chars.len(),
            after_slashes(chars@, i as int) == after_slashes(chars@, 0),
        decreases chars.len() - i,
    {
        i += 1;
    }
    string_from(&chars, i, chars.len())
}

/// The first route of kind `kind` for the store type `store_type` from `i` on.
pub open spec fn first_route(routes: Seq<RouteView>, kind: RouteKind, store_type: Seq<char>, i: int) -> Option<
    RouteView,
>
    decreases left(routes.len(), i),
{
    if 0 <= i < routes.len() {
        if routes[i].kind == kind && routes[i].store_type == store_type {
            Some(routes[i])
        } else {
            first_route(routes, kind, store_type, i + 1)
        }
    } else {
        None
    }
}

/// The names of the form fields from `i` on, appended to `acc`.
pub open spec fn field_names(fields: Seq<FormFieldView>, i: int, acc: Seq<Seq<char>>) -> Seq<Seq<char>>
    decreases left(fields.len(), i),
{
    if 0 <= i < fields.len() {
        field_names(fields, i + 1, acc.push(fields[i].name))
    } else {
        acc
    }
}

/// The fields that the list of a route's store shows: the form fields of
/// the store's new-form route, else those of its create route.
pub open spec fn display_fields(r: RouteView, routes: Seq<RouteView>) -> Seq<Seq<char>> {
    match first_route(routes, RouteKind::NewForm, r.store_type, 0) {
        Some(x) => field_names(x.form_fields, 0, Seq::empty()),
        None => match first_route(routes, RouteKind::Create, r.store_type, 0) {
            Some(x) => field_names(x.form_fields, 0, Seq::empty()),
            None => Seq::empty(),
        },
    }
}

fn same_kind(a: RouteKind, b: RouteKind) -> (r: bool)
    ensures
        r == (a == b),
{
    match (a, b) {
        (RouteKind::List, RouteKind::List) => true,
        (RouteKind::NewForm, RouteKind::NewForm) => true,
        (RouteKind::Create, RouteKind::Create) => true,
        (RouteKind::Show, RouteKind::Show) => true,
        (RouteKind::Delete, RouteKind::Delete) => true,
        _ => false,
    }
}

fn find_route<'a>(routes: &'a Vec<Route>, kind: RouteKind, store_type: &str) -> (r: Option<
    &'a Route,
>)
    ensures
        match r {
            Some(x) => first_route(routes_view(routes@), kind, store_type@, 0) == Some(x@),
            None => first_route(routes_view(routes@), kind, store_type@, 0).is_none(),
        },
{
    let ghost vs = routes_view(routes@);
    let mut i: usize = 0;
    while i < routes.len()
        invariant
            i <= routes.len(),
            first_route(vs, kind, store_type@, i as int) == first_route(vs, kind, store_type@, 0),
        decreases routes.len() - i,
    {
        if same_kind(routes[i].kind, kind) && str_eq(routes[i].store_type.as_str(), store_type) {
            return Some(&routes[i]);
        }
        i += 1;
    }
    None
}

fn names_of(fields: &Vec<FormField>) -> (r: Vec<String>)
    ensures
        strs_view(r@) == field_names(form_fields_view(fields@), 0, Seq::empty()),
{
    let ghost vs = form_fields_view(fields@);
    let mut out: Vec<String> = Vec::new();
    let mut i: usize = 0;
    while i < fields.len()
        invariant
            i <= fields.len(),
            field_names(vs, i as int, strs_view(out@)) == field_names(vs, 0, Seq::empty()),
        decreases fields.len() - i,
    {
        out.push(fields[i].name.clone());
        i += 1;
    }
    out
}

fn get_display_fields(route: &Route, table: &RouteTable) -> (r: Vec<String>)
    ensures
        strs_view(r@) == display_fields(route@, table@.routes),
{
    match find_route(&table.routes, RouteKind::NewForm, route.store_type.as_str()) {
        Some(x) => names_of(&x.form_fields),
        None => match find_route(&table.routes, RouteKind::Create, route.store_type.as_str()) {
            Some(x) => names_of(&x.form_fields),
            None => Vec::new(),
        },
    }
}

/// The entries of an HTML form for the form fields from `i` on, each as
/// `("name", "label", "type")`, separated by `, `.
pub open spec fn field_entries(acc: Seq<char>, fields: Seq<FormFieldView>, i: int) -> Seq<char>
    decreases left(fields.len(), i),
{
    if 0 <= i < fields.len() {
        let sep = if i > 0 {
            acc + ", "@
        } else {
            acc
        };
        field_entries(
            sep + "(\""@ + fields[i].name + "\", \""@ + fields[i].label + "\", \""@
                + fields[i].input_type + "\")"@,
            fields,
            i + 1,
        )
    } else {
        acc
    }
}

fn emit_field_entries(out: &mut String, fields: &Vec<FormField>)
    ensures
        final(out)@ == field_entries(old(out)@, form_fields_view(fields@), 0),
{
    let ghost vs = form_fields_view(fields@);
    let mut i: usize = 0;
    while i < fields.len()
        invariant
            i <= fields.len(),
            field_entries(out@, vs, i as int) == field_entries(old(out)@, vs, 0),
        decreases fields.len() - i,
    {
        if i > 0 {
            out.append(", ");
        }
        out.append("(\"");
        out.append(fields[i].name.as_str());
        out.append("\", \"");
        out.append(fields[i].label.as_str());
        out.append("\", \"");
        out.append(fields[i].input_type.as_str());
        out.append("\")");
        i += 1;
    }
}

/// The tag of a variant; `error` where it has none.
pub open spec fn tag_of(v: RouteVariantView) -> Seq<char> {
    match v.tag {
        Some(t) => t,
        None => "error"@,
    }
}

fn tag_text(variant: &RouteVariant) -> (r: &str)
    ensures
        r@ == tag_of(variant@),
{
    match &variant.tag {
        Some(t) => t.as_str(),
        None => "error",
    }
}

/// The names of the payload fields from `i` on, separated by `, `.
pub open spec fn payload_names(acc: Seq<char>, fields: Seq<(Seq<char>, Seq<char>)>, i: int) -> Seq<
    char,
>
    decreases left(fields.len(), i),
{
    if 0 <= i < fields.len() {
        let sep = if i > 0 {
            acc + ", "@
        } else {
            acc
        };
        payload_names(sep + fields[i].0, fields, i + 1)
    } else {
        acc
    }
}

/// The pattern that matches a variant of the result enum and binds its payload.
pub open spec fn variant_pattern(acc: Seq<char>, result_enum: Seq<char>, v: RouteVariantView) -> Seq<
    char,
> {
    let s = acc + result_enum + "::"@ + v.variant_name;
    match v.payload_kind {
        PayloadKindView::Mapping(fields) => payload_names(s + " { "@, fields, 0) + " }"@,
        PayloadKindView::List(_) => s + "(errors)"@,
        PayloadKindView::Type(_) => s + "(v)"@,
        PayloadKindView::Unit => s,
    }
}

fn emit_variant_pattern(out: &mut String, result_enum: &str, variant: &RouteVariant)
    ensures
        final(out)@ == variant_pattern(old(out)@, result_enum@, variant@),
{
    out.append(result_enum);
    out.append("::");
    out.append(variant.variant_name.as_str());
    match &variant.payload_kind {
        PayloadKind::Mapping(fields) => {
            out.append(" { ");
            let ghost vs = pairs_view(fields@);
            let ghost start = out@;
            let mut i: usize = 0;
            while i < fields.len()
                invariant
                    i <= fields.len(),
                    payload_names(out@, vs, i as int) == payload_names(start, vs, 0),
                decreases fields.len() - i,
            {
                if i > 0 {
                    out.append(", ");
                }
                out.append(fields[i].0.as_str());
                i += 1;
            }
            out.append(" }");
        },
        PayloadKind::List(_) => {
            out.append("(errors)");
        },
        PayloadKind::Type(_) => {
            out.append("(v)");
        },
        PayloadKind::Unit => {},
    }
}

/// The expression that gives the message of an error variant.
pub open spec fn variant_error_msg(acc: Seq<char>, v: RouteVariantView) -> Seq<char> {
    match v.payload_kind {
        PayloadKindView::Mapping(fields) => if fields.len() == 1 {
            acc + "format!(\""@ + phrase(tag_of(v)) + ": {}\", "@ + fields[0].0 + ")"@
        } else {
            acc + "\""@ + phrase(tag_of(v)) + "\".to_string()"@
        },
        PayloadKindView::List(_) => acc
            + "errors.iter().map(|e| format!(\"{}: {}\", e.field, e.message)).collect::<Vec<_>>().join(\", \")"@,
        _ => acc + "\""@ + phrase(tag_of(v)) + "\".to_string()"@,
    }
}

fn emit_variant_error_msg(out: &mut String, variant: &RouteVariant)
    ensures
        final(out)@ == variant_error_msg(old(out)@, variant@),
{
    let message = to_phrase(tag_text(variant));
    match &variant.payload_kind {
        PayloadKind::Mapping(fields) => {
            if fields.len() == 1 {
                out.append("format!(\"");
                out.append(message.as_str());
                out.append(": {}\", ");
                out.append(fields[0].0.as_str());
                out.append(")");
            } else {
                out.append("\"");
                out.append(message.as_str());
                out.append("\".to_string()");
            }
        },
        PayloadKind::List(_) => {
            out.append(
                "errors.iter().map(|e| format!(\"{}: {}\", e.field, e.message)).collect::<Vec<_>>().join(\", \")",
            );
        },
        _ => {
            out.append("\"");
            out.append(message.as_str());
            out.append("\".to_string()");
        },
    }
}

/// The expression that gives the detail of an error variant.
pub open spec fn variant_error_detail(acc: Seq<char>, v: RouteVariantView) -> Seq<char> {
    match v.payload_kind {
        PayloadKindView::Mapping(fields) => if fields.len() == 1 {
            acc + "format!(\"{}\", "@ + fields[0].0 + ")"@
        } else {
            acc + "\""@ + phrase(tag_of(v)) + "\""@
        },
        _ => acc + "\""@ + phrase(tag_of(v)) + "\""@,
    }
}

fn emit_variant_error_detail(out: &mut String, variant: &RouteVariant)
    ensures
        final(out)@ == variant_error_detail(old(out)@, variant@),
{
    let single: Option<&str> = match &variant.payload_kind {
        PayloadKind::Mapping(fields) => {
            if fields.len() == 1 {
                Some(fields[0].0.as_str())
            } else {
                None
            }
        },
        _ => None,
    };
    match single {
        Some(name) => {
            out.append("format!(\"{}\", ");
            out.append(name);
            out.append(")");
        },
        None => {
            let message = to_phrase(tag_text(variant));
            out.append("\"");
            out.append(message.as_str());
            out.append("\"");
        },
    }
}

/// The JSON entries of the payload fields from `i` on.
pub open spec fn json_entries(acc: Seq<char>, fields: Seq<(Seq<char>, Seq<char>)>, i: int) -> Seq<
    char,
>
    decreases left(fields.len(), i),
{
    if 0 <= i < fields.len() {
        json_entries(acc + ", "@ + "\""@ + fields[i].0 + "\": "@ + fields[i].0, fields, i + 1)
    } else {
        acc
    }
}

/// The JSON body of the response for an error variant.
pub open spec fn variant_json_body(acc: Seq<char>, v: RouteVariantView) -> Seq<char> {
    match v.payload_kind {
        PayloadKindView::Mapping(fields) => json_entries(
            acc + "serde_json::json!({ "@ + "\"error\": \""@ + tag_of(v) + "\""@,
            fields,
            0,
        ) + " })"@,
        PayloadKindView::List(_) => acc + "serde_json::json!({ \"error\": \""@ + tag_of(v)
            + "\", \"errors\": errors })"@,
        _ => acc + "serde_json::json!({ \"error\": \""@ + tag_of(v) + "\" })"@,
    }
}

fn emit_variant_json_body(out: &mut String, variant: &RouteVariant)
    ensures
        final(out)@ == variant_json_body(old(out)@, variant@),
{
    let tag = tag_text(variant);
    match &variant.payload_kind {
        PayloadKind::Mapping(fields) => {
            out.append("serde_json::json!({ ");
            out.append("\"error\": \"");
            out.append(tag);
            out.append("\"");
            let ghost vs = pairs_view(fields@);
            let ghost start = out@;
            let mut i: usize = 0;
            while i < fields.len()
                invariant
                    i <= fields.len(),
                    json_entries(out@, vs, i as int) == json_entries(start, vs, 0),
                decreases fields.len() - i,
            {
                out.append(", ");
                out.append("\"");
                out.append(fields[i].0.as_str());
                out.append("\": ");
                out.append(fields[i].0.as_str());
                i += 1;
            }
            out.append(" })");
        },
        PayloadKind::List(_) => {
            out.append("serde_json::json!({ \"error\": \"");
            out.append(tag);
            out.append("\", \"errors\": errors })");
        },
        _ => {
            out.append("serde_json::json!({ \"error\": \"");
            out.append(tag);
            out.append("\" })");
        },
    }
}

/// The status constant of the web framework for an HTTP status.
pub open spec fn axum_status(acc: Seq<char>, status: u16) -> Seq<char> {
    if status == 200 {
        acc + "StatusCode::OK"@
    } else if status == 201 {
        acc + "StatusCode::CREATED"@
    } else if status == 400 {
        acc + "StatusCode::BAD_REQUEST"@
    } else if status == 404 {
        acc + "StatusCode::NOT_FOUND"@
    } else if status == 409 {
        acc + "StatusCode::CONFLICT"@
    } else if status == 422 {
        acc + "StatusCode::UNPROCESSABLE_ENTITY"@
    } else if status == 500 {
        acc + "StatusCode::INTERNAL_SERVER_ERROR"@
    } else {
        acc + "StatusCode::from_u16("@ + dec(status as nat) + ").unwrap()"@
    }
}

fn emit_axum_status(out: &mut String, status: u16)
    ensures
        final(out)@ == axum_status(old(out)@, status),
{
    if status == 200 {
        out.append("StatusCode::OK");
    } else if status == 201 {
        out.append("StatusCode::CREATED");
    } else if status == 400 {
        out.append("StatusCode::BAD_REQUEST");
    } else if status == 404 {
        out.append("StatusCode::NOT_FOUND");
    } else if status == 409 {
        out.append("StatusCode::CONFLICT");
    } else if status == 422 {
        out.append("StatusCode::UNPROCESSABLE_ENTITY");
    } else if status == 500 {
        out.append("StatusCode::INTERNAL_SERVER_ERROR");
    } else {
        out.append("StatusCode::from_u16(");
        push_u64(out, status as u64);
        out.append(").unwrap()");
    }
}

/// The imports of the handlers file.
pub open spec fn imports(acc: Seq<char>, t: RouteTableView) -> Seq<char> {
    let s = acc + "use axum::extract::{Path, State};"@ + "\n"@ + "use axum::http::StatusCode;"@ + "\n"@ + "use axum::response::{Html, IntoResponse, Redirect};"@ + "\n"@ + "use axum::Form;"@ + "\n"@ + "use serde::Deserialize;"@ + "\n"@ + "\n"@ + "use crate::html::{html_alert, html_form, html_page, html_table};"@ + "\n"@ + "use crate::AppState;"@ + "\n"@ + "use crate::generated::"@ + t.module_name + "::*;"@ + "\n"@ + "use pact_runtime::prelude::*;"@ + "\n"@;
    s
}

fn emit_imports(out: &mut String, table: &RouteTable)
    ensures
        final(out)@ == imports(old(out)@, table@),
{
    out.append("use axum::extract::{Path, State};");
    out.append("\n");
    out.append("use axum::http::StatusCode;");
    out.append("\n");
    out.append("use axum::response::{Html, IntoResponse, Redirect};");
    out.append("\n");
    out.append("use axum::Form;");
    out.append("\n");
    out.append("use serde::Deserialize;");
    out.append("\n");
    out.append("\n");
    out.append("use crate::html::{html_alert, html_form, html_page, html_table};");
    out.append("\n");
    out.append("use crate::AppState;");
    out.append("\n");
    out.append("use crate::generated::");
    out.append(table.module_name.as_str());
    out.append("::*;");
    out.append("\n");
    out.append("use pact_runtime::prelude::*;");
    out.append("\n");
}
/// The member of a form record for one form field.
pub open spec fn form_member(acc: Seq<char>, f: FormFieldView) -> Seq<char> {
    let s = acc + "    "@ + "pub "@ + f.name + ": String,"@ + "\n"@;
    s
}

fn emit_form_member(out: &mut String, field: &FormField)
    ensures
        final(out)@ == form_member(old(out)@, field@),
{
    out.append("    ");
    out.append("pub ");
    out.append(field.name.as_str());
    out.append(": String,");
    out.append("\n");
}
/// The members of a form record for the form fields from `i` on.
pub open spec fn form_members(acc: Seq<char>, items: Seq<FormFieldView>, i: int) -> Seq<char>
    decreases left(items.len(), i),
{
    if 0 <= i < items.len() {
        form_members(form_member(acc, items[i]), items, i + 1)
    } else {
        acc
    }
}

fn emit_form_members(out: &mut String, items: &Vec<FormField>)
    ensures
        final(out)@ == form_members(old(out)@, form_fields_view(items@), 0),
{
    broadcast use crate::scaffold::route_analysis::group_route_views;

    let ghost vs = form_fields_view(items@);
    let mut i: usize = 0;
    while i < items.len()
        invariant
            i <= items.len(),
            form_members(out@, vs, i as int) == form_members(old(out)@, vs, 0),
        decreases items.len() - i,
    {
        emit_form_member(out, &items[i]);
        i += 1;
    }
}

/// The record that receives the form of a create route.
pub open spec fn form_struct(acc: Seq<char>, r: RouteView) -> Seq<char> {
    let s = acc + "#[derive(Deserialize)]"@ + "\n"@ + "pub struct "@ + "Create"@ + r.store_type + "Form"@ + " {"@ + "\n"@;
    let s = form_members(s, r.form_fields, 0);
    let s = s + "}"@ + "\n"@;
    s
}

fn emit_form_struct(out: &mut String, route: &Route)
    ensures
        final(out)@ == form_struct(old(out)@, route@),
{
    out.append("#[derive(Deserialize)]");
    out.append("\n");
    out.append("pub struct ");
    out.append("Create");
    out.append(route.store_type.as_str());
    out.append("Form");
    out.append(" {");
    out.append("\n");
    emit_form_members(out, &route.form_fields);
    out.append("}");
    out.append("\n");
}
/// The table cell for one display field.
pub open spec fn row_cell(acc: Seq<char>, field: Seq<char>) -> Seq<char> {
    let s = acc + "                "@ + "item."@ + field + ".clone(),"@ + "\n"@;
    s
}

fn emit_row_cell(out: &mut String, field: &String)
    ensures
        final(out)@ == row_cell(old(out)@, field@),
{
    out.append("                ");
    out.append("item.");
    out.append(field.as_str());
    out.append(".clone(),");
    out.append("\n");
}
/// The table header for one display field.
pub open spec fn header_cell(acc: Seq<char>, field: Seq<char>) -> Seq<char> {
    let s = acc + ", \""@ + title(field) + "\""@;
    s
}

fn emit_header_cell(out: &mut String, field: &String)
    ensures
        final(out)@ == header_cell(old(out)@, field@),
{
    let t = to_title(field.as_str());
    out.append(", \"");
    out.append(t.as_str());
    out.append("\"");
}
/// The table cells for the display fields from `i` on.
pub open spec fn row_cells(acc: Seq<char>, fields: Seq<Seq<char>>, i: int) -> Seq<char>
    decreases left(fields.len(), i),
{
    if 0 <= i < fields.len() {
        row_cells(row_cell(acc, fields[i]), fields, i + 1)
    } else {
        acc
    }
}

fn emit_row_cells(out: &mut String, fields: &Vec<String>)
    ensures
        final(out)@ == row_cells(old(out)@, strs_view(fields@), 0),
{
    let ghost vs = strs_view(fields@);
    let mut i: usize = 0;
    while i < fields.len()
        invariant
            i <= fields.len(),
            row_cells(out@, vs, i as int) == row_cells(old(out)@, vs, 0),
        decreases fields.len() - i,
    {
        emit_row_cell(out, &fields[i]);
        i += 1;
    }
}

/// The table headers for the display fields from `i` on.
pub open spec fn header_cells(acc: Seq<char>, fields: Seq<Seq<char>>, i: int) -> Seq<char>
    decreases left(fields.len(), i),
{
    if 0 <= i < fields.len() {
        header_cells(header_cell(acc, fields[i]), fields, i + 1)
    } else {
        acc
    }
}

fn emit_header_cells(out: &mut String, fields: &Vec<String>)
    ensures
        final(out)@ == header_cells(old(out)@, strs_view(fields@), 0),
{
    let ghost vs = strs_view(fields@);
    let mut i: usize = 0;
    while i < fields.len()
        invariant
            i <= fields.len(),
            header_cells(out@, vs, i as int) == header_cells(old(out)@, vs, 0),
        decreases fields.len() - i,
    {
        emit_header_cell(out, &fields[i]);
        i += 1;
    }
}

/// The handler that lists the items of a store in a table.
pub open spec fn list_handler(acc: Seq<char>, r: RouteView, t: RouteTableView) -> Seq<char> {
    let s = acc + "pub async fn "@ + r.handler_name + "(State(state): State<AppState>) -> Html<String> {"@ + "\n"@ + "    "@ + "let store = state."@;
    let s = store_field(s, r.store_type);
    let s = s + ".lock().unwrap();"@ + "\n"@ + "    "@ + "let items = store.list_all();"@ + "\n"@ + "\n"@ + "    "@ + "let rows: Vec<Vec<String>> = items"@ + "\n"@ + "        "@ + ".iter()"@ + "\n"@ + "        "@ + ".map(|item| {"@ + "\n"@ + "            "@ + "vec!["@ + "\n"@ + "                "@ + "format!(r#\"<a href=\"/"@ + path_plural(r.path) + "/{}\" class=\"text-indigo-600 hover:text-indigo-800\">{}</a>\"#, item.id, &item.id.to_string()[..8]),"@ + "\n"@;
    let s = row_cells(s, display_fields(r, t.routes), 0);
    let s = s + "                "@ + "format!(r#\"<form method=\"POST\" action=\"/"@ + path_plural(r.path) + "/{}/delete\" class=\"inline\"><button type=\"submit\" class=\"text-red-600 hover:text-red-800 text-sm\">Delete</button></form>\"#, item.id),"@ + "\n"@ + "            "@ + "]"@ + "\n"@ + "        "@ + "})"@ + "\n"@ + "        "@ + ".collect();"@ + "\n"@ + "\n"@ + "    "@ + "let body = if items.is_empty() {"@ + "\n"@ + "        "@ + "format!(r#\"<h1 class=\"text-2xl font-bold mb-6\">"@ + title(path_plural(r.path)) + "</h1><p class=\"text-gray-500\">No "@ + path_plural(r.path) + " yet. <a href=\"/"@ + path_plural(r.path) + "/new\" class=\"text-indigo-600 hover:underline\">Create one</a>.</p>\"#)"@ + "\n"@ + "    "@ + "} else {"@ + "\n"@ + "        "@ + "format!(r#\"<h1 class=\"text-2xl font-bold mb-6\">"@ + title(path_plural(r.path)) + " ({})</h1>{}\"#, items.len(), html_table(&["@ + "\"ID\""@;
    let s = header_cells(s, display_fields(r, t.routes), 0);
    let s = s + ", \"Actions\""@ + "], &rows))"@ + "\n"@ + "    "@ + "};"@ + "\n"@ + "\n"@ + "    "@ + "Html(html_page(\""@ + title(path_plural(r.path)) + "\", &body))"@ + "\n"@ + "}"@ + "\n"@;
    s
}

fn emit_list_handler(out: &mut String, route: &Route, table: &RouteTable)
    ensures
        final(out)@ == list_handler(old(out)@, route@, table@),
{
    let plural = strip_slashes(route.path.as_str());
    let page = to_title(plural.as_str());
    let display = get_display_fields(route, table);
    out.append("pub async fn ");
    out.append(route.handler_name.as_str());
    out.append("(State(state): State<AppState>) -> Html<String> {");
    out.append("\n");
    out.append("    ");
    out.append("let store = state.");
    emit_store_field(out, route.store_type.as_str());
    out.append(".lock().unwrap();");
    out.append("\n");
    out.append("    ");
    out.append("let items = store.list_all();");
    out.append("\n");
    out.append("\n");
    out.append("    ");
    out.append("let rows: Vec<Vec<String>> = items");
    out.append("\n");
    out.append("        ");
    out.append(".iter()");
    out.append("\n");
    out.append("        ");
    out.append(".map(|item| {");
    out.append("\n");
    out.append("            ");
    out.append("vec![");
    out.append("\n");
    out.append("                ");
    out.append("format!(r#\"<a href=\"/");
    out.append(plural.as_str());
    out.append("/{}\" class=\"text-indigo-600 hover:text-indigo-800\">{}</a>\"#, item.id, &item.id.to_string()[..8]),");
    out.append("\n");
    emit_row_cells(out, &display);
    out.append("                ");
    out.append("format!(r#\"<form method=\"POST\" action=\"/");
    out.append(plural.as_str());
    out.append("/{}/delete\" class=\"inline\"><button type=\"submit\" class=\"text-red-600 hover:text-red-800 text-sm\">Delete</button></form>\"#, item.id),");
    out.append("\n");
    out.append("            ");
    out.append("]");
    out.append("\n");
    out.append("        ");
    out.append("})");
    out.append("\n");
    out.append("        ");
    out.append(".collect();");
    out.append("\n");
    out.append("\n");
    out.append("    ");
    out.append("let body = if items.is_empty() {");
    out.append("\n");
    out.append("        ");
    out.append("format!(r#\"<h1 class=\"text-2xl font-bold mb-6\">");
    out.append(page.as_str());
    out.append("</h1><p class=\"text-gray-500\">No ");
    out.append(plural.as_str());
    out.append(" yet. <a href=\"/");
    out.append(plural.as_str());
    out.append("/new\" class=\"text-indigo-600 hover:underline\">Create one</a>.</p>\"#)");
    out.append("\n");
    out.append("    ");
    out.append("} else {");
    out.append("\n");
    out.append("        ");
    out.append("format!(r#\"<h1 class=\"text-2xl font-bold mb-6\">");
    out.append(page.as_str());
    out.append(" ({})</h1>{}\"#, items.len(), html_table(&[");
    out.append("\"ID\"");
    emit_header_cells(out, &display);
    out.append(", \"Actions\"");
    out.append("], &rows))");
    out.append("\n");
    out.append("    ");
    out.append("};");
    out.append("\n");
    out.append("\n");
    out.append("    ");
    out.append("Html(html_page(\"");
    out.append(page.as_str());
    out.append("\", &body))");
    out.append("\n");
    out.append("}");
    out.append("\n");
}
/// The handler that shows the form for a new item.
pub open spec fn new_form_handler(acc: Seq<char>, r: RouteView) -> Seq<char> {
    let s = acc + "pub async fn "@ + r.handler_name + "() -> Html<String> {"@ + "\n"@ + "    "@ + "let body = format!(r#\"<h1 class=\"text-2xl font-bold mb-6\">Create "@ + type_title(r.store_type) + "</h1>{}\"#, html_form(\"/"@ + plural_name(r.store_type) + "\", &["@;
    let s = field_entries(s, r.form_fields, 0);
    let s = s + "]));"@ + "\n"@ + "    "@ + "Html(html_page(\"New "@ + type_title(r.store_type) + "\", &body))"@ + "\n"@ + "}"@ + "\n"@;
    s
}

fn emit_new_form_handler(out: &mut String, route: &Route)
    ensures
        final(out)@ == new_form_handler(old(out)@, route@),
{
    let tt = type_title_of(route.store_type.as_str());
    let pl = plural_name_of(route.store_type.as_str());
    let sg = str_lower(route.store_type.as_str());
    out.append("pub async fn ");
    out.append(route.handler_name.as_str());
    out.append("() -> Html<String> {");
    out.append("\n");
    out.append("    ");
    out.append("let body = format!(r#\"<h1 class=\"text-2xl font-bold mb-6\">Create ");
    out.append(tt.as_str());
    out.append("</h1>{}\"#, html_form(\"/");
    out.append(pl.as_str());
    out.append("\", &[");
    emit_field_entries(out, &route.form_fields);
    out.append("]));");
    out.append("\n");
    out.append("    ");
    out.append("Html(html_page(\"New ");
    out.append(tt.as_str());
    out.append("\", &body))");
    out.append("\n");
    out.append("}");
    out.append("\n");
}
/// The initializer of one field of the input record from the form.
pub open spec fn input_member(acc: Seq<char>, f: FormFieldView) -> Seq<char> {
    let s = acc + "        "@ + f.name + ": form."@ + f.name + ","@ + "\n"@;
    s
}

fn emit_input_member(out: &mut String, field: &FormField)
    ensures
        final(out)@ == input_member(old(out)@, field@),
{
    out.append("        ");
    out.append(field.name.as_str());
    out.append(": form.");
    out.append(field.name.as_str());
    out.append(",");
    out.append("\n");
}
/// The initializers of the input record for the form fields from `i` on.
pub open spec fn input_members(acc: Seq<char>, items: Seq<FormFieldView>, i: int) -> Seq<char>
    decreases left(items.len(), i),
{
    if 0 <= i < items.len() {
        input_members(input_member(acc, items[i]), items, i + 1)
    } else {
        acc
    }
}

fn emit_input_members(out: &mut String, items: &Vec<FormField>)
    ensures
        final(out)@ == input_members(old(out)@, form_fields_view(items@), 0),
{
    broadcast use crate::scaffold::route_analysis::group_route_views;

    let ghost vs = form_fields_view(items@);
    let mut i: usize = 0;
    while i < items.len()
        invariant
            i <= items.len(),
            input_members(out@, vs, i as int) == input_members(old(out)@, vs, 0),
        decreases items.len() - i,
    {
        emit_input_member(out, &items[i]);
        i += 1;
    }
}

/// The arm of the create handler for a success that carries an item.
pub open spec fn create_ok_typed(acc: Seq<char>, v: RouteVariantView, r: RouteView, f: FnRouteView, item: Seq<char>) -> Seq<char> {
    let s = acc + "        "@ + f.result_enum + "::Ok("@ + item + ") => {"@ + "\n"@ + "            "@ + "Redirect::to(&format!(\"/"@ + plural_name(r.store_type) + "/{}?created=1\", "@ + item + ".id)).into_response()"@ + "\n"@ + "        "@ + "}"@ + "\n"@;
    s
}

fn emit_create_ok_typed(out: &mut String, variant: &RouteVariant, route: &Route, func: &FnRoute, item: &str)
    ensures
        final(out)@ == create_ok_typed(old(out)@, variant@, route@, func@, item@),
{
    let tt = type_title_of(route.store_type.as_str());
    let pl = plural_name_of(route.store_type.as_str());
    let sg = str_lower(route.store_type.as_str());
    out.append("        ");
    out.append(func.result_enum.as_str());
    out.append("::Ok(");
    out.append(item);
    out.append(") => {");
    out.append("\n");
    out.append("            ");
    out.append("Redirect::to(&format!(\"/");
    out.append(pl.as_str());
    out.append("/{}?created=1\", ");
    out.append(item);
    out.append(".id)).into_response()");
    out.append("\n");
    out.append("        ");
    out.append("}");
    out.append("\n");
}
/// The arm of the create handler for a success without an item.
pub open spec fn create_ok_plain(acc: Seq<char>, v: RouteVariantView, r: RouteView, f: FnRouteView) -> Seq<char> {
    let s = acc + "        "@ + f.result_enum + "::Ok(_) => {"@ + "\n"@ + "            "@ + "Redirect::to(\"/"@ + plural_name(r.store_type) + "\").into_response()"@ + "\n"@ + "        "@ + "}"@ + "\n"@;
    s
}

fn emit_create_ok_plain(out: &mut String, variant: &RouteVariant, route: &Route, func: &FnRoute)
    ensures
        final(out)@ == create_ok_plain(old(out)@, variant@, route@, func@),
{
    let tt = type_title_of(route.store_type.as_str());
    let pl = plural_name_of(route.store_type.as_str());
    let sg = str_lower(route.store_type.as_str());
    out.append("        ");
    out.append(func.result_enum.as_str());
    out.append("::Ok(_) => {");
    out.append("\n");
    out.append("            ");
    out.append("Redirect::to(\"/");
    out.append(pl.as_str());
    out.append("\").into_response()");
    out.append("\n");
    out.append("        ");
    out.append("}");
    out.append("\n");
}
/// The arm of the create handler for an error.
pub open spec fn create_err(acc: Seq<char>, v: RouteVariantView, r: RouteView, f: FnRouteView) -> Seq<char> {
    let s = acc + "        "@;
    let s = variant_pattern(s, f.result_enum, v);
    let s = s + " => {"@ + "\n"@ + "            "@ + "let body = format!(r#\"<h1 class=\"text-2xl font-bold mb-6\">Create "@ + type_title(r.store_type) + "</h1>{}\n{}\"#, html_alert(\"error\", &"@;
    let s = variant_error_msg(s, v);
    let s = s + "), html_form(\"/"@ + plural_name(r.store_type) + "\", &["@;
    let s = field_entries(s, r.form_fields, 0);
    let s = s + "]));"@ + "\n"@ + "            "@ + "Html(html_page(\"New "@ + type_title(r.store_type) + "\", &body)).into_response()"@ + "\n"@ + "        "@ + "}"@ + "\n"@;
    s
}

fn emit_create_err(out: &mut String, variant: &RouteVariant, route: &Route, func: &FnRoute)
    ensures
        final(out)@ == create_err(old(out)@, variant@, route@, func@),
{
    let tt = type_title_of(route.store_type.as_str());
    let pl = plural_name_of(route.store_type.as_str());
    let sg = str_lower(route.store_type.as_str());
    out.append("        ");
    emit_variant_pattern(out, func.result_enum.as_str(), variant);
    out.append(" => {");
    out.append("\n");
    out.append("            ");
    out.append("let body = format!(r#\"<h1 class=\"text-2xl font-bold mb-6\">Create ");
    out.append(tt.as_str());
    out.append("</h1>{}\n{}\"#, html_alert(\"error\", &");
    emit_variant_error_msg(out, variant);
    out.append("), html_form(\"/");
    out.append(pl.as_str());
    out.append("\", &[");
    emit_field_entries(out, &route.form_fields);
    out.append("]));");
    out.append("\n");
    out.append("            ");
    out.append("Html(html_page(\"New ");
    out.append(tt.as_str());
    out.append("\", &body)).into_response()");
    out.append("\n");
    out.append("        ");
    out.append("}");
    out.append("\n");
}
/// The arm of the create handler for one variant.
pub open spec fn create_arm(acc: Seq<char>, v: RouteVariantView, r: RouteView, f: FnRouteView) -> Seq<
    char,
> {
    if v.is_ok {
        match v.payload_kind {
            PayloadKindView::Type(name) => create_ok_typed(acc, v, r, f, lower_text(name)),
            _ => create_ok_plain(acc, v, r, f),
        }
    } else {
        create_err(acc, v, r, f)
    }
}

fn emit_create_arm(out: &mut String, variant: &RouteVariant, route: &Route, func: &FnRoute)
    ensures
        final(out)@ == create_arm(old(out)@, variant@, route@, func@),
{
    if variant.is_ok {
        match &variant.payload_kind {
            PayloadKind::Type(name) => {
                let item = str_lower(name.as_str());
                emit_create_ok_typed(out, variant, route, func, item.as_str());
            },
            _ => {
                emit_create_ok_plain(out, variant, route, func);
            },
        }
    } else {
        emit_create_err(out, variant, route, func);
    }
}

/// The arms of the create handler for the variants from `i` on.
pub open spec fn create_arms(acc: Seq<char>, vs: Seq<RouteVariantView>, i: int, r: RouteView, f: FnRouteView) -> Seq<
    char,
>
    decreases left(vs.len(), i),
{
    if 0 <= i < vs.len() {
        create_arms(create_arm(acc, vs[i], r, f), vs, i + 1, r, f)
    } else {
        acc
    }
}

fn emit_create_arms(out: &mut String, route: &Route, func: &FnRoute)
    ensures
        final(out)@ == create_arms(old(out)@, func@.variants, 0, route@, func@),
{
    let ghost vs = func@.variants;
    let mut i: usize = 0;
    while i < func.variants.len()
        invariant
            i <= func.variants.len(),
            create_arms(out@, vs, i as int, route@, func@) == create_arms(old(out)@, vs, 0, route@, func@),
        decreases func.variants.len() - i,
    {
        emit_create_arm(out, &func.variants[i], route, func);
        i += 1;
    }
}

/// The create handler of a route with the function `f` and the input record `input`.
pub open spec fn create_body(acc: Seq<char>, r: RouteView, f: FnRouteView, input: Seq<char>) -> Seq<char> {
    let s = acc + "pub async fn "@ + r.handler_name + "("@ + "\n"@ + "    "@ + "State(state): State<AppState>,"@ + "\n"@ + "    "@ + "Form(form): Form<"@ + "Create"@ + r.store_type + "Form"@ + ">,"@ + "\n"@ + ") -> impl IntoResponse {"@ + "\n"@ + "    "@ + "let input = "@ + input + " {"@ + "\n"@;
    let s = input_members(s, r.form_fields, 0);
    let s = s + "    "@ + "};"@ + "\n"@ + "\n"@ + "    "@ + "let mut store = state."@;
    let s = store_field(s, r.store_type);
    let s = s + ".lock().unwrap();"@ + "\n"@ + "    "@ + "let result = "@ + f.fn_name + "(&mut *store, input);"@ + "\n"@ + "\n"@ + "    "@ + "match result {"@ + "\n"@;
    let s = create_arms(s, f.variants, 0, r, f);
    let s = s + "    "@ + "}"@ + "\n"@ + "}"@ + "\n"@;
    s
}

fn emit_create_body(out: &mut String, route: &Route, func: &FnRoute, input: &str)
    ensures
        final(out)@ == create_body(old(out)@, route@, func@, input@),
{
    out.append("pub async fn ");
    out.append(route.handler_name.as_str());
    out.append("(");
    out.append("\n");
    out.append("    ");
    out.append("State(state): State<AppState>,");
    out.append("\n");
    out.append("    ");
    out.append("Form(form): Form<");
    out.append("Create");
    out.append(route.store_type.as_str());
    out.append("Form");
    out.append(">,");
    out.append("\n");
    out.append(") -> impl IntoResponse {");
    out.append("\n");
    out.append("    ");
    out.append("let input = ");
    out.append(input);
    out.append(" {");
    out.append("\n");
    emit_input_members(out, &route.form_fields);
    out.append("    ");
    out.append("};");
    out.append("\n");
    out.append("\n");
    out.append("    ");
    out.append("let mut store = state.");
    emit_store_field(out, route.store_type.as_str());
    out.append(".lock().unwrap();");
    out.append("\n");
    out.append("    ");
    out.append("let result = ");
    out.append(func.fn_name.as_str());
    out.append("(&mut *store, input);");
    out.append("\n");
    out.append("\n");
    out.append("    ");
    out.append("match result {");
    out.append("\n");
    emit_create_arms(out, route, func);
    out.append("    ");
    out.append("}");
    out.append("\n");
    out.append("}");
    out.append("\n");
}
/// The arm of the show handler for a success.
pub open spec fn show_ok(acc: Seq<char>, v: RouteVariantView, r: RouteView, f: FnRouteView) -> Seq<char> {
    let s = acc + "        "@ + f.result_enum + "::Ok("@ + lower_text(r.store_type) + ") => {"@ + "\n"@ + "            "@ + "let body = format!(r#\"<h1 class=\"text-2xl font-bold mb-6\">"@ + type_title(r.store_type) + " Details</h1><div class=\"bg-white shadow rounded-lg p-6\"><dl class=\"grid grid-cols-2 gap-4\"><dt class=\"text-sm font-medium text-gray-500\">ID</dt><dd class=\"text-sm text-gray-900\">{}</dd></dl><div class=\"mt-6 flex space-x-4\"><a href=\"/\" class=\"text-indigo-600 hover:underline\">Back to list</a><form method=\"POST\" action=\"/"@ + plural_name(r.store_type) + "/{}/delete\" class=\"inline\"><button type=\"submit\" class=\"text-red-600 hover:underline\">Delete</button></form></div></div>\"#, "@ + lower_text(r.store_type) + ".id, "@ + lower_text(r.store_type) + ".id);"@ + "\n"@ + "            "@ + "Html(html_page(\""@ + type_title(r.store_type) + " Details\", &body)).into_response()"@ + "\n"@ + "        "@ + "}"@ + "\n"@;
    s
}

fn emit_show_ok(out: &mut String, variant: &RouteVariant, route: &Route, func: &FnRoute)
    ensures
        final(out)@ == show_ok(old(out)@, variant@, route@, func@),
{
    let tt = type_title_of(route.store_type.as_str());
    let pl = plural_name_of(route.store_type.as_str());
    let sg = str_lower(route.store_type.as_str());
    out.append("        ");
    out.append(func.result_enum.as_str());
    out.append("::Ok(");
    out.append(sg.as_str());
    out.append(") => {");
    out.append("\n");
    out.append("            ");
    out.append("let body = format!(r#\"<h1 class=\"text-2xl font-bold mb-6\">");
    out.append(tt.as_str());
    out.append(" Details</h1><div class=\"bg-white shadow rounded-lg p-6\"><dl class=\"grid grid-cols-2 gap-4\"><dt class=\"text-sm font-medium text-gray-500\">ID</dt><dd class=\"text-sm text-gray-900\">{}</dd></dl><div class=\"mt-6 flex space-x-4\"><a href=\"/\" class=\"text-indigo-600 hover:underline\">Back to list</a><form method=\"POST\" action=\"/");
    out.append(pl.as_str());
    out.append("/{}/delete\" class=\"inline\"><button type=\"submit\" class=\"text-red-600 hover:underline\">Delete</button></form></div></div>\"#, ");
    out.append(sg.as_str());
    out.append(".id, ");
    out.append(sg.as_str());
    out.append(".id);");
    out.append("\n");
    out.append("            ");
    out.append("Html(html_page(\"");
    out.append(tt.as_str());
    out.append(" Details\", &body)).into_response()");
    out.append("\n");
    out.append("        ");
    out.append("}");
    out.append("\n");
}
/// The arm of the show handler for an error.
pub open spec fn show_err(acc: Seq<char>, v: RouteVariantView, r: RouteView, f: FnRouteView) -> Seq<char> {
    let s = acc + "        "@;
    let s = variant_pattern(s, f.result_enum, v);
    let s = s + " => {"@ + "\n"@ + "            "@ + "let body = format!(r#\"<h1 class=\"text-2xl font-bold mb-6\">"@ + phrase(tag_of(v)) + "</h1>{}<a href=\"/\" class=\"text-indigo-600 hover:underline\">Back to list</a>\"#, html_alert(\"error\", &"@;
    let s = variant_error_detail(s, v);
    let s = s + "));"@ + "\n"@ + "            "@ + "("@;
    let s = axum_status(s, v.http_status);
    let s = s + ", Html(html_page(\""@ + phrase(tag_of(v)) + "\", &body))).into_response()"@ + "\n"@ + "        "@ + "}"@ + "\n"@;
    s
}

fn emit_show_err(out: &mut String, variant: &RouteVariant, route: &Route, func: &FnRoute)
    ensures
        final(out)@ == show_err(old(out)@, variant@, route@, func@),
{
    let vt = to_phrase(tag_text(variant));
    out.append("        ");
    emit_variant_pattern(out, func.result_enum.as_str(), variant);
    out.append(" => {");
    out.append("\n");
    out.append("            ");
    out.append("let body = format!(r#\"<h1 class=\"text-2xl font-bold mb-6\">");
    out.append(vt.as_str());
    out.append("</h1>{}<a href=\"/\" class=\"text-indigo-600 hover:underline\">Back to list</a>\"#, html_alert(\"error\", &");
    emit_variant_error_detail(out, variant);
    out.append("));");
    out.append("\n");
    out.append("            ");
    out.append("(");
    emit_axum_status(out, variant.http_status);
    out.append(", Html(html_page(\"");
    out.append(vt.as_str());
    out.append("\", &body))).into_response()");
    out.append("\n");
    out.append("        ");
    out.append("}");
    out.append("\n");
}
/// The arm of the show handler for one variant.
pub open spec fn show_arm(acc: Seq<char>, v: RouteVariantView, r: RouteView, f: FnRouteView) -> Seq<
    char,
> {
    if v.is_ok {
        show_ok(acc, v, r, f)
    } else {
        show_err(acc, v, r, f)
    }
}

fn emit_show_arm(out: &mut String, variant: &RouteVariant, route: &Route, func: &FnRoute)
    ensures
        final(out)@ == show_arm(old(out)@, variant@, route@, func@),
{
    if variant.is_ok {
        emit_show_ok(out, variant, route, func);
    } else {
        emit_show_err(out, variant, route, func);
    }
}

/// The arms of the show handler for the variants from `i` on.
pub open spec fn show_arms(acc: Seq<char>, vs: Seq<RouteVariantView>, i: int, r: RouteView, f: FnRouteView) -> Seq<
    char,
>
    decreases left(vs.len(), i),
{
    if 0 <= i < vs.len() {
        show_arms(show_arm(acc, vs[i], r, f), vs, i + 1, r, f)
    } else {
        acc
    }
}

fn emit_show_arms(out: &mut String, route: &Route, func: &FnRoute)
    ensures
        final(out)@ == show_arms(old(out)@, func@.variants, 0, route@, func@),
{
    let ghost vs = func@.variants;
    let mut i: usize = 0;
    while i < func.variants.len()
        invariant
            i <= func.variants.len(),
            show_arms(out@, vs, i as int, route@, func@) == show_arms(old(out)@, vs, 0, route@, func@),
        decreases func.variants.len() - i,
    {
        emit_show_arm(out, &func.variants[i], route, func);
        i += 1;
    }
}

/// The show handler of a route with the function `f`.
pub open spec fn show_body(acc: Seq<char>, r: RouteView, f: FnRouteView) -> Seq<char> {
    let s = acc + "pub async fn "@ + r.handler_name + "("@ + "\n"@ + "    "@ + "State(state): State<AppState>,"@ + "\n"@ + "    "@ + "Path(id): Path<String>,"@ + "\n"@ + ") -> impl IntoResponse {"@ + "\n"@ + "    "@ + "let store = state."@;
    let s = store_field(s, r.store_type);
    let s = s + ".lock().unwrap();"@ + "\n"@ + "    "@ + "let result = "@ + f.fn_name + "(&*store, &id);"@ + "\n"@ + "\n"@ + "    "@ + "match result {"@ + "\n"@;
    let s = show_arms(s, f.variants, 0, r, f);
    let s = s + "    "@ + "}"@ + "\n"@ + "}"@ + "\n"@;
    s
}

fn emit_show_body(out: &mut String, route: &Route, func: &FnRoute)
    ensures
        final(out)@ == show_body(old(out)@, route@, func@),
{
    out.append("pub async fn ");
    out.append(route.handler_name.as_str());
    out.append("(");
    out.append("\n");
    out.append("    ");
    out.append("State(state): State<AppState>,");
    out.append("\n");
    out.append("    ");
    out.append("Path(id): Path<String>,");
    out.append("\n");
    out.append(") -> impl IntoResponse {");
    out.append("\n");
    out.append("    ");
    out.append("let store = state.");
    emit_store_field(out, route.store_type.as_str());
    out.append(".lock().unwrap();");
    out.append("\n");
    out.append("    ");
    out.append("let result = ");
    out.append(func.fn_name.as_str());
    out.append("(&*store, &id);");
    out.append("\n");
    out.append("\n");
    out.append("    ");
    out.append("match result {");
    out.append("\n");
    emit_show_arms(out, route, func);
    out.append("    ");
    out.append("}");
    out.append("\n");
    out.append("}");
    out.append("\n");
}
/// The handler that deletes an item and returns to the list.
pub open spec fn delete_handler(acc: Seq<char>, r: RouteView) -> Seq<char> {
    let s = acc + "pub async fn "@ + r.handler_name + "("@ + "\n"@ + "    "@ + "State(state): State<AppState>,"@ + "\n"@ + "    "@ + "Path(id): Path<String>,"@ + "\n"@ + ") -> impl IntoResponse {"@ + "\n"@ + "    "@ + "if let Ok(uuid) = id.parse::<uuid::Uuid>() {"@ + "\n"@ + "        "@ + "let mut store = state."@;
    let s = store_field(s, r.store_type);
    let s = s + ".lock().unwrap();"@ + "\n"@ + "        "@ + "store.delete(&uuid);"@ + "\n"@ + "    "@ + "}"@ + "\n"@ + "    "@ + "Redirect::to(\"/\")"@ + "\n"@ + "}"@ + "\n"@;
    s
}

fn emit_delete_handler(out: &mut String, route: &Route)
    ensures
        final(out)@ == delete_handler(old(out)@, route@),
{
    out.append("pub async fn ");
    out.append(route.handler_name.as_str());
    out.append("(");
    out.append("\n");
    out.append("    ");
    out.append("State(state): State<AppState>,");
    out.append("\n");
    out.append("    ");
    out.append("Path(id): Path<String>,");
    out.append("\n");
    out.append(") -> impl IntoResponse {");
    out.append("\n");
    out.append("    ");
    out.append("if let Ok(uuid) = id.parse::<uuid::Uuid>() {");
    out.append("\n");
    out.append("        ");
    out.append("let mut store = state.");
    emit_store_field(out, route.store_type.as_str());
    out.append(".lock().unwrap();");
    out.append("\n");
    out.append("        ");
    out.append("store.delete(&uuid);");
    out.append("\n");
    out.append("    ");
    out.append("}");
    out.append("\n");
    out.append("    ");
    out.append("Redirect::to(\"/\")");
    out.append("\n");
    out.append("}");
    out.append("\n");
}
/// The JSON handler that lists the items of a store.
pub open spec fn api_list_body(acc: Seq<char>, r: RouteView, handler: Seq<char>) -> Seq<char> {
    let s = acc + "pub async fn "@ + handler + "(State(state): State<AppState>) -> impl IntoResponse {"@ + "\n"@ + "    "@ + "let store = state."@;
    let s = store_field(s, r.store_type);
    let s = s + ".lock().unwrap();"@ + "\n"@ + "    "@ + "let items = store.list_all();"@ + "\n"@ + "    "@ + "(StatusCode::OK, axum::Json(items))"@ + "\n"@ + "}"@ + "\n"@;
    s
}

fn emit_api_list_body(out: &mut String, route: &Route, handler: &str)
    ensures
        final(out)@ == api_list_body(old(out)@, route@, handler@),
{
    out.append("pub async fn ");
    out.append(handler);
    out.append("(State(state): State<AppState>) -> impl IntoResponse {");
    out.append("\n");
    out.append("    ");
    out.append("let store = state.");
    emit_store_field(out, route.store_type.as_str());
    out.append(".lock().unwrap();");
    out.append("\n");
    out.append("    ");
    out.append("let items = store.list_all();");
    out.append("\n");
    out.append("    ");
    out.append("(StatusCode::OK, axum::Json(items))");
    out.append("\n");
    out.append("}");
    out.append("\n");
}
/// The arm of a JSON handler for a success.
pub open spec fn api_ok(acc: Seq<char>, v: RouteVariantView, r: RouteView, f: FnRouteView) -> Seq<char> {
    let s = acc + "        "@ + f.result_enum + "::Ok("@ + lower_text(r.store_type) + ") => {"@ + "\n"@ + "            "@ + "("@;
    let s = axum_status(s, v.http_status);
    let s = s + ", axum::Json(serde_json::to_value("@ + lower_text(r.store_type) + ").unwrap())).into_response()"@ + "\n"@ + "        "@ + "}"@ + "\n"@;
    s
}

fn emit_api_ok(out: &mut String, variant: &RouteVariant, route: &Route, func: &FnRoute)
    ensures
        final(out)@ == api_ok(old(out)@, variant@, route@, func@),
{
    let tt = type_title_of(route.store_type.as_str());
    let pl = plural_name_of(route.store_type.as_str());
    let sg = str_lower(route.store_type.as_str());
    out.append("        ");
    out.append(func.result_enum.as_str());
    out.append("::Ok(");
    out.append(sg.as_str());
    out.append(") => {");
    out.append("\n");
    out.append("            ");
    out.append("(");
    emit_axum_status(out, variant.http_status);
    out.append(", axum::Json(serde_json::to_value(");
    out.append(sg.as_str());
    out.append(").unwrap())).into_response()");
    out.append("\n");
    out.append("        ");
    out.append("}");
    out.append("\n");
}
/// The arm of a JSON handler for an error.
pub open spec fn api_err(acc: Seq<char>, v: RouteVariantView, r: RouteView, f: FnRouteView) -> Seq<char> {
    let s = acc + "        "@;
    let s = variant_pattern(s, f.result_enum, v);
    let s = s + " => {"@ + "\n"@ + "            "@ + "("@;
    let s = axum_status(s, v.http_status);
    let s = s + ", axum::Json("@;
    let s = variant_json_body(s, v);
    let s = s + ")).into_response()"@ + "\n"@ + "        "@ + "}"@ + "\n"@;
    s
}

fn emit_api_err(out: &mut String, variant: &RouteVariant, route: &Route, func: &FnRoute)
    ensures
        final(out)@ == api_err(old(out)@, variant@, route@, func@),
{
    out.append("        ");
    emit_variant_pattern(out, func.result_enum.as_str(), variant);
    out.append(" => {");
    out.append("\n");
    out.append("            ");
    out.append("(");
    emit_axum_status(out, variant.http_status);
    out.append(", axum::Json(");
    emit_variant_json_body(out, variant);
    out.append(")).into_response()");
    out.append("\n");
    out.append("        ");
    out.append("}");
    out.append("\n");
}
/// The arm of a JSON handler for one variant.
pub open spec fn api_arm(acc: Seq<char>, v: RouteVariantView, r: RouteView, f: FnRouteView) -> Seq<
    char,
> {
    if v.is_ok {
        api_ok(acc, v, r, f)
    } else {
        api_err(acc, v, r, f)
    }
}

fn emit_api_arm(out: &mut String, variant: &RouteVariant, route: &Route, func: &FnRoute)
    ensures
        final(out)@ == api_arm(old(out)@, variant@, route@, func@),
{
    if variant.is_ok {
        emit_api_ok(out, variant, route, func);
    } else {
        emit_api_err(out, variant, route, func);
    }
}

/// The arms of a JSON handler for the variants from `i` on.
pub open spec fn api_arms(acc: Seq<char>, vs: Seq<RouteVariantView>, i: int, r: RouteView, f: FnRouteView) -> Seq<
    char,
>
    decreases left(vs.len(), i),
{
    if 0 <= i < vs.len() {
        api_arms(api_arm(acc, vs[i], r, f), vs, i + 1, r, f)
    } else {
        acc
    }
}

fn emit_api_arms(out: &mut String, route: &Route, func: &FnRoute)
    ensures
        final(out)@ == api_arms(old(out)@, func@.variants, 0, route@, func@),
{
    let ghost vs = func@.variants;
    let mut i: usize = 0;
    while i < func.variants.len()
        invariant
            i <= func.variants.len(),
            api_arms(out@, vs, i as int, route@, func@) == api_arms(old(out)@, vs, 0, route@, func@),
        decreases func.variants.len() - i,
    {
        emit_api_arm(out, &func.variants[i], route, func);
        i += 1;
    }
}

/// The JSON handler that shows an item.
pub open spec fn api_show_body(acc: Seq<char>, r: RouteView, f: FnRouteView, handler: Seq<char>) -> Seq<char> {
    let s = acc + "pub async fn "@ + handler + "("@ + "\n"@ + "    "@ + "State(state): State<AppState>,"@ + "\n"@ + "    "@ + "Path(id): Path<String>,"@ + "\n"@ + ") -> impl IntoResponse {"@ + "\n"@ + "    "@ + "let store = state."@;
    let s = store_field(s, r.store_type);
    let s = s + ".lock().unwrap();"@ + "\n"@ + "    "@ + "let result = "@ + f.fn_name + "(&*store, &id);"@ + "\n"@ + "\n"@ + "    "@ + "match result {"@ + "\n"@;
    let s = api_arms(s, f.variants, 0, r, f);
    let s = s + "    "@ + "}"@ + "\n"@ + "}"@ + "\n"@;
    s
}

fn emit_api_show_body(out: &mut String, route: &Route, func: &FnRoute, handler: &str)
    ensures
        final(out)@ == api_show_body(old(out)@, route@, func@, handler@),
{
    out.append("pub async fn ");
    out.append(handler);
    out.append("(");
    out.append("\n");
    out.append("    ");
    out.append("State(state): State<AppState>,");
    out.append("\n");
    out.append("    ");
    out.append("Path(id): Path<String>,");
    out.append("\n");
    out.append(") -> impl IntoResponse {");
    out.append("\n");
    out.append("    ");
    out.append("let store = state.");
    emit_store_field(out, route.store_type.as_str());
    out.append(".lock().unwrap();");
    out.append("\n");
    out.append("    ");
    out.append("let result = ");
    out.append(func.fn_name.as_str());
    out.append("(&*store, &id);");
    out.append("\n");
    out.append("\n");
    out.append("    ");
    out.append("match result {");
    out.append("\n");
    emit_api_arms(out, route, func);
    out.append("    ");
    out.append("}");
    out.append("\n");
    out.append("}");
    out.append("\n");
}
/// The JSON handler that creates an item.
pub open spec fn api_create_body(acc: Seq<char>, r: RouteView, f: FnRouteView, handler: Seq<char>, input: Seq<char>) -> Seq<char> {
    let s = acc + "pub async fn "@ + handler + "("@ + "\n"@ + "    "@ + "State(state): State<AppState>,"@ + "\n"@ + "    "@ + "axum::Json(input): axum::Json<"@ + input + ">,"@ + "\n"@ + ") -> impl IntoResponse {"@ + "\n"@ + "    "@ + "let mut store = state."@;
    let s = store_field(s, r.store_type);
    let s = s + ".lock().unwrap();"@ + "\n"@ + "    "@ + "let result = "@ + f.fn_name + "(&mut *store, input);"@ + "\n"@ + "\n"@ + "    "@ + "match result {"@ + "\n"@;
    let s = api_arms(s, f.variants, 0, r, f);
    let s = s + "    "@ + "}"@ + "\n"@ + "}"@ + "\n"@;
    s
}

fn emit_api_create_body(out: &mut String, route: &Route, func: &FnRoute, handler: &str, input: &str)
    ensures
        final(out)@ == api_create_body(old(out)@, route@, func@, handler@, input@),
{
    out.append("pub async fn ");
    out.append(handler);
    out.append("(");
    out.append("\n");
    out.append("    ");
    out.append("State(state): State<AppState>,");
    out.append("\n");
    out.append("    ");
    out.append("axum::Json(input): axum::Json<");
    out.append(input);
    out.append(">,");
    out.append("\n");
    out.append(") -> impl IntoResponse {");
    out.append("\n");
    out.append("    ");
    out.append("let mut store = state.");
    emit_store_field(out, route.store_type.as_str());
    out.append(".lock().unwrap();");
    out.append("\n");
    out.append("    ");
    out.append("let result = ");
    out.append(func.fn_name.as_str());
    out.append("(&mut *store, input);");
    out.append("\n");
    out.append("\n");
    out.append("    ");
    out.append("match result {");
    out.append("\n");
    emit_api_arms(out, route, func);
    out.append("    ");
    out.append("}");
    out.append("\n");
    out.append("}");
    out.append("\n");
}
/// The create handler of a route; nothing where the route lacks a function
/// or the function an input record.
pub open spec fn create_handler(acc: Seq<char>, r: RouteView) -> Seq<char> {
    match r.function {
        Some(f) => match f.input_struct {
            Some(input) => create_body(acc, r, f, input),
            None => acc,
        },
        None => acc,
    }
}

/// The show handler of a route; nothing where the route lacks a function.
pub open spec fn show_handler(acc: Seq<char>, r: RouteView) -> Seq<char> {
    match r.function {
        Some(f) => show_body(acc, r, f),
        None => acc,
    }
}

/// The HTML handler of one route, followed by an empty line.
pub open spec fn html_handler(acc: Seq<char>, r: RouteView, t: RouteTableView) -> Seq<char> {
    (match r.kind {
        RouteKind::List => list_handler(acc, r, t),
        RouteKind::NewForm => new_form_handler(acc, r),
        RouteKind::Create => create_handler(acc, r),
        RouteKind::Show => show_handler(acc, r),
        RouteKind::Delete => delete_handler(acc, r),
    }) + "\n"@
}

fn emit_html_handler(out: &mut String, route: &Route, table: &RouteTable)
    ensures
        final(out)@ == html_handler(old(out)@, route@, table@),
{
    match route.kind {
        RouteKind::List => {
            emit_list_handler(out, route, table);
        },
        RouteKind::NewForm => {
            emit_new_form_handler(out, route);
        },
        RouteKind::Create => {
            if let Some(func) = &route.function {
                if let Some(input) = &func.input_struct {
                    emit_create_body(out, route, func, input.as_str());
                }
            }
        },
        RouteKind::Show => {
            if let Some(func) = &route.function {
                emit_show_body(out, route, func);
            }
        },
        RouteKind::Delete => {
            emit_delete_handler(out, route);
        },
    }
    out.append("\n");
}

/// The JSON handler of one route, followed by an empty line; nothing for a
/// route without an API handler.
pub open spec fn api_handler(acc: Seq<char>, r: RouteView) -> Seq<char> {
    match r.api_handler_name {
        Some(h) => (match r.kind {
            RouteKind::List => api_list_body(acc, r, h),
            RouteKind::Create => match r.function {
                Some(f) => match f.input_struct {
                    Some(input) => api_create_body(acc, r, f, h, input),
                    None => acc,
                },
                None => acc,
            },
            RouteKind::Show => match r.function {
                Some(f) => api_show_body(acc, r, f, h),
                None => acc,
            },
            _ => acc,
        }) + "\n"@,
        None => acc,
    }
}

fn emit_api_handler(out: &mut String, route: &Route)
    ensures
        final(out)@ == api_handler(old(out)@, route@),
{
    if let Some(h) = &route.api_handler_name {
        match route.kind {
            RouteKind::List => {
                emit_api_list_body(out, route, h.as_str());
            },
            RouteKind::Create => {
                if let Some(func) = &route.function {
                    if let Some(input) = &func.input_struct {
                        emit_api_create_body(out, route, func, h.as_str(), input.as_str());
                    }
                }
            },
            RouteKind::Show => {
                if let Some(func) = &route.function {
                    emit_api_show_body(out, route, func, h.as_str());
                }
            },
            _ => {},
        }
        out.append("\n");
    }
}

/// The form record of one route, followed by an empty line: only a create
/// route with form fields has one.
pub open spec fn form_record(acc: Seq<char>, r: RouteView) -> Seq<char> {
    if r.kind is Create && r.form_fields.len() > 0 {
        form_struct(acc, r) + "\n"@
    } else {
        acc
    }
}

fn emit_form_record(out: &mut String, route: &Route)
    ensures
        final(out)@ == form_record(old(out)@, route@),
{
    if same_kind(route.kind, RouteKind::Create) && route.form_fields.len() > 0 {
        emit_form_struct(out, route);
        out.append("\n");
    }
}

pub open spec fn form_records(acc: Seq<char>, routes: Seq<RouteView>, i: int) -> Seq<char>
    decreases left(routes.len(), i),
{
    if 0 <= i < routes.len() {
        form_records(form_record(acc, routes[i]), routes, i + 1)
    } else {
        acc
    }
}

pub open spec fn html_handlers(acc: Seq<char>, routes: Seq<RouteView>, i: int, t: RouteTableView) -> Seq<
    char,
>
    decreases left(routes.len(), i),
{
    if 0 <= i < routes.len() {
        html_handlers(html_handler(acc, routes[i], t), routes, i + 1, t)
    } else {
        acc
    }
}

pub open spec fn api_handlers(acc: Seq<char>, routes: Seq<RouteView>, i: int) -> Seq<char>
    decreases left(routes.len(), i),
{
    if 0 <= i < routes.len() {
        api_handlers(api_handler(acc, routes[i]), routes, i + 1)
    } else {
        acc
    }
}

/// The handlers file of the web service for a route table: the imports,
/// the form records, the HTML handlers, the JSON handlers.
pub open spec fn emit_spec(t: RouteTableView) -> Seq<char> {
    let s = imports(Seq::empty(), t) + "\n"@;
    let s = form_records(s, t.routes, 0);
    let s = s + "// \u{2500}\u{2500}\u{2500} HTML Handlers \u{2500}\u{2500}\u{2500}\n"@ + "\n"@;
    let s = html_handlers(s, t.routes, 0, t);
    let s = s + "// \u{2500}\u{2500}\u{2500} JSON API Handlers \u{2500}\u{2500}\u{2500}\n"@ + "\n"@;
    api_handlers(s, t.routes, 0)
}

/// Generates the handlers file of the web service.
pub fn emit(table: &RouteTable) -> (r: String)
    ensures
        r@ == emit_spec(table@),
{
    let ghost t = table@;
    let mut out = String::new();
    emit_imports(&mut out, table);
    out.append("\n");
    let ghost start = out@;
    let mut i: usize = 0;
    while i < table.routes.len()
        invariant
            i <= table.routes.len(),
            form_records(out@, t.routes, i as int) == form_records(start, t.routes, 0),
        decreases table.routes.len() - i,
    {
        emit_form_record(&mut out, &table.routes[i]);
        i += 1;
    }
    out.append("// \u{2500}\u{2500}\u{2500} HTML Handlers \u{2500}\u{2500}\u{2500}\n");
    out.append("\n");
    let ghost start = out@;
    let mut i: usize = 0;
    while i < table.routes.len()
        invariant
            i <= table.routes.len(),
            html_handlers(out@, t.routes, i as int, t) == html_handlers(start, t.routes, 0, t),
        decreases table.routes.len() - i,
    {
        emit_html_handler(&mut out, &table.routes[i], table);
        i += 1;
    }
    out.append("// \u{2500}\u{2500}\u{2500} JSON API Handlers \u{2500}\u{2500}\u{2500}\n");
    out.append("\n");
    let ghost start = out@;
    let mut i: usize = 0;
    while i < table.routes.len()
        invariant
            i <= table.routes.len(),
            api_handlers(out@, t.routes, i as int) == api_handlers(start, t.routes, 0),
        decreases table.routes.len() - i,
    {
        emit_api_handler(&mut out, &table.routes[i]);
        i += 1;
    }
    out
}

} // verus!
