//! Second code generator: aware of the shared runtime. It emits serializable
//! records with identity and uniqueness impls, input records, result enums
//! with named fields, and functions that take their stores as parameters.

use vstd::prelude::*;
use vstd::string::StringExecFns;
use crate::ast::{Module, ModuleView, TypeDef, TypeDefView, FieldDef, FieldDefView, EffectSetDef,
    EffectSetView, Effect, EffectView, EffectKind, FnDef, FnDefView, ParamDef, ParamDefView,
    Variant, VariantView, VariantKind, VariantKindView, TypeExpr, TypeView, Expr, ExprView,
    MatchArm, MatchArmView, Pattern, PatternView, exprs_view, bindings_view, arms_view,
    patterns_view, variants_view, type_fields_view, strs_view, effects_view, effect_sets_view,
    fndefs_view, typedefs_view, fields_view, params_view};
use crate::codegen::rust::{close_match, emit_close_match, emit_header_top, emit_status_doc,
    emit_type_doc, first_set, header_top, rust_type, status_doc, status_text, type_doc,
    type_expr_to_rust};
use crate::names::{pascal, snake, to_pascal as pascal_case, to_snake as snake_case};
use crate::text::{blank_line, chars_of, dec_int, deeper, emit1, emit2, emit3, emit4, emit5, emit6,
    emit7, emit9, emit_blank, i64_text, indent_more, left, owned, push_i64, str_eq, string_of,
    text_line};

verus! {

broadcast use {crate::ast::group_ast_views};

/// Converts a kebab-case name to snake case, dropping `?` and `!`.
pub fn to_snake(name: &str) -> (r: String)
    ensures
        r@ == snake(name@),
{
    snake_case(name)
}

/// Converts a kebab-case name to Pascal case, dropping `?` and `!`.
pub fn to_pascal(name: &str) -> (r: String)
    ensures
        r@ == pascal(name@, true),
{
    pascal_case(name)
}

/// The header of a generated file with the imports of the runtime.
pub open spec fn header(acc: Seq<char>, m: ModuleView) -> Seq<char> {
    let s = header_top(acc, m);
    let s = text_line(s, ""@, "use pact_runtime::prelude::*;"@);
    let s = text_line(s, ""@, "use serde::{Serialize, Deserialize};"@);
    text_line(s, ""@, "use std::fmt;"@)
}

/// The members of a record, one per field.
pub open spec fn members(acc: Seq<char>, fields: Seq<FieldDefView>, i: int) -> Seq<char>
    decreases left(fields.len(), i),
{
    if 0 <= i < fields.len() {
        members(
            text_line(
                acc,
                "    "@,
                "pub "@ + snake(fields[i].name) + ": "@ + rust_type(fields[i].type_expr) + ","@,
            ),
            fields,
            i + 1,
        )
    } else {
        acc
    }
}

/// Whether one of the first `n` fields is named `id`.
pub open spec fn has_id(fields: Seq<FieldDefView>, n: int) -> bool
    decreases n,
{
    if n <= 0 || n > fields.len() {
        false
    } else {
        fields[n - 1].name == "id"@ || has_id(fields, n - 1)
    }
}

/// The pairs of name and value of the fields from `i` on that are unique
/// within a store; `first` tells that none was written yet.
pub open spec fn unique_pairs(acc: Seq<char>, fields: Seq<FieldDefView>, i: int, first: bool) -> Seq<
    char,
>
    decreases left(fields.len(), i),
{
    if 0 <= i < fields.len() {
        if fields[i].unique_within.is_some() {
            let sep = if first {
                acc
            } else {
                acc + ", "@
            };
            unique_pairs(
                sep + "(\""@ + fields[i].name + "\", self."@ + snake(fields[i].name) + ".clone())"@,
                fields,
                i + 1,
                false,
            )
        } else {
            unique_pairs(acc, fields, i + 1, first)
        }
    } else {
        acc
    }
}

/// Whether one of the first `n` fields is unique within a store.
pub open spec fn any_unique(fields: Seq<FieldDefView>, n: int) -> bool
    decreases n,
{
    if n <= 0 || n > fields.len() {
        false
    } else {
        fields[n - 1].unique_within.is_some() || any_unique(fields, n - 1)
    }
}

/// Whether one of the first `n` fields is not generated.
pub open spec fn any_input(fields: Seq<FieldDefView>, n: int) -> bool
    decreases n,
{
    if n <= 0 || n > fields.len() {
        false
    } else {
        !fields[n - 1].generated || any_input(fields, n - 1)
    }
}

/// The identity and uniqueness impls of a record that has an `id` field.
pub open spec fn identity_impls(acc: Seq<char>, t: TypeDefView) -> Seq<char> {
    if has_id(t.fields, t.fields.len() as int) {
        let s = blank_line(acc);
        let s = text_line(s, ""@, "impl HasId for "@ + t.name + " {"@);
        let s = text_line(s, "    "@, "fn id(&self) -> Uuid { self.id }"@);
        let s = text_line(s, ""@, "}"@);
        let s = blank_line(s);
        let s = text_line(s, ""@, "impl HasUniqueFields for "@ + t.name + " {"@);
        let s = text_line(
            s,
            "    "@,
            "fn unique_fields(&self) -> Vec<(&'static str, String)> {"@,
        );
        let s = if any_unique(t.fields, t.fields.len() as int) {
            unique_pairs(s + "        "@ + "vec!["@, t.fields, 0, true) + "]\n"@
        } else {
            text_line(s, "        "@, "vec![]"@)
        };
        let s = text_line(s, "    "@, "}"@);
        text_line(s, ""@, "}"@)
    } else {
        acc
    }
}

/// The length checks of one field on the receiver `on`.
pub open spec fn checks(acc: Seq<char>, f: FieldDefView, on: Seq<char>) -> Seq<char> {
    let s = match f.min_len {
        Some(min) => text_line(
            acc,
            "        "@,
            "if "@ + on + "."@ + snake(f.name) + ".len() < "@ + dec_int(min as int)
                + " { errors.push(ValidationError { field: \""@ + f.name
                + "\".into(), message: \"must be at least "@ + dec_int(min as int)
                + " characters\".into() }); }"@,
        ),
        None => acc,
    };
    match f.max_len {
        Some(max) => text_line(
            s,
            "        "@,
            "if "@ + on + "."@ + snake(f.name) + ".len() > "@ + dec_int(max as int)
                + " { errors.push(ValidationError { field: \""@ + f.name
                + "\".into(), message: \"must be at most "@ + dec_int(max as int)
                + " characters\".into() }); }"@,
        ),
        None => s,
    }
}

/// The length checks of the fields from `i` on; with `inputs_only`, those
/// of the fields that are not generated.
pub open spec fn all_checks(
    acc: Seq<char>,
    fields: Seq<FieldDefView>,
    i: int,
    on: Seq<char>,
    inputs_only: bool,
) -> Seq<char>
    decreases left(fields.len(), i),
{
    if 0 <= i < fields.len() {
        all_checks(
            if inputs_only && fields[i].generated {
                acc
            } else {
                checks(acc, fields[i], on)
            },
            fields,
            i + 1,
            on,
            inputs_only,
        )
    } else {
        acc
    }
}

/// The initializer of one field inside `from_input`: a generated field
/// receives a default value, a fresh identifier where it is a UUID.
pub open spec fn initializer(acc: Seq<char>, f: FieldDefView) -> Seq<char> {
    if f.generated {
        if rust_type(f.type_expr) == "Uuid"@ {
            text_line(acc, "            "@, snake(f.name) + ": Uuid::new_v4(),"@)
        } else {
            text_line(acc, "            "@, snake(f.name) + ": Default::default(),"@)
        }
    } else {
        text_line(acc, "            "@, snake(f.name) + ": input."@ + snake(f.name) + ","@)
    }
}

pub open spec fn initializers(acc: Seq<char>, fields: Seq<FieldDefView>, i: int) -> Seq<char>
    decreases left(fields.len(), i),
{
    if 0 <= i < fields.len() {
        initializers(initializer(acc, fields[i]), fields, i + 1)
    } else {
        acc
    }
}

/// The validation of an input record, present where a field is not generated.
pub open spec fn input_validation(acc: Seq<char>, t: TypeDefView) -> Seq<char> {
    if any_input(t.fields, t.fields.len() as int) {
        let s = blank_line(acc);
        let s = text_line(
            s,
            "    "@,
            "pub fn validate_input(input: &Create"@ + t.name + "Input) -> Vec<ValidationError> {"@,
        );
        let s = text_line(s, "        "@, "let mut errors = Vec::new();"@);
        let s = all_checks(s, t.fields, 0, "input"@, true);
        let s = text_line(s, "        "@, "errors"@);
        text_line(s, "    "@, "}"@)
    } else {
        acc
    }
}

/// One record with its impls, its validation and its constructor from input.
pub open spec fn type_def(acc: Seq<char>, t: TypeDefView) -> Seq<char> {
    let s = type_doc(acc, t);
    let s = text_line(s, ""@, "#[derive(Debug, Clone, Serialize, Deserialize)]"@);
    let s = text_line(s, ""@, "pub struct "@ + t.name + " {"@);
    let s = members(s, t.fields, 0);
    let s = text_line(s, ""@, "}"@);
    let s = identity_impls(s, t);
    let s = blank_line(s);
    let s = text_line(s, ""@, "impl "@ + t.name + " {"@);
    let s = text_line(s, "    "@, "pub fn validate(&self) -> Vec<ValidationError> {"@);
    let s = text_line(s, "        "@, "let mut errors = Vec::new();"@);
    let s = all_checks(s, t.fields, 0, "self"@, false);
    let s = text_line(s, "        "@, "errors"@);
    let s = text_line(s, "    "@, "}"@);
    let s = input_validation(s, t);
    let s = blank_line(s);
    let s = text_line(
        s,
        "    "@,
        "pub fn from_input(input: Create"@ + t.name + "Input) -> Self {"@,
    );
    let s = text_line(s, "        "@, t.name + " {"@);
    let s = initializers(s, t.fields, 0);
    let s = text_line(s, "        "@, "}"@);
    let s = text_line(s, "    "@, "}"@);
    text_line(s, ""@, "}"@)
}

fn emit_members(out: &mut String, fields: &Vec<FieldDef>)
    ensures
        final(out)@ == members(old(out)@, fields_view(fields@), 0),
{
    let ghost vs = fields_view(fields@);
    let mut i: usize = 0;
    while i < fields.len()
        invariant
            members(out@, vs, i as int) == members(old(out)@, vs, 0),
        decreases fields.len() - i,
    {
        let name = snake_case(fields[i].name.as_str());
        let ty = type_expr_to_rust(&fields[i].type_expr);
        emit5(out, "    ", "pub ", name.as_str(), ": ", ty.as_str(), ",");
        i += 1;
    }
}

fn emit_identity_impls(out: &mut String, typedef: &TypeDef)
    ensures
        final(out)@ == identity_impls(old(out)@, typedef@),
{
    let ghost vs = fields_view(typedef.fields@);
    let mut id_field = false;
    let mut unique = false;
    let mut i: usize = 0;
    while i < typedef.fields.len()
        invariant
            i <= typedef.fields.len(),
            id_field == has_id(vs, i as int),
            unique == any_unique(vs, i as int),
        decreases typedef.fields.len() - i,
    {
        if str_eq(typedef.fields[i].name.as_str(), "id") {
            id_field = true;
        }
        if typedef.fields[i].unique_within.is_some() {
            unique = true;
        }
        i += 1;
    }
    if id_field {
        emit_blank(out);
        emit3(out, "", "impl HasId for ", typedef.name.as_str(), " {");
        emit1(out, "    ", "fn id(&self) -> Uuid { self.id }");
        emit1(out, "", "}");
        emit_blank(out);
        emit3(out, "", "impl HasUniqueFields for ", typedef.name.as_str(), " {");
        emit1(out, "    ", "fn unique_fields(&self) -> Vec<(&'static str, String)> {");
        if unique {
            out.append("        ");
            out.append("vec![");
            let ghost start = out@;
            let mut first = true;
            let mut i: usize = 0;
            while i < typedef.fields.len()
                invariant
                    unique_pairs(out@, vs, i as int, first) == unique_pairs(start, vs, 0, true),
                decreases typedef.fields.len() - i,
            {
                let field = &typedef.fields[i];
                if field.unique_within.is_some() {
                    if !first {
                        out.append(", ");
                    }
                    let name = snake_case(field.name.as_str());
                    out.append("(\"");
                    out.append(field.name.as_str());
                    out.append("\", self.");
                    out.append(name.as_str());
                    out.append(".clone())");
                    first = false;
                }
                i += 1;
            }
            out.append("]\n");
        } else {
            emit1(out, "        ", "vec![]");
        }
        emit1(out, "    ", "}");
        emit1(out, "", "}");
    }
}

fn emit_checks(out: &mut String, field: &FieldDef, on: &str)
    ensures
        final(out)@ == checks(old(out)@, field@, on@),
{
    let name = snake_case(field.name.as_str());
    if let Some(min) = field.min_len {
        let text = i64_text(min);
        out.append("        ");
        out.append("if ");
        out.append(on);
        out.append(".");
        out.append(name.as_str());
        out.append(".len() < ");
        out.append(text.as_str());
        out.append(" { errors.push(ValidationError { field: \"");
        out.append(field.name.as_str());
        out.append("\".into(), message: \"must be at least ");
        out.append(text.as_str());
        out.append(" characters\".into() }); }");
        out.push('\n');
        assert(out@ =~= text_line(
            old(out)@,
            "        "@,
            "if "@ + on@ + "."@ + name@ + ".len() < "@ + text@
                + " { errors.push(ValidationError { field: \""@ + field.name@
                + "\".into(), message: \"must be at least "@ + text@
                + " characters\".into() }); }"@,
        ));
    }
    let ghost mid = out@;
    if let Some(max) = field.max_len {
        let text = i64_text(max);
        out.append("        ");
        out.append("if ");
        out.append(on);
        out.append(".");
        out.append(name.as_str());
        out.append(".len() > ");
        out.append(text.as_str());
        out.append(" { errors.push(ValidationError { field: \"");
        out.append(field.name.as_str());
        out.append("\".into(), message: \"must be at most ");
        out.append(text.as_str());
        out.append(" characters\".into() }); }");
        out.push('\n');
        assert(out@ =~= text_line(
            mid,
            "        "@,
            "if "@ + on@ + "."@ + name@ + ".len() > "@ + text@
                + " { errors.push(ValidationError { field: \""@ + field.name@
                + "\".into(), message: \"must be at most "@ + text@
                + " characters\".into() }); }"@,
        ));
    }
}

fn emit_all_checks(out: &mut String, fields: &Vec<FieldDef>, on: &str, inputs_only: bool)
    ensures
        final(out)@ == all_checks(old(out)@, fields_view(fields@), 0, on@, inputs_only),
{
    let ghost vs = fields_view(fields@);
    let mut i: usize = 0;
    while i < fields.len()
        invariant
            all_checks(out@, vs, i as int, on@, inputs_only) == all_checks(
                old(out)@,
                vs,
                0,
                on@,
                inputs_only,
            ),
        decreases fields.len() - i,
    {
        if !(inputs_only && fields[i].generated) {
            emit_checks(out, &fields[i], on);
        }
        i += 1;
    }
}

/// Appends one record with its impls, its validation and its constructor
/// from input.
pub fn emit_type_def(out: &mut String, typedef: &TypeDef)
    ensures
        final(out)@ == type_def(old(out)@, typedef@),
{
    let name = typedef.name.as_str();
    let ghost vs = fields_view(typedef.fields@);
    emit_type_doc(out, typedef);
    emit1(out, "", "#[derive(Debug, Clone, Serialize, Deserialize)]");
    emit3(out, "", "pub struct ", name, " {");
    emit_members(out, &typedef.fields);
    emit1(out, "", "}");
    emit_identity_impls(out, typedef);
    emit_blank(out);
    emit3(out, "", "impl ", name, " {");
    emit1(out, "    ", "pub fn validate(&self) -> Vec<ValidationError> {");
    emit1(out, "        ", "let mut errors = Vec::new();");
    emit_all_checks(out, &typedef.fields, "self", false);
    emit1(out, "        ", "errors");
    emit1(out, "    ", "}");
    let mut inputs = false;
    let mut i: usize = 0;
    while i < typedef.fields.len()
        invariant
            i <= typedef.fields.len(),
            inputs == any_input(vs, i as int),
        decreases typedef.fields.len() - i,
    {
        if !typedef.fields[i].generated {
            inputs = true;
        }
        i += 1;
    }
    if inputs {
        emit_blank(out);
        emit3(
            out,
            "    ",
            "pub fn validate_input(input: &Create",
            name,
            "Input) -> Vec<ValidationError> {",
        );
        emit1(out, "        ", "let mut errors = Vec::new();");
        emit_all_checks(out, &typedef.fields, "input", true);
        emit1(out, "        ", "errors");
        emit1(out, "    ", "}");
    }
    emit_blank(out);
    emit3(out, "    ", "pub fn from_input(input: Create", name, "Input) -> Self {");
    emit2(out, "        ", name, " {");
    let ghost start = out@;
    let mut i: usize = 0;
    while i < typedef.fields.len()
        invariant
            initializers(out@, vs, i as int) == initializers(start, vs, 0),
        decreases typedef.fields.len() - i,
    {
        let field = &typedef.fields[i];
        let fname = snake_case(field.name.as_str());
        if field.generated {
            let ty = type_expr_to_rust(&field.type_expr);
            if str_eq(ty.as_str(), "Uuid") {
                emit2(out, "            ", fname.as_str(), ": Uuid::new_v4(),");
            } else {
                emit2(out, "            ", fname.as_str(), ": Default::default(),");
            }
        } else {
            emit4(out, "            ", fname.as_str(), ": input.", fname.as_str(), ",");
        }
        i += 1;
    }
    emit1(out, "        ", "}");
    emit1(out, "    ", "}");
    emit1(out, "", "}");
}

/// The members of an input record, one per entry of the map type.
pub open spec fn input_members(acc: Seq<char>, fields: Seq<(Seq<char>, TypeView)>, i: int) -> Seq<
    char,
>
    decreases left(fields.len(), i),
{
    if 0 <= i < fields.len() {
        input_members(
            text_line(
                acc,
                "    "@,
                "pub "@ + snake(fields[i].0) + ": "@ + rust_type(fields[i].1) + ","@,
            ),
            fields,
            i + 1,
        )
    } else {
        acc
    }
}

/// One input record for each map-typed parameter from `i` on.
pub open spec fn input_structs(acc: Seq<char>, f: FnDefView, i: int) -> Seq<char>
    decreases left(f.params.len(), i),
{
    if 0 <= i < f.params.len() {
        input_structs(
            match f.params[i].type_expr {
                TypeView::Mapping(fields) => {
                    let s = text_line(
                        acc,
                        ""@,
                        "#[derive(Debug, Clone, Serialize, Deserialize)]"@,
                    );
                    let s = text_line(s, ""@, "pub struct "@ + pascal(f.name, true) + "Input {"@);
                    let s = input_members(s, fields, 0);
                    let s = text_line(s, ""@, "}"@);
                    blank_line(s)
                },
                _ => acc,
            },
            f,
            i + 1,
        )
    } else {
        acc
    }
}

/// Appends one input record for each map-typed parameter of `func`.
pub fn emit_input_structs(out: &mut String, func: &FnDef)
    ensures
        final(out)@ == input_structs(old(out)@, func@, 0),
{
    let ghost f = func@;
    let mut i: usize = 0;
    while i < func.params.len()
        invariant
            input_structs(out@, f, i as int) == input_structs(old(out)@, f, 0),
        decreases func.params.len() - i,
    {
        if let TypeExpr::Mapping(fields) = &func.params[i].type_expr {
            let name = to_pascal(func.name.as_str());
            emit1(out, "", "#[derive(Debug, Clone, Serialize, Deserialize)]");
            emit3(out, "", "pub struct ", name.as_str(), "Input {");
            let ghost vs = type_fields_view(fields@);
            let ghost start = out@;
            let mut j: usize = 0;
            while j < fields.len()
                invariant
                    input_members(out@, vs, j as int) == input_members(start, vs, 0),
                decreases fields.len() - j,
            {
                let fname = snake_case(fields[j].0.as_str());
                let ty = type_expr_to_rust(&fields[j].1);
                emit5(out, "    ", "pub ", fname.as_str(), ": ", ty.as_str(), ",");
                j += 1;
            }
            emit1(out, "", "}");
            emit_blank(out);
        }
        i += 1;
    }
}


/// The first parameter named `name` from `i` on.
pub open spec fn first_param(params: Seq<ParamDefView>, name: Seq<char>, i: int) -> Option<
    ParamDefView,
>
    decreases left(params.len(), i),
{
    if 0 <= i < params.len() {
        if params[i].name == name {
            Some(params[i])
        } else {
            first_param(params, name, i + 1)
        }
    } else {
        None
    }
}

/// The type of the first field named `name` from `i` on.
pub open spec fn first_field_type(fields: Seq<FieldDefView>, name: Seq<char>, i: int) -> Option<
    TypeView,
>
    decreases left(fields.len(), i),
{
    if 0 <= i < fields.len() {
        if fields[i].name == name {
            Some(fields[i].type_expr)
        } else {
            first_field_type(fields, name, i + 1)
        }
    } else {
        None
    }
}

/// The type of the first field named `name` in the types from `i` on.
pub open spec fn domain_field_type(types: Seq<TypeDefView>, name: Seq<char>, i: int) -> Option<
    TypeView,
>
    decreases left(types.len(), i),
{
    if 0 <= i < types.len() {
        match first_field_type(types[i].fields, name, 0) {
            Some(t) => Some(t),
            None => domain_field_type(types, name, i + 1),
        }
    } else {
        None
    }
}

/// Whether `t` is the named type `name`.
pub open spec fn is_named(t: TypeView, name: Seq<char>) -> bool {
    t == TypeView::Named(name)
}

/// The target type of the field `field_name` of an error payload. A built-in
/// type maps as usual. Any other name is taken as a variable: a parameter of
/// that name gives its type (`String` for a UUID, which arrives as text),
/// else the field of that name in a domain type gives its type.
pub open spec fn field_type(field_name: Seq<char>, t: TypeView, types: Seq<TypeDefView>, f: FnDefView) -> Seq<
    char,
> {
    match t {
        TypeView::Named(name) => if name == "UUID"@ {
            "Uuid"@
        } else if name == "String"@ {
            "String"@
        } else if name == "Int"@ {
            "i64"@
        } else if name == "Bool"@ {
            "bool"@
        } else {
            match first_param(f.params, name, 0) {
                Some(p) => if is_named(p.type_expr, "UUID"@) {
                    "String"@
                } else {
                    rust_type(p.type_expr)
                },
                None => match domain_field_type(types, field_name, 0) {
                    Some(ft) => rust_type(ft),
                    None => rust_type(t),
                },
            }
        },
        _ => rust_type(t),
    }
}

fn named_is(type_expr: &TypeExpr, name: &str) -> (r: bool)
    ensures
        r == is_named(type_expr@, name@),
{
    match type_expr {
        TypeExpr::Named(n) => str_eq(n.as_str(), name),
        _ => false,
    }
}

fn find_param<'a>(params: &'a Vec<ParamDef>, name: &str) -> (r: Option<&'a ParamDef>)
    ensures
        match r {
            Some(p) => first_param(params_view(params@), name@, 0) == Some(p@),
            None => first_param(params_view(params@), name@, 0).is_none(),
        },
{
    let ghost vs = params_view(params@);
    let mut i: usize = 0;
    while i < params.len()
        invariant
            i <= params.len(),
            first_param(vs, name@, i as int) == first_param(vs, name@, 0),
        decreases params.len() - i,
    {
        if str_eq(params[i].name.as_str(), name) {
            return Some(&params[i]);
        }
        i += 1;
    }
    None
}

fn find_domain_field<'a>(types: &'a Vec<TypeDef>, name: &str) -> (r: Option<&'a TypeExpr>)
    ensures
        match r {
            Some(t) => domain_field_type(typedefs_view(types@), name@, 0) == Some(t@),
            None => domain_field_type(typedefs_view(types@), name@, 0).is_none(),
        },
{
    let ghost vs = typedefs_view(types@);
    let mut i: usize = 0;
    while i < types.len()
        invariant
            i <= types.len(),
            domain_field_type(vs, name@, i as int) == domain_field_type(vs, name@, 0),
        decreases types.len() - i,
    {
        let ghost fs = fields_view(types[i as int].fields@);
        let mut j: usize = 0;
        while j < types[i].fields.len()
            invariant
                j <= types[i as int].fields.len(),
                first_field_type(fs, name@, j as int) == first_field_type(fs, name@, 0),
            decreases types[i as int].fields.len() - j,
        {
            if str_eq(types[i].fields[j].name.as_str(), name) {
                return Some(&types[i].fields[j].type_expr);
            }
            j += 1;
        }
        i += 1;
    }
    None
}

/// The target type of the field `field_name` of an error payload.
pub fn resolve_field_type(
    field_name: &str,
    type_expr: &TypeExpr,
    type_defs: &Vec<TypeDef>,
    func: &FnDef,
) -> (r: String)
    ensures
        r@ == field_type(field_name@, type_expr@, typedefs_view(type_defs@), func@),
{
    if let TypeExpr::Named(name) = type_expr {
        let n = name.as_str();
        if str_eq(n, "UUID") {
            return owned("Uuid");
        } else if str_eq(n, "String") {
            return owned("String");
        } else if str_eq(n, "Int") {
            return owned("i64");
        } else if str_eq(n, "Bool") {
            return owned("bool");
        }
        if let Some(param) = find_param(&func.params, n) {
            if named_is(&param.type_expr, "UUID") {
                return owned("String");
            }
            return type_expr_to_rust(&param.type_expr);
        }
        if let Some(ft) = find_domain_field(type_defs, field_name) {
            return type_expr_to_rust(ft);
        }
    }
    type_expr_to_rust(type_expr)
}

/// The named fields of an error variant from `i` on.
pub open spec fn named_fields(
    acc: Seq<char>,
    fields: Seq<(Seq<char>, TypeView)>,
    i: int,
    types: Seq<TypeDefView>,
    f: FnDefView,
) -> Seq<char>
    decreases left(fields.len(), i),
{
    if 0 <= i < fields.len() {
        let sep = if i > 0 {
            acc + ","@
        } else {
            acc
        };
        named_fields(
            sep + " "@ + snake(fields[i].0) + ": "@ + field_type(fields[i].0, fields[i].1, types, f),
            fields,
            i + 1,
            types,
            f,
        )
    } else {
        acc
    }
}

/// The member of a result enum for one variant: an error whose payload is a
/// map has named fields, one whose payload is `Unit` has none.
pub open spec fn variant_member(acc: Seq<char>, v: VariantView, types: Seq<TypeDefView>, f: FnDefView) -> Seq<
    char,
> {
    match v.kind {
        VariantKindView::Success { type_expr, http_status, .. } => text_line(
            status_doc(acc, http_status),
            "    "@,
            "Ok("@ + rust_type(type_expr) + "),"@,
        ),
        VariantKindView::Failure { tag, payload, http_status, .. } => {
            let s = status_doc(acc, http_status);
            match payload {
                TypeView::Mapping(fields) => named_fields(
                    s + "    "@ + pascal(tag, true) + " {"@,
                    fields,
                    0,
                    types,
                    f,
                ) + " },\n"@,
                _ => if is_named(payload, "Unit"@) {
                    text_line(s, "    "@, pascal(tag, true) + ","@)
                } else {
                    text_line(s, "    "@, pascal(tag, true) + "("@ + rust_type(payload) + "),"@)
                },
            }
        },
    }
}

/// How a pattern names the payload of an error variant: ` { .. }` for named
/// fields, nothing for `Unit`, else `(x)` with the binder `x`.
pub open spec fn payload_pattern(payload: TypeView, binder: Seq<char>) -> Seq<char> {
    if payload is Mapping {
        " { .. }"@
    } else if is_named(payload, "Unit"@) {
        ""@
    } else {
        "("@ + binder + ")"@
    }
}

pub open spec fn variant_status(acc: Seq<char>, v: VariantView, e: Seq<char>) -> Seq<char> {
    match v.kind {
        VariantKindView::Success { http_status, .. } => text_line(
            acc,
            "            "@,
            e + "::Ok(_) => "@ + dec_int(
                match http_status {
                    Some(n) => n as int,
                    None => 200,
                },
            ) + ","@,
        ),
        VariantKindView::Failure { tag, payload, http_status, .. } => text_line(
            acc,
            "            "@,
            e + "::"@ + pascal(tag, true) + payload_pattern(payload, "_"@) + " => "@ + dec_int(
                match http_status {
                    Some(n) => n as int,
                    None => 500,
                },
            ) + ","@,
        ),
    }
}

pub open spec fn variant_display(acc: Seq<char>, v: VariantView, e: Seq<char>) -> Seq<char> {
    match v.kind {
        VariantKindView::Success { .. } => text_line(
            acc,
            "            "@,
            e + "::Ok(v) => write!(f, \"Ok: {:?}\", v),"@,
        ),
        VariantKindView::Failure { tag, payload, .. } => if payload is Mapping || is_named(
            payload,
            "Unit"@,
        ) {
            text_line(
                acc,
                "            "@,
                e + "::"@ + pascal(tag, true) + payload_pattern(payload, "v"@)
                    + " => write!(f, \"Error: "@ + tag + "\"),"@,
            )
        } else {
            text_line(
                acc,
                "            "@,
                e + "::"@ + pascal(tag, true) + payload_pattern(payload, "v"@)
                    + " => write!(f, \"Error("@ + tag + "): {:?}\", v),"@,
            )
        },
    }
}

/// The lines of all variants from `i` on; `part` selects the members (0),
/// the status arms (1) or the stringifier arms (2).
pub open spec fn variant_lines(
    acc: Seq<char>,
    vs: Seq<VariantView>,
    i: int,
    part: int,
    e: Seq<char>,
    types: Seq<TypeDefView>,
    f: FnDefView,
) -> Seq<char>
    decreases left(vs.len(), i),
{
    if 0 <= i < vs.len() {
        variant_lines(
            if part == 0 {
                variant_member(acc, vs[i], types, f)
            } else if part == 1 {
                variant_status(acc, vs[i], e)
            } else {
                variant_display(acc, vs[i], e)
            },
            vs,
            i + 1,
            part,
            e,
            types,
            f,
        )
    } else {
        acc
    }
}

/// The name of the result enum of a function.
pub open spec fn result_name(f: FnDefView) -> Seq<char> {
    pascal(f.name, true) + "Result"@
}

/// One result enum with its status accessor and its stringifier.
pub open spec fn return_enum(acc: Seq<char>, f: FnDefView, types: Seq<TypeDefView>) -> Seq<char> {
    let e = result_name(f);
    let s = if f.total {
        text_line(acc, ""@, "/// Total: this function handles all cases exhaustively"@)
    } else {
        acc
    };
    let s = text_line(s, ""@, "#[derive(Debug)]"@);
    let s = text_line(s, ""@, "pub enum "@ + e + " {"@);
    let s = variant_lines(s, f.returns.variants, 0, 0, e, types, f);
    let s = text_line(s, ""@, "}"@);
    let s = blank_line(s);
    let s = text_line(s, ""@, "impl "@ + e + " {"@);
    let s = text_line(s, "    "@, "pub fn http_status(&self) -> u16 {"@);
    let s = text_line(s, "        "@, "match self {"@);
    let s = variant_lines(s, f.returns.variants, 0, 1, e, types, f);
    let s = close_match(s);
    let s = blank_line(s);
    let s = text_line(s, ""@, "impl fmt::Display for "@ + e + " {"@);
    let s = text_line(s, "    "@, "fn fmt(&self, f: &mut fmt::Formatter<'_>) -> fmt::Result {"@);
    let s = text_line(s, "        "@, "match self {"@);
    let s = variant_lines(s, f.returns.variants, 0, 2, e, types, f);
    close_match(s)
}

fn payload_pattern_text(payload: &TypeExpr, binder: &str) -> (r: String)
    ensures
        r@ == payload_pattern(payload@, binder@),
{
    match payload {
        TypeExpr::Mapping(_) => owned(" { .. }"),
        _ => {
            if named_is(payload, "Unit") {
                owned("")
            } else {
                let mut r = String::from_str("(");
                r.append(binder);
                r.append(")");
                r
            }
        },
    }
}

fn emit_variant_line(
    out: &mut String,
    variant: &Variant,
    part: usize,
    e: &str,
    type_defs: &Vec<TypeDef>,
    func: &FnDef,
)
    requires
        part <= 2,
    ensures
        final(out)@ == if part == 0 {
            variant_member(old(out)@, variant@, typedefs_view(type_defs@), func@)
        } else if part == 1 {
            variant_status(old(out)@, variant@, e@)
        } else {
            variant_display(old(out)@, variant@, e@)
        },
{
    match &variant.kind {
        VariantKind::Success { type_expr, http_status, .. } => {
            if part == 0 {
                emit_status_doc(out, http_status);
                let ty = type_expr_to_rust(type_expr);
                emit3(out, "    ", "Ok(", ty.as_str(), "),");
            } else if part == 1 {
                let status = status_text(http_status, 200);
                emit4(out, "            ", e, "::Ok(_) => ", status.as_str(), ",");
            } else {
                emit2(out, "            ", e, "::Ok(v) => write!(f, \"Ok: {:?}\", v),");
            }
        },
        VariantKind::Failure { tag, payload, http_status, .. } => {
            let name = to_pascal(tag.as_str());
            if part == 0 {
                emit_status_doc(out, http_status);
                match payload {
                    TypeExpr::Mapping(fields) => {
                        out.append("    ");
                        out.append(name.as_str());
                        out.append(" {");
                        let ghost vs = type_fields_view(fields@);
                        let ghost types = typedefs_view(type_defs@);
                        let ghost start = out@;
                        let mut i: usize = 0;
                        while i < fields.len()
                            invariant
                                named_fields(out@, vs, i as int, types, func@) == named_fields(
                                    start,
                                    vs,
                                    0,
                                    types,
                                    func@,
                                ),
                            decreases fields.len() - i,
                        {
                            if i > 0 {
                                out.append(",");
                            }
                            let fname = snake_case(fields[i].0.as_str());
                            let ty = resolve_field_type(
                                fields[i].0.as_str(),
                                &fields[i].1,
                                type_defs,
                                func,
                            );
                            out.append(" ");
                            out.append(fname.as_str());
                            out.append(": ");
                            out.append(ty.as_str());
                            i += 1;
                        }
                        out.append(" },\n");
                    },
                    _ => {
                        if named_is(payload, "Unit") {
                            emit2(out, "    ", name.as_str(), ",");
                        } else {
                            let ty = type_expr_to_rust(payload);
                            emit4(out, "    ", name.as_str(), "(", ty.as_str(), "),");
                        }
                    },
                }
            } else if part == 1 {
                let status = status_text(http_status, 500);
                let pat = payload_pattern_text(payload, "_");
                emit7(
                    out,
                    "            ",
                    e,
                    "::",
                    name.as_str(),
                    pat.as_str(),
                    " => ",
                    status.as_str(),
                    ",",
                );
            } else {
                let pat = payload_pattern_text(payload, "v");
                let plain = match payload {
                    TypeExpr::Mapping(_) => true,
                    _ => named_is(payload, "Unit"),
                };
                if plain {
                    emit7(
                        out,
                        "            ",
                        e,
                        "::",
                        name.as_str(),
                        pat.as_str(),
                        " => write!(f, \"Error: ",
                        tag.as_str(),
                        "\"),",
                    );
                } else {
                    emit7(
                        out,
                        "            ",
                        e,
                        "::",
                        name.as_str(),
                        pat.as_str(),
                        " => write!(f, \"Error(",
                        tag.as_str(),
                        "): {:?}\", v),",
                    );
                }
            }
        },
    }
}

fn emit_variant_lines(
    out: &mut String,
    variants: &Vec<Variant>,
    part: usize,
    e: &str,
    type_defs: &Vec<TypeDef>,
    func: &FnDef,
)
    requires
        part <= 2,
    ensures
        final(out)@ == variant_lines(
            old(out)@,
            variants_view(variants@),
            0,
            part as int,
            e@,
            typedefs_view(type_defs@),
            func@,
        ),
{
    let ghost vs = variants_view(variants@);
    let ghost types = typedefs_view(type_defs@);
    let mut i: usize = 0;
    while i < variants.len()
        invariant
            variant_lines(out@, vs, i as int, part as int, e@, types, func@) == variant_lines(
                old(out)@,
                vs,
                0,
                part as int,
                e@,
                types,
                func@,
            ),
        decreases variants.len() - i,
    {
        emit_variant_line(out, &variants[i], part, e, type_defs, func);
        i += 1;
    }
}

/// Appends one result enum with its status accessor and its stringifier.
pub fn emit_return_enum(out: &mut String, func: &FnDef, type_defs: &Vec<TypeDef>)
    ensures
        final(out)@ == return_enum(old(out)@, func@, typedefs_view(type_defs@)),
{
    let mut enum_name = to_pascal(func.name.as_str());
    enum_name.append("Result");
    let e = enum_name.as_str();
    if func.total {
        emit1(out, "", "/// Total: this function handles all cases exhaustively");
    }
    emit1(out, "", "#[derive(Debug)]");
    emit3(out, "", "pub enum ", e, " {");
    emit_variant_lines(out, &func.returns.variants, 0, e, type_defs, func);
    emit1(out, "", "}");
    emit_blank(out);
    emit3(out, "", "impl ", e, " {");
    emit1(out, "    ", "pub fn http_status(&self) -> u16 {");
    emit1(out, "        ", "match self {");
    emit_variant_lines(out, &func.returns.variants, 1, e, type_defs, func);
    emit_close_match(out);
    emit_blank(out);
    emit3(out, "", "impl fmt::Display for ", e, " {");
    emit1(out, "    ", "fn fmt(&self, f: &mut fmt::Formatter<'_>) -> fmt::Result {");
    emit1(out, "        ", "match self {");
    emit_variant_lines(out, &func.returns.variants, 2, e, type_defs, func);
    emit_close_match(out);
}


/// `target` without a trailing `-store` or `_store`.
pub open spec fn strip_store(target: Seq<char>) -> Seq<char> {
    if target.len() >= 6 && (target.subrange(target.len() - 6, target.len() as int) == "-store"@
        || target.subrange(target.len() - 6, target.len() as int) == "_store"@) {
        target.subrange(0, target.len() - 6)
    } else {
        target
    }
}

/// The name of the type that the store `target` holds.
pub open spec fn store_type(target: Seq<char>) -> Seq<char> {
    pascal(strip_store(target), true)
}

/// Converts a store target such as `user-store` to a type name such as `User`.
pub fn store_target_to_type(target: &str) -> (r: String)
    ensures
        r@ == store_type(target@),
{
    let chars = chars_of(target);
    let n = chars.len();
    if n >= 6 {
        let tail = crate::text::string_from(&chars, n - 6, n);
        if str_eq(tail.as_str(), "-store") || str_eq(tail.as_str(), "_store") {
            let head = crate::text::string_from(&chars, 0, n - 6);
            return to_pascal(head.as_str());
        }
    }
    to_pascal(target)
}

/// The views of a sequence of store dependencies.
pub open spec fn stores_view(s: Seq<(String, bool)>) -> Seq<(Seq<char>, bool)> {
    Seq::new(s.len(), |i: int| (s[i].0@, s[i].1))
}

/// The index of the first store of type `t` from `i` on, or -1.
pub open spec fn store_index(stores: Seq<(Seq<char>, bool)>, t: Seq<char>, i: int) -> int
    decreases left(stores.len(), i),
{
    if 0 <= i < stores.len() {
        if stores[i].0 == t {
            i
        } else {
            store_index(stores, t, i + 1)
        }
    } else {
        -1
    }
}

/// `stores` with a dependency on the store of type `t`; a write makes the
/// dependency mutable.
pub open spec fn add_store(stores: Seq<(Seq<char>, bool)>, t: Seq<char>, write: bool) -> Seq<
    (Seq<char>, bool),
> {
    let k = store_index(stores, t, 0);
    if 0 <= k < stores.len() {
        stores.update(k, (t, stores[k].1 || write))
    } else {
        stores.push((t, write))
    }
}

/// `stores` with the stores that the effects from `j` on read or write.
pub open spec fn set_stores(stores: Seq<(Seq<char>, bool)>, effects: Seq<EffectView>, j: int) -> Seq<
    (Seq<char>, bool),
>
    decreases left(effects.len(), j),
{
    if 0 <= j < effects.len() {
        set_stores(
            if effects[j].kind is Sends {
                stores
            } else {
                add_store(stores, store_type(effects[j].target), effects[j].kind is Writes)
            },
            effects,
            j + 1,
        )
    } else {
        stores
    }
}

/// `stores` with the stores of the effect sets named from `i` on.
pub open spec fn named_stores(
    stores: Seq<(Seq<char>, bool)>,
    sets: Seq<EffectSetView>,
    names: Seq<Seq<char>>,
    i: int,
) -> Seq<(Seq<char>, bool)>
    decreases left(names.len(), i),
{
    if 0 <= i < names.len() {
        named_stores(
            match first_set(sets, names[i], 0) {
                Some(es) => set_stores(stores, es.effects, 0),
                None => stores,
            },
            sets,
            names,
            i + 1,
        )
    } else {
        stores
    }
}

/// The stores that a function depends on, each once, in the order in which
/// its effect sets name them; a store that any effect writes is mutable.
pub open spec fn store_types(f: FnDefView, m: ModuleView) -> Seq<(Seq<char>, bool)> {
    named_stores(Seq::empty(), m.effect_sets, f.effects, 0)
}

fn find_set<'a>(sets: &'a Vec<EffectSetDef>, name: &str) -> (r: Option<&'a EffectSetDef>)
    ensures
        match r {
            Some(es) => first_set(effect_sets_view(sets@), name@, 0) == Some(es@),
            None => first_set(effect_sets_view(sets@), name@, 0).is_none(),
        },
{
    let ghost vs = effect_sets_view(sets@);
    let mut i: usize = 0;
    while i < sets.len()
        invariant
            i <= sets.len(),
            first_set(vs, name@, i as int) == first_set(vs, name@, 0),
        decreases sets.len() - i,
    {
        if str_eq(sets[i].name.as_str(), name) {
            return Some(&sets[i]);
        }
        i += 1;
    }
    None
}

fn note_store(stores: &mut Vec<(String, bool)>, ty_name: String, write: bool)
    ensures
        stores_view(final(stores)@) == add_store(stores_view(old(stores)@), ty_name@, write),
{
    let ghost vs = stores_view(stores@);
    let mut i: usize = 0;
    while i < stores.len()
        invariant
            i <= stores.len(),
            stores@ == old(stores)@,
            store_index(vs, ty_name@, i as int) == store_index(vs, ty_name@, 0),
        decreases stores.len() - i,
    {
        if str_eq(stores[i].0.as_str(), ty_name.as_str()) {
            let both = stores[i].1 || write;
            stores.set(i, (ty_name, both));
            assert(stores_view(stores@) =~= add_store(vs, ty_name@, write));
            return ;
        }
        i += 1;
    }
    stores.push((ty_name, write));
    assert(stores_view(stores@) =~= add_store(vs, ty_name@, write));
}

/// The stores that `func` depends on, with whether each must be mutable.
pub fn collect_store_types(func: &FnDef, module: &Module) -> (stores: Vec<(String, bool)>)
    ensures
        stores_view(stores@) == store_types(func@, module@),
{
    let ghost sets = effect_sets_view(module.effect_sets@);
    let ghost names = strs_view(func.effects@);
    let mut stores: Vec<(String, bool)> = Vec::new();
    assert(stores_view(stores@) =~= Seq::empty());
    let mut i: usize = 0;
    while i < func.effects.len()
        invariant
            named_stores(stores_view(stores@), sets, names, i as int) == named_stores(
                Seq::empty(),
                sets,
                names,
                0,
            ),
        decreases func.effects.len() - i,
    {
        if let Some(es) = find_set(&module.effect_sets, func.effects[i].as_str()) {
            let ghost effects = effects_view(es.effects@);
            let ghost start = stores_view(stores@);
            let mut j: usize = 0;
            while j < es.effects.len()
                invariant
                    set_stores(stores_view(stores@), effects, j as int) == set_stores(
                        start,
                        effects,
                        0,
                    ),
                decreases es.effects.len() - j,
            {
                let effect = &es.effects[j];
                match effect.kind {
                    EffectKind::Sends => {},
                    EffectKind::Writes => {
                        note_store(&mut stores, store_target_to_type(effect.target.as_str()), true);
                    },
                    EffectKind::Reads => {
                        note_store(
                            &mut stores,
                            store_target_to_type(effect.target.as_str()),
                            false,
                        );
                    },
                }
                j += 1;
            }
        }
        i += 1;
    }
    stores
}

/// Whether one of the first `n` patterns is a keyword.
pub open spec fn any_keyword(ps: Seq<PatternView>, n: int) -> bool
    decreases n,
{
    if n <= 0 || n > ps.len() {
        false
    } else {
        ps[n - 1] is Keyword || any_keyword(ps, n - 1)
    }
}

/// Whether a pattern matches a store error by its keyword.
pub open spec fn store_error_pattern(p: PatternView) -> bool {
    p matches PatternView::Constructor { name, args, .. } && name == "err"@ && any_keyword(
        args,
        args.len() as int,
    )
}

/// Whether one of the first `n` arms matches a store error by its keyword,
/// so that the emitted match needs an arm for the other store errors.
pub open spec fn needs_catchall(arms: Seq<MatchArmView>, n: int) -> bool
    decreases n,
{
    if n <= 0 || n > arms.len() {
        false
    } else {
        store_error_pattern(arms[n - 1].pattern) || needs_catchall(arms, n - 1)
    }
}

/// Whether the match with these arms needs a catch-all arm for store errors.
pub fn needs_err_catchall(arms: &Vec<MatchArm>) -> (r: bool)
    ensures
        r == needs_catchall(arms_view(arms@), arms@.len() as int),
{
    let ghost vs = arms_view(arms@);
    let mut i: usize = arms.len();
    while i > 0
        invariant
            i <= arms.len(),
            needs_catchall(vs, arms@.len() as int) == needs_catchall(vs, i as int),
        decreases i,
    {
        if let Pattern::Constructor { name, args, .. } = &arms[i - 1].pattern {
            if str_eq(name.as_str(), "err") {
                let ghost ps = patterns_view(args@);
                let mut found = false;
                let mut j: usize = 0;
                while j < args.len()
                    invariant
                        j <= args.len(),
                        found == any_keyword(ps, j as int),
                    decreases args.len() - j,
                {
                    if let Pattern::Keyword(_, _) = &args[j] {
                        found = true;
                    }
                    j += 1;
                }
                if found {
                    return true;
                }
            }
        }
        i -= 1;
    }
    false
}

/// `acc` followed by the target pattern for `p`. An `err` pattern whose
/// first argument is a keyword matches the store error of that name.
pub open spec fn pattern_text(acc: Seq<char>, p: PatternView) -> Seq<char>
    decreases p, 0nat,
{
    match p {
        PatternView::Wildcard(_) => acc.push('_'),
        PatternView::Var(name, _) => acc + snake(name),
        PatternView::Keyword(kw, _) => (acc.push('"') + kw).push('"'),
        PatternView::Constructor { name, args, .. } => if name == "ok"@ {
            std_pattern(acc + "Ok("@, args)
        } else if name == "some"@ {
            std_pattern(acc + "Some("@, args)
        } else if name == "err"@ {
            if args.len() > 0 && args[0] is Keyword {
                (acc + "Err("@ + "StoreError::"@ + pascal(args[0]->Keyword_0, true) + " { .. }"@).push(
                    ')',
                )
            } else {
                std_pattern(acc + "Err("@, args)
            }
        } else if name == "none"@ {
            acc + "None"@
        } else if args.len() > 0 {
            pattern_list(acc + pascal(name, true) + "("@, args, 0).push(')')
        } else {
            acc + pascal(name, true)
        },
    }
}

pub open spec fn std_pattern(acc: Seq<char>, args: Seq<PatternView>) -> Seq<char>
    decreases args, args.len() + 1,
{
    if args.len() == 0 {
        acc.push('_').push(')')
    } else {
        pattern_list(acc, args, 0).push(')')
    }
}

pub open spec fn pattern_list(acc: Seq<char>, args: Seq<PatternView>, i: int) -> Seq<char>
    decreases args, left(args.len(), i),
{
    if 0 <= i < args.len() {
        let sep = if i > 0 {
            acc + ", "@
        } else {
            acc
        };
        pattern_list(pattern_text(sep, args[i]), args, i + 1)
    } else {
        acc
    }
}

/// The keyword that the first pattern is, if it is one.
fn first_keyword(args: &Vec<Pattern>) -> (r: Option<&str>)
    ensures
        match r {
            Some(kw) => args@.len() > 0 && patterns_view(args@)[0] is Keyword && patterns_view(
                args@,
            )[0]->Keyword_0 == kw@,
            None => !(args@.len() > 0 && patterns_view(args@)[0] is Keyword),
        },
{
    if args.len() > 0 {
        match &args[0] {
            Pattern::Keyword(kw, _) => Some(kw.as_str()),
            _ => None,
        }
    } else {
        None
    }
}

fn emit_pattern(out: &mut String, pattern: &Pattern)
    ensures
        final(out)@ == pattern_text(old(out)@, pattern@),
    decreases pattern,
{
    match pattern {
        Pattern::Wildcard(_) => {
            out.push('_');
        },
        Pattern::Var(name, _) => {
            let n = snake_case(name.as_str());
            out.append(n.as_str());
        },
        Pattern::Keyword(kw, _) => {
            out.push('"');
            out.append(kw.as_str());
            out.push('"');
        },
        Pattern::Constructor { name, args, .. } => {
            let n = name.as_str();
            if str_eq(n, "ok") {
                out.append("Ok(");
                emit_std_pattern(out, args);
            } else if str_eq(n, "some") {
                out.append("Some(");
                emit_std_pattern(out, args);
            } else if str_eq(n, "err") {
                out.append("Err(");
                match first_keyword(args) {
                    Some(kw) => {
                        let variant = to_pascal(kw);
                        out.append("StoreError::");
                        out.append(variant.as_str());
                        out.append(" { .. }");
                        out.push(')');
                    },
                    None => {
                        emit_std_pattern(out, args);
                    },
                }
            } else if str_eq(n, "none") {
                out.append("None");
            } else {
                let p = to_pascal(n);
                out.append(p.as_str());
                if args.len() > 0 {
                    out.append("(");
                    assert(out@ =~= old(out)@ + pascal(name@, true) + "("@);
                    emit_pattern_list(out, args);
                    out.push(')');
                }
            }
        },
    }
}

fn emit_std_pattern(out: &mut String, args: &Vec<Pattern>)
    ensures
        final(out)@ == std_pattern(old(out)@, patterns_view(args@)),
    decreases args, 1nat,
{
    if args.len() == 0 {
        out.push('_');
    } else {
        emit_pattern_list(out, args);
    }
    out.push(')');
}

fn emit_pattern_list(out: &mut String, args: &Vec<Pattern>)
    ensures
        final(out)@ == pattern_list(old(out)@, patterns_view(args@), 0),
    decreases args, 0nat,
{
    let ghost vs = patterns_view(args@);
    let mut i: usize = 0;
    while i < args.len()
        invariant
            pattern_list(out@, vs, i as int) == pattern_list(old(out)@, vs, 0),
        decreases args.len() - i,
    {
        if i > 0 {
            out.append(", ");
        }
        emit_pattern(out, &args[i]);
        i += 1;
    }
}


/// What the emission of a function body depends on besides the body.
pub ghost struct Context {
    /// Name of the function's result enum.
    pub rt: Seq<char>,
    pub func: FnDefView,
    pub types: Seq<TypeDefView>,
}

/// The payload of the first error variant tagged `tag` from `i` on.
pub open spec fn failure_payload(vs: Seq<VariantView>, tag: Seq<char>, i: int) -> Option<TypeView>
    decreases left(vs.len(), i),
{
    if 0 <= i < vs.len() {
        match vs[i].kind {
            VariantKindView::Failure { tag: t, payload, .. } => if t == tag {
                Some(payload)
            } else {
                failure_payload(vs, tag, i + 1)
            },
            _ => failure_payload(vs, tag, i + 1),
        }
    } else {
        None
    }
}

/// The declared type of the first field named `key` from `i` on.
pub open spec fn declared_type(fields: Seq<(Seq<char>, TypeView)>, key: Seq<char>, i: int) -> Option<
    TypeView,
>
    decreases left(fields.len(), i),
{
    if 0 <= i < fields.len() {
        if fields[i].0 == key {
            Some(fields[i].1)
        } else {
            declared_type(fields, key, i + 1)
        }
    } else {
        None
    }
}

/// The conversion that follows the value of a named field: where the field
/// is a `String`, a reference is converted to text and a field access is cloned.
pub open spec fn conversion(
    key: Seq<char>,
    val: ExprView,
    fields: Seq<(Seq<char>, TypeView)>,
    cx: Context,
) -> Seq<char> {
    match declared_type(fields, key, 0) {
        Some(t) => if field_type(key, t, cx.types, cx.func) == "String"@ {
            if val is Ref {
                ".to_string()"@
            } else if val is FieldAccess {
                ".clone()"@
            } else {
                ""@
            }
        } else {
            ""@
        },
        None => ""@,
    }
}

/// Name of a callee without its `?` and `!`.
pub open spec fn unmarked_from(s: Seq<char>, i: int, acc: Seq<char>) -> Seq<char>
    decreases left(s.len(), i),
{
    if 0 <= i < s.len() {
        unmarked_from(
            s,
            i + 1,
            if s[i] == '?' || s[i] == '!' {
                acc
            } else {
                acc.push(s[i])
            },
        )
    } else {
        acc
    }
}

pub open spec fn unmarked(name: Seq<char>) -> Seq<char> {
    unmarked_from(name, 0, Seq::empty())
}

/// `acc` followed by `e` as an expression inside a line.
pub open spec fn inline_text(acc: Seq<char>, e: ExprView, ind: Seq<char>, cx: Context) -> Seq<char>
    decreases e, 0nat,
{
    match e {
        ExprView::Ref(name, _) => acc + snake(name),
        ExprView::Keyword(kw, _) => (acc.push('"') + kw).push('"'),
        ExprView::StringLit(s, _) => (acc.push('"') + s).push('"'),
        ExprView::IntLit(n, _) => acc + dec_int(n as int),
        ExprView::BoolLit(b, _) => if b {
            acc + "true"@
        } else {
            acc + "false"@
        },
        ExprView::Success(inner, _) => inline_text(acc + cx.rt + "::Ok("@, *inner, ind, cx).push(
            ')',
        ),
        ExprView::Failure { tag, payload, .. } => match failure_payload(
            cx.func.returns.variants,
            tag,
            0,
        ) {
            Some(TypeView::Mapping(fields)) => {
                let s = acc + cx.rt + "::"@ + pascal(tag, true) + " { "@;
                let s = match *payload {
                    ExprView::MapLit(entries, _) => failure_fields(s, entries, 0, fields, ind, cx),
                    _ => s,
                };
                s + " }"@
            },
            _ => inline_text(acc + cx.rt + "::"@ + pascal(tag, true) + "("@, *payload, ind, cx).push(
                ')',
            ),
        },
        ExprView::Call { name, args, .. } => call_text(acc, name, args, ind, cx),
        ExprView::FieldAccess { expr, field, .. } => inline_text(acc, *expr, ind, cx).push('.')
            + snake(field),
        ExprView::MapLit(entries, _) => inline_entries(acc + "{ "@, entries, 0, ind, cx) + " }"@,
        ExprView::Wildcard(_) => acc.push('_'),
        ExprView::Let { bindings, body, .. } => {
            let s = let_lines(acc + "{\n"@, bindings, 0, deeper(ind), cx);
            let s = inline_text(s + deeper(ind), *body, deeper(ind), cx).push('\n');
            (s + ind).push('}')
        },
        ExprView::Match { expr, arms, .. } => {
            let s = inline_text(acc + "match "@, *expr, ind, cx) + " {\n"@;
            let s = catchall(arm_lines(s, arms, 0, deeper(ind), cx), arms, deeper(ind));
            (s + ind).push('}')
        },
        ExprView::If { cond, then_branch, else_branch, .. } => {
            let s = inline_text(acc + "if "@, *cond, ind, cx) + " { "@;
            let s = inline_text(s, *then_branch, ind, cx) + " } else { "@;
            inline_text(s, *else_branch, ind, cx) + " }"@
        },
    }
}

/// The arm that catches the store errors that no arm names.
pub open spec fn catchall(acc: Seq<char>, arms: Seq<MatchArmView>, ind: Seq<char>) -> Seq<char> {
    if needs_catchall(arms, arms.len() as int) {
        acc + ind + "Err(e) => panic!(\"unexpected store error: {:?}\", e),\n"@
    } else {
        acc
    }
}

/// The named fields of an error value from `i` on.
pub open spec fn failure_fields(
    acc: Seq<char>,
    entries: Seq<(Seq<char>, ExprView)>,
    i: int,
    fields: Seq<(Seq<char>, TypeView)>,
    ind: Seq<char>,
    cx: Context,
) -> Seq<char>
    decreases entries, left(entries.len(), i),
{
    if 0 <= i < entries.len() {
        let sep = if i > 0 {
            acc + ", "@
        } else {
            acc
        };
        failure_fields(
            inline_text(sep + snake(entries[i].0) + ": "@, entries[i].1, ind, cx) + conversion(
                entries[i].0,
                entries[i].1,
                fields,
                cx,
            ),
            entries,
            i + 1,
            fields,
            ind,
            cx,
        )
    } else {
        acc
    }
}

pub open spec fn inline_list(acc: Seq<char>, es: Seq<ExprView>, i: int, ind: Seq<char>, cx: Context) -> Seq<
    char,
>
    decreases es, left(es.len(), i),
{
    if 0 <= i < es.len() {
        let sep = if i > 0 {
            acc + ", "@
        } else {
            acc
        };
        inline_list(inline_text(sep, es[i], ind, cx), es, i + 1, ind, cx)
    } else {
        acc
    }
}

pub open spec fn inline_entries(
    acc: Seq<char>,
    ps: Seq<(Seq<char>, ExprView)>,
    i: int,
    ind: Seq<char>,
    cx: Context,
) -> Seq<char>
    decreases ps, left(ps.len(), i),
{
    if 0 <= i < ps.len() {
        let sep = if i > 0 {
            acc + ", "@
        } else {
            acc
        };
        inline_entries(inline_text(sep + snake(ps[i].0) + ": "@, ps[i].1, ind, cx), ps, i + 1, ind, cx)
    } else {
        acc
    }
}

pub open spec fn let_lines(
    acc: Seq<char>,
    ps: Seq<(Seq<char>, ExprView)>,
    i: int,
    ind: Seq<char>,
    cx: Context,
) -> Seq<char>
    decreases ps, left(ps.len(), i),
{
    if 0 <= i < ps.len() {
        let_lines(
            inline_text(acc + ind + "let "@ + snake(ps[i].0) + " = "@, ps[i].1, ind, cx) + ";\n"@,
            ps,
            i + 1,
            ind,
            cx,
        )
    } else {
        acc
    }
}

pub open spec fn arm_lines(acc: Seq<char>, arms: Seq<MatchArmView>, i: int, ind: Seq<char>, cx: Context) -> Seq<
    char,
>
    decreases arms, left(arms.len(), i),
{
    if 0 <= i < arms.len() {
        arm_lines(
            inline_text(pattern_text(acc + ind, arms[i].pattern) + " => "@, arms[i].body, ind, cx)
                + ",\n"@,
            arms,
            i + 1,
            ind,
            cx,
        )
    } else {
        acc
    }
}

/// The value of the first entry keyed `id` from `i` on, borrowed.
pub open spec fn id_argument(
    acc: Seq<char>,
    entries: Seq<(Seq<char>, ExprView)>,
    i: int,
    ind: Seq<char>,
    cx: Context,
) -> Seq<char>
    decreases entries, left(entries.len(), i),
{
    if 0 <= i < entries.len() {
        if entries[i].0 == "id"@ {
            inline_text(acc.push('&'), entries[i].1, ind, cx)
        } else {
            id_argument(acc, entries, i + 1, ind, cx)
        }
    } else {
        acc
    }
}

/// The argument at `k`, if there is one.
pub open spec fn argument(acc: Seq<char>, args: Seq<ExprView>, k: int, ind: Seq<char>, cx: Context) -> Seq<
    char,
>
    decreases args, 0nat,
{
    if 0 <= k < args.len() {
        inline_text(acc, args[k], ind, cx)
    } else {
        acc
    }
}

/// A call: the built-ins of the runtime are rewritten, any other callee is
/// called by its name in snake case.
pub open spec fn call_text(
    acc: Seq<char>,
    name: Seq<char>,
    args: Seq<ExprView>,
    ind: Seq<char>,
    cx: Context,
) -> Seq<char>
    decreases args, args.len() + 1,
{
    let clean = unmarked(name);
    if clean == "validate-uuid"@ || clean == "validate_uuid"@ {
        inline_list(acc + "validate_uuid("@, args, 0, ind, cx).push(')')
    } else if clean == "query"@ {
        (if args.len() > 1 {
            match args[1] {
                ExprView::MapLit(entries, _) => id_argument(
                    acc + "store.query_by_id("@,
                    entries,
                    0,
                    ind,
                    cx,
                ),
                _ => acc + "store.query_by_id("@,
            }
        } else {
            acc + "store.query_by_id("@
        }).push(')')
    } else if clean == "insert"@ {
        argument(acc + "store.insert("@, args, 1, ind, cx).push(')')
    } else if clean == "build"@ && args.len() > 0 && args[0] is Ref {
        let s = acc + args[0]->Ref_0 + "::from_input("@;
        (if args.len() > 1 {
            inline_text(s, args[1], ind, cx) + ".clone()"@
        } else {
            s
        }).push(')')
    } else if (clean == "validate-against"@ || clean == "validate_against"@) && args.len() > 0
        && args[0] is Ref {
        argument(acc + args[0]->Ref_0 + "::validate_input(&"@, args, 1, ind, cx).push(')')
    } else if clean == "non-empty"@ || clean == "non_empty"@ {
        argument(acc + "non_empty(&"@, args, 0, ind, cx).push(')')
    } else {
        inline_list((acc + snake(name)).push('('), args, 0, ind, cx).push(')')
    }
}

/// `acc` followed by `e` as statements at the indentation `ind`.
pub open spec fn block_text(acc: Seq<char>, e: ExprView, ind: Seq<char>, cx: Context) -> Seq<char>
    decreases e, 1nat,
{
    match e {
        ExprView::Let { bindings, body, .. } => block_text(
            let_lines(acc, bindings, 0, ind, cx),
            *body,
            ind,
            cx,
        ),
        ExprView::Match { expr, arms, .. } => {
            let s = inline_text(acc + ind + "match "@, *expr, ind, cx) + " {\n"@;
            let s = catchall(arm_lines(s, arms, 0, deeper(ind), cx), arms, deeper(ind));
            s + ind + "}\n"@
        },
        ExprView::If { cond, then_branch, else_branch, .. } => {
            let s = inline_text(acc + ind + "if "@, *cond, ind, cx) + " {\n"@;
            let s = block_text(s, *then_branch, deeper(ind), cx);
            let s = s + ind + "} else {\n"@;
            let s = block_text(s, *else_branch, deeper(ind), cx);
            s + ind + "}\n"@
        },
        _ => inline_text(acc + ind, e, ind, cx).push('\n'),
    }
}


/// What the emission of a function body depends on besides the body.
pub struct EmitCtx<'a> {
    pub return_type: &'a str,
    pub func: &'a FnDef,
    pub type_defs: &'a Vec<TypeDef>,
}

impl<'a> EmitCtx<'a> {
    pub open spec fn cx(&self) -> Context {
        Context {
            rt: self.return_type@,
            func: self.func@,
            types: typedefs_view(self.type_defs@),
        }
    }
}

fn clean_name(name: &str) -> (r: String)
    ensures
        r@ == unmarked(name@),
{
    let chars = chars_of(name);
    let mut r = String::new();
    let mut i: usize = 0;
    while i < chars.len()
        invariant
            i <= chars.len(),
            unmarked_from(chars@, i as int, r@) == unmarked_from(chars@, 0, Seq::empty()),
        decreases chars.len() - i,
    {
        if chars[i] != '?' && chars[i] != '!' {
            r.push(chars[i]);
        }
        i += 1;
    }
    r
}

fn find_failure_payload<'a>(variants: &'a Vec<Variant>, tag: &str) -> (r: Option<&'a TypeExpr>)
    ensures
        match r {
            Some(t) => failure_payload(variants_view(variants@), tag@, 0) == Some(t@),
            None => failure_payload(variants_view(variants@), tag@, 0).is_none(),
        },
{
    let ghost vs = variants_view(variants@);
    let mut i: usize = 0;
    while i < variants.len()
        invariant
            i <= variants.len(),
            failure_payload(vs, tag@, i as int) == failure_payload(vs, tag@, 0),
        decreases variants.len() - i,
    {
        if let VariantKind::Failure { tag: t, payload, .. } = &variants[i].kind {
            if str_eq(t.as_str(), tag) {
                return Some(payload);
            }
        }
        i += 1;
    }
    None
}

fn find_declared<'a>(fields: &'a Vec<(String, TypeExpr)>, key: &str) -> (r: Option<&'a TypeExpr>)
    ensures
        match r {
            Some(t) => declared_type(type_fields_view(fields@), key@, 0) == Some(t@),
            None => declared_type(type_fields_view(fields@), key@, 0).is_none(),
        },
{
    let ghost vs = type_fields_view(fields@);
    let mut i: usize = 0;
    while i < fields.len()
        invariant
            i <= fields.len(),
            declared_type(vs, key@, i as int) == declared_type(vs, key@, 0),
        decreases fields.len() - i,
    {
        if str_eq(fields[i].0.as_str(), key) {
            return Some(&fields[i].1);
        }
        i += 1;
    }
    None
}

fn conversion_text(key: &str, val: &Expr, fields: &Vec<(String, TypeExpr)>, ctx: &EmitCtx) -> (r:
    &'static str)
    ensures
        r@ == conversion(key@, val@, type_fields_view(fields@), ctx.cx()),
{
    match find_declared(fields, key) {
        Some(t) => {
            let ty = resolve_field_type(key, t, ctx.type_defs, ctx.func);
            if str_eq(ty.as_str(), "String") {
                match val {
                    Expr::Ref(_, _) => ".to_string()",
                    Expr::FieldAccess { .. } => ".clone()",
                    _ => "",
                }
            } else {
                ""
            }
        },
        None => "",
    }
}

/// The entries of a map literal.
fn map_entries(e: &Expr) -> (r: Option<&Vec<(String, Expr)>>)
    ensures
        match r {
            Some(entries) => e@ is MapLit && e@->MapLit_0 == bindings_view(entries@) && *e
                == Expr::MapLit(*entries, e->MapLit_1),
            None => !(e@ is MapLit),
        },
{
    match e {
        Expr::MapLit(entries, _) => Some(entries),
        _ => None,
    }
}

/// The fields of a map type.
fn mapping_fields(t: &TypeExpr) -> (r: Option<&Vec<(String, TypeExpr)>>)
    ensures
        match r {
            Some(fields) => t@ == TypeView::Mapping(type_fields_view(fields@)),
            None => !(t@ is Mapping),
        },
{
    match t {
        TypeExpr::Mapping(fields) => Some(fields),
        _ => None,
    }
}

/// The name of the type that the first argument refers to.
fn first_ref(args: &Vec<Expr>) -> (r: Option<&str>)
    ensures
        match r {
            Some(t) => args@.len() > 0 && exprs_view(args@)[0] is Ref && exprs_view(
                args@,
            )[0]->Ref_0 == t@,
            None => !(args@.len() > 0 && exprs_view(args@)[0] is Ref),
        },
{
    if args.len() > 0 {
        match &args[0] {
            Expr::Ref(target, _) => Some(target.as_str()),
            _ => None,
        }
    } else {
        None
    }
}

/// The entries of the map literal that the second argument is.
fn second_map(args: &Vec<Expr>) -> (r: Option<&Vec<(String, Expr)>>)
    ensures
        match r {
            Some(entries) => args@.len() > 1 && exprs_view(args@)[1] is MapLit && exprs_view(
                args@,
            )[1]->MapLit_0 == bindings_view(entries@) && args@[1] == Expr::MapLit(
                *entries,
                args@[1]->MapLit_1,
            ),
            None => !(args@.len() > 1 && exprs_view(args@)[1] is MapLit),
        },
{
    if args.len() > 1 {
        match &args[1] {
            Expr::MapLit(entries, _) => Some(entries),
            _ => None,
        }
    } else {
        None
    }
}

fn emit_expr_inline(out: &mut String, expr: &Expr, ind: &str, ctx: &EmitCtx)
    ensures
        final(out)@ == inline_text(old(out)@, expr@, ind@, ctx.cx()),
    decreases expr, 0nat,
{
    match expr {
        Expr::Ref(name, _) => {
            let n = snake_case(name.as_str());
            out.append(n.as_str());
        },
        Expr::Keyword(kw, _) => {
            out.push('"');
            out.append(kw.as_str());
            out.push('"');
        },
        Expr::StringLit(s, _) => {
            out.push('"');
            out.append(s.as_str());
            out.push('"');
        },
        Expr::IntLit(n, _) => {
            push_i64(out, *n);
        },
        Expr::BoolLit(b, _) => {
            if *b {
                out.append("true");
            } else {
                out.append("false");
            }
        },
        Expr::Success(inner, _) => {
            out.append(ctx.return_type);
            out.append("::Ok(");
            emit_expr_inline(out, inner, ind, ctx);
            out.push(')');
        },
        Expr::Failure { tag, payload, .. } => {
            let variant = to_pascal(tag.as_str());
            let declared = find_failure_payload(&ctx.func.returns.variants, tag.as_str());
            let named: Option<&Vec<(String, TypeExpr)>> = match declared {
                Some(t) => mapping_fields(t),
                None => None,
            };
            out.append(ctx.return_type);
            out.append("::");
            out.append(variant.as_str());
            match named {
                Some(fields) => {
                    out.append(" { ");
                    if let Some(entries) = map_entries(payload) {
                        let ghost vs = bindings_view(entries@);
                        let ghost fs = type_fields_view(fields@);
                        let ghost start = out@;
                        let mut i: usize = 0;
                        while i < entries.len()
                            invariant
                                failure_fields(out@, vs, i as int, fs, ind@, ctx.cx())
                                    == failure_fields(start, vs, 0, fs, ind@, ctx.cx()),
                            decreases entries.len() - i,
                        {
                            if i > 0 {
                                out.append(", ");
                            }
                            let key = snake_case(entries[i].0.as_str());
                            out.append(key.as_str());
                            out.append(": ");
                            emit_expr_inline(out, &entries[i].1, ind, ctx);
                            out.append(
                                conversion_text(entries[i].0.as_str(), &entries[i].1, fields, ctx),
                            );
                            i += 1;
                        }
                    }
                    out.append(" }");
                },
                None => {
                    out.append("(");
                    emit_expr_inline(out, payload, ind, ctx);
                    out.push(')');
                },
            }
        },
        Expr::Call { name, args, .. } => {
            emit_call(out, name.as_str(), args, ind, ctx);
        },
        Expr::FieldAccess { expr: inner, field, .. } => {
            emit_expr_inline(out, inner, ind, ctx);
            out.push('.');
            let f = snake_case(field.as_str());
            out.append(f.as_str());
        },
        Expr::MapLit(entries, _) => {
            out.append("{ ");
            let ghost vs = bindings_view(entries@);
            let ghost start = out@;
            let mut i: usize = 0;
            while i < entries.len()
                invariant
                    inline_entries(out@, vs, i as int, ind@, ctx.cx()) == inline_entries(
                        start,
                        vs,
                        0,
                        ind@,
                        ctx.cx(),
                    ),
                decreases entries.len() - i,
            {
                if i > 0 {
                    out.append(", ");
                }
                let k = snake_case(entries[i].0.as_str());
                out.append(k.as_str());
                out.append(": ");
                emit_expr_inline(out, &entries[i].1, ind, ctx);
                i += 1;
            }
            out.append(" }");
        },
        Expr::Wildcard(_) => {
            out.push('_');
        },
        Expr::Let { bindings, body, .. } => {
            let inner = indent_more(ind);
            out.append("{\n");
            emit_let_lines(out, bindings, inner.as_str(), ctx);
            out.append(inner.as_str());
            emit_expr_inline(out, body, inner.as_str(), ctx);
            out.push('\n');
            out.append(ind);
            out.push('}');
        },
        Expr::Match { expr: scrutinee, arms, .. } => {
            let inner = indent_more(ind);
            out.append("match ");
            emit_expr_inline(out, scrutinee, ind, ctx);
            out.append(" {\n");
            emit_arm_lines(out, arms, inner.as_str(), ctx);
            emit_catchall(out, arms, inner.as_str());
            out.append(ind);
            out.push('}');
        },
        Expr::If { cond, then_branch, else_branch, .. } => {
            out.append("if ");
            emit_expr_inline(out, cond, ind, ctx);
            out.append(" { ");
            emit_expr_inline(out, then_branch, ind, ctx);
            out.append(" } else { ");
            emit_expr_inline(out, else_branch, ind, ctx);
            out.append(" }");
        },
    }
}

fn emit_catchall(out: &mut String, arms: &Vec<MatchArm>, ind: &str)
    ensures
        final(out)@ == catchall(old(out)@, arms_view(arms@), ind@),
{
    if needs_err_catchall(arms) {
        out.append(ind);
        out.append("Err(e) => panic!(\"unexpected store error: {:?}\", e),\n");
    }
}

fn emit_args(out: &mut String, args: &Vec<Expr>, ind: &str, ctx: &EmitCtx)
    ensures
        final(out)@ == inline_list(old(out)@, exprs_view(args@), 0, ind@, ctx.cx()),
    decreases args, 0nat,
{
    let ghost vs = exprs_view(args@);
    let mut i: usize = 0;
    while i < args.len()
        invariant
            inline_list(out@, vs, i as int, ind@, ctx.cx()) == inline_list(
                old(out)@,
                vs,
                0,
                ind@,
                ctx.cx(),
            ),
        decreases args.len() - i,
    {
        if i > 0 {
            out.append(", ");
        }
        emit_expr_inline(out, &args[i], ind, ctx);
        i += 1;
    }
}

fn emit_argument(out: &mut String, args: &Vec<Expr>, k: usize, ind: &str, ctx: &EmitCtx)
    ensures
        final(out)@ == argument(old(out)@, exprs_view(args@), k as int, ind@, ctx.cx()),
    decreases args, 0nat,
{
    if k < args.len() {
        emit_expr_inline(out, &args[k], ind, ctx);
    }
}

fn emit_call(out: &mut String, name: &str, args: &Vec<Expr>, ind: &str, ctx: &EmitCtx)
    ensures
        final(out)@ == call_text(old(out)@, name@, exprs_view(args@), ind@, ctx.cx()),
    decreases args, 1nat,
{
    let clean = clean_name(name);
    let c = clean.as_str();
    if str_eq(c, "validate-uuid") || str_eq(c, "validate_uuid") {
        out.append("validate_uuid(");
        emit_args(out, args, ind, ctx);
        out.push(')');
    } else if str_eq(c, "query") {
        out.append("store.query_by_id(");
        if let Some(entries) = second_map(args) {
            let ghost vs = bindings_view(entries@);
            let ghost start = out@;
            let mut i: usize = 0;
            let mut done = false;
            while !done && i < entries.len()
                invariant
                    i <= entries.len(),
                    !done ==> id_argument(out@, vs, i as int, ind@, ctx.cx()) == id_argument(
                        start,
                        vs,
                        0,
                        ind@,
                        ctx.cx(),
                    ),
                    done ==> out@ == id_argument(start, vs, 0, ind@, ctx.cx()),
                decreases entries.len() - i + if done { 0int } else { 1int },
            {
                if str_eq(entries[i].0.as_str(), "id") {
                    out.push('&');
                    emit_expr_inline(out, &entries[i].1, ind, ctx);
                    done = true;
                } else {
                    i += 1;
                }
            }
        }
        out.push(')');
    } else if str_eq(c, "insert") {
        out.append("store.insert(");
        emit_argument(out, args, 1, ind, ctx);
        out.push(')');
    } else if str_eq(c, "build") && first_ref(args).is_some() {
        if let Some(ty_name) = first_ref(args) {
            out.append(ty_name);
            out.append("::from_input(");
            if args.len() > 1 {
                emit_expr_inline(out, &args[1], ind, ctx);
                out.append(".clone()");
            }
            out.push(')');
        }
    } else if (str_eq(c, "validate-against") || str_eq(c, "validate_against")) && first_ref(
        args,
    ).is_some() {
        if let Some(ty_name) = first_ref(args) {
            out.append(ty_name);
            out.append("::validate_input(&");
            emit_argument(out, args, 1, ind, ctx);
            out.push(')');
        }
    } else if str_eq(c, "non-empty") || str_eq(c, "non_empty") {
        out.append("non_empty(&");
        emit_argument(out, args, 0, ind, ctx);
        out.push(')');
    } else {
        let n = snake_case(name);
        out.append(n.as_str());
        out.push('(');
        emit_args(out, args, ind, ctx);
        out.push(')');
    }
}

fn emit_let_lines(out: &mut String, bindings: &Vec<(String, Expr)>, ind: &str, ctx: &EmitCtx)
    ensures
        final(out)@ == let_lines(old(out)@, bindings_view(bindings@), 0, ind@, ctx.cx()),
    decreases bindings,
{
    let ghost vs = bindings_view(bindings@);
    let mut i: usize = 0;
    while i < bindings.len()
        invariant
            let_lines(out@, vs, i as int, ind@, ctx.cx()) == let_lines(
                old(out)@,
                vs,
                0,
                ind@,
                ctx.cx(),
            ),
        decreases bindings.len() - i,
    {
        let name = snake_case(bindings[i].0.as_str());
        out.append(ind);
        out.append("let ");
        out.append(name.as_str());
        out.append(" = ");
        emit_expr_inline(out, &bindings[i].1, ind, ctx);
        out.append(";\n");
        i += 1;
    }
}

fn emit_arm_lines(out: &mut String, arms: &Vec<MatchArm>, ind: &str, ctx: &EmitCtx)
    ensures
        final(out)@ == arm_lines(old(out)@, arms_view(arms@), 0, ind@, ctx.cx()),
    decreases arms,
{
    let ghost vs = arms_view(arms@);
    let mut i: usize = 0;
    while i < arms.len()
        invariant
            arm_lines(out@, vs, i as int, ind@, ctx.cx()) == arm_lines(
                old(out)@,
                vs,
                0,
                ind@,
                ctx.cx(),
            ),
        decreases arms.len() - i,
    {
        out.append(ind);
        emit_pattern(out, &arms[i].pattern);
        out.append(" => ");
        emit_expr_inline(out, &arms[i].body, ind, ctx);
        out.append(",\n");
        i += 1;
    }
}

fn emit_expr(out: &mut String, expr: &Expr, ind: &str, ctx: &EmitCtx)
    ensures
        final(out)@ == block_text(old(out)@, expr@, ind@, ctx.cx()),
    decreases expr, 1nat,
{
    match expr {
        Expr::Let { bindings, body, .. } => {
            emit_let_lines(out, bindings, ind, ctx);
            emit_expr(out, body, ind, ctx);
        },
        Expr::Match { expr: scrutinee, arms, .. } => {
            let inner = indent_more(ind);
            out.append(ind);
            out.append("match ");
            emit_expr_inline(out, scrutinee, ind, ctx);
            out.append(" {\n");
            emit_arm_lines(out, arms, inner.as_str(), ctx);
            emit_catchall(out, arms, inner.as_str());
            out.append(ind);
            out.append("}\n");
        },
        Expr::If { cond, then_branch, else_branch, .. } => {
            let inner = indent_more(ind);
            out.append(ind);
            out.append("if ");
            emit_expr_inline(out, cond, ind, ctx);
            out.append(" {\n");
            emit_expr(out, then_branch, inner.as_str(), ctx);
            out.append(ind);
            out.append("} else {\n");
            emit_expr(out, else_branch, inner.as_str(), ctx);
            out.append(ind);
            out.append("}\n");
        },
        _ => {
            out.append(ind);
            emit_expr_inline(out, expr, ind, ctx);
            out.push('\n');
        },
    }
}


/// The store parameters from `i` on; `first` tells that none was written yet.
pub open spec fn store_params(acc: Seq<char>, stores: Seq<(Seq<char>, bool)>, i: int, first: bool) -> Seq<
    char,
>
    decreases left(stores.len(), i),
{
    if 0 <= i < stores.len() {
        let sep = if first {
            acc
        } else {
            acc + ", "@
        };
        store_params(
            if stores[i].1 {
                sep + "store: &mut impl Store<"@ + stores[i].0 + ">"@
            } else {
                sep + "store: &impl Store<"@ + stores[i].0 + ">"@
            },
            stores,
            i + 1,
            false,
        )
    } else {
        acc
    }
}

/// The type of a parameter: the input record for a map, text for a UUID.
pub open spec fn param_type(p: ParamDefView, f: FnDefView) -> Seq<char> {
    if p.type_expr is Mapping {
        pascal(f.name, true) + "Input"@
    } else if is_named(p.type_expr, "UUID"@) {
        "&str"@
    } else {
        rust_type(p.type_expr)
    }
}

/// The function's own parameters from `i` on.
pub open spec fn own_params(acc: Seq<char>, f: FnDefView, i: int, first: bool) -> Seq<char>
    decreases left(f.params.len(), i),
{
    if 0 <= i < f.params.len() {
        let sep = if first {
            acc
        } else {
            acc + ", "@
        };
        own_params(
            sep + snake(f.params[i].name) + ": "@ + param_type(f.params[i], f),
            f,
            i + 1,
            false,
        )
    } else {
        acc
    }
}

/// One function: its doc comment, its signature with the stores first, and
/// its body.
pub open spec fn function(acc: Seq<char>, f: FnDefView, m: ModuleView) -> Seq<char> {
    let s = match f.provenance {
        Some(prov) => match prov.req {
            Some(req) => text_line(acc, ""@, "/// Spec: "@ + req),
            None => acc,
        },
        None => acc,
    };
    let s = if f.total {
        text_line(s, ""@, "/// Total: handles all cases exhaustively"@)
    } else {
        s
    };
    let stores = store_types(f, m);
    let s = store_params(s + "pub fn "@ + snake(f.name) + "("@, stores, 0, true);
    let s = own_params(s, f, 0, stores.len() == 0);
    let s = s + ") -> "@ + result_name(f) + " {\n"@;
    let s = block_text(
        s,
        f.body,
        "    "@,
        Context { rt: result_name(f), func: f, types: m.types },
    );
    text_line(s, ""@, "}"@)
}

fn param_type_text(param: &ParamDef, func: &FnDef) -> (r: String)
    ensures
        r@ == param_type(param@, func@),
{
    match &param.type_expr {
        TypeExpr::Mapping(_) => {
            let mut input = to_pascal(func.name.as_str());
            input.append("Input");
            input
        },
        _ => {
            if named_is(&param.type_expr, "UUID") {
                owned("&str")
            } else {
                type_expr_to_rust(&param.type_expr)
            }
        },
    }
}

/// Appends one function.
pub fn emit_function(out: &mut String, func: &FnDef, module: &Module)
    ensures
        final(out)@ == function(old(out)@, func@, module@),
{
    let mut return_type = to_pascal(func.name.as_str());
    return_type.append("Result");
    let stores = collect_store_types(func, module);
    if let Some(prov) = &func.provenance {
        if let Some(req) = &prov.req {
            emit2(out, "", "/// Spec: ", req.as_str());
        }
    }
    if func.total {
        emit1(out, "", "/// Total: handles all cases exhaustively");
    }
    let fn_name = snake_case(func.name.as_str());
    out.append("pub fn ");
    out.append(fn_name.as_str());
    out.append("(");
    let ghost ss = stores_view(stores@);
    let ghost start = out@;
    let mut first = true;
    let mut i: usize = 0;
    while i < stores.len()
        invariant
            i <= stores.len(),
            first == (i == 0),
            store_params(out@, ss, i as int, first) == store_params(start, ss, 0, true),
        decreases stores.len() - i,
    {
        if !first {
            out.append(", ");
        }
        if stores[i].1 {
            out.append("store: &mut impl Store<");
        } else {
            out.append("store: &impl Store<");
        }
        out.append(stores[i].0.as_str());
        out.append(">");
        first = false;
        i += 1;
    }
    let ghost f = func@;
    let ghost start = out@;
    let mut i: usize = 0;
    while i < func.params.len()
        invariant
            own_params(out@, f, i as int, first) == own_params(start, f, 0, stores@.len() == 0),
        decreases func.params.len() - i,
    {
        if !first {
            out.append(", ");
        }
        let param = &func.params[i];
        let name = snake_case(param.name.as_str());
        out.append(name.as_str());
        out.append(": ");
        let ty = param_type_text(param, func);
        out.append(ty.as_str());
        first = false;
        i += 1;
    }
    out.append(") -> ");
    out.append(return_type.as_str());
    out.append(" {\n");
    let ctx = EmitCtx {
        return_type: return_type.as_str(),
        func,
        type_defs: &module.types,
    };
    emit_expr(out, &func.body, "    ", &ctx);
    emit1(out, "", "}");
}

/// The whole file: the header, then every record and an empty line, every
/// input record, and every result enum and every function, each followed by
/// an empty line.
pub open spec fn generate_from(acc: Seq<char>, m: ModuleView) -> Seq<char> {
    let s = blank_line(header(acc, m));
    let s = all_types(s, m.types, 0);
    let s = all_inputs(s, m.functions, 0);
    let s = all_enums(s, m, 0);
    all_functions(s, m, 0)
}

/// The target source for a module.
pub open spec fn generate_spec(m: ModuleView) -> Seq<char> {
    generate_from(Seq::empty(), m)
}

pub open spec fn all_types(acc: Seq<char>, types: Seq<TypeDefView>, i: int) -> Seq<char>
    decreases left(types.len(), i),
{
    if 0 <= i < types.len() {
        all_types(blank_line(type_def(acc, types[i])), types, i + 1)
    } else {
        acc
    }
}

pub open spec fn all_inputs(acc: Seq<char>, fns: Seq<FnDefView>, i: int) -> Seq<char>
    decreases left(fns.len(), i),
{
    if 0 <= i < fns.len() {
        all_inputs(input_structs(acc, fns[i], 0), fns, i + 1)
    } else {
        acc
    }
}

pub open spec fn all_enums(acc: Seq<char>, m: ModuleView, i: int) -> Seq<char>
    decreases left(m.functions.len(), i),
{
    if 0 <= i < m.functions.len() {
        all_enums(blank_line(return_enum(acc, m.functions[i], m.types)), m, i + 1)
    } else {
        acc
    }
}

pub open spec fn all_functions(acc: Seq<char>, m: ModuleView, i: int) -> Seq<char>
    decreases left(m.functions.len(), i),
{
    if 0 <= i < m.functions.len() {
        all_functions(blank_line(function(acc, m.functions[i], m)), m, i + 1)
    } else {
        acc
    }
}

/// The second code generator.
pub struct RustV2Codegen {
    output: String,
}

impl RustV2Codegen {
    /// The text generated so far.
    pub closed spec fn text(&self) -> Seq<char> {
        self.output@
    }

    pub fn new() -> (g: RustV2Codegen)
        ensures
            g.text() == Seq::<char>::empty(),
    {
        RustV2Codegen { output: String::new() }
    }

    /// Appends the target source for `module` to the text generated so far
    /// and returns the whole; for a fresh generator that is
    /// `generate_spec(module@)`.
    pub fn generate(self, module: &Module) -> (r: String)
        ensures
            r@ == generate_from(self.text(), module@),
    {
        let mut out = self.output;
        let ghost m = module@;
        emit_header_top(&mut out, module);
        emit1(&mut out, "", "use pact_runtime::prelude::*;");
        emit1(&mut out, "", "use serde::{Serialize, Deserialize};");
        emit1(&mut out, "", "use std::fmt;");
        emit_blank(&mut out);
        let ghost start = out@;
        let mut i: usize = 0;
        while i < module.types.len()
            invariant
                all_types(out@, m.types, i as int) == all_types(start, m.types, 0),
            decreases module.types.len() - i,
        {
            emit_type_def(&mut out, &module.types[i]);
            emit_blank(&mut out);
            i += 1;
        }
        let ghost start = out@;
        let mut i: usize = 0;
        while i < module.functions.len()
            invariant
                all_inputs(out@, m.functions, i as int) == all_inputs(start, m.functions, 0),
            decreases module.functions.len() - i,
        {
            emit_input_structs(&mut out, &module.functions[i]);
            i += 1;
        }
        let ghost start = out@;
        let mut i: usize = 0;
        while i < module.functions.len()
            invariant
                all_enums(out@, m, i as int) == all_enums(start, m, 0),
            decreases module.functions.len() - i,
        {
            emit_return_enum(&mut out, &module.functions[i], &module.types);
            emit_blank(&mut out);
            i += 1;
        }
        let ghost start = out@;
        let mut i: usize = 0;
        while i < module.functions.len()
            invariant
                all_functions(out@, m, i as int) == all_functions(start, m, 0),
            decreases module.functions.len() - i,
        {
            emit_function(&mut out, &module.functions[i], module);
            emit_blank(&mut out);
            i += 1;
        }
        out
    }
}

} // verus!
