//! First code generator: records with a validation method, one trait per
//! effect set, one result enum per function, and the function bodies.

use vstd::prelude::*;
use vstd::string::StringExecFns;
use crate::ast::{Module, ModuleView, TypeDef, TypeDefView, FieldDef, FieldDefView, EffectSetDef,
    EffectSetView, Effect, EffectView, EffectKind, FnDef, FnDefView, ParamDef, ParamDefView,
    Variant, VariantView, VariantKind, VariantKindView, TypeExpr, TypeView, Expr, ExprView,
    MatchArm, MatchArmView, Pattern, PatternView, Provenance, ProvenanceView, InvariantExpr,
    InvariantView, exprs_view, bindings_view, arms_view, patterns_view, variants_view,
    type_fields_view, strs_view, effects_view, effect_sets_view, fndefs_view, typedefs_view,
    fields_view, params_view, invariants_view, opt_str_view, opt_prov_view};
use crate::names::{pascal, snake, to_pascal_with, to_snake as snake_case};
use crate::text::{blank_line, debug_list, debug_text, dec, dec_int, deeper, emit1, emit2, emit3,
    emit4, emit5, emit6, emit7, emit9, emit_blank, i64_text, indent_more, join, join_from, joined, left,
    owned, push_debug_list, push_i64, push_joined, str_eq, text_line, u64_text};

verus! {

broadcast use {crate::ast::group_ast_views};

/// Converts a kebab-case name to snake case, dropping `?` and `!`.
pub fn to_snake(name: &str) -> (r: String)
    ensures
        r@ == snake(name@),
{
    snake_case(name)
}

/// Converts a kebab-case name to Pascal case.
pub fn to_pascal(name: &str) -> (r: String)
    ensures
        r@ == pascal(name@, false),
{
    to_pascal_with(name, false)
}

/// The target name of a built-in type, or the name itself.
pub open spec fn named_type(name: Seq<char>) -> Seq<char> {
    if name == "UUID"@ {
        "Uuid"@
    } else if name == "String"@ {
        "String"@
    } else if name == "Int"@ {
        "i64"@
    } else if name == "Bool"@ {
        "bool"@
    } else if name == "Unit"@ {
        "()"@
    } else {
        name
    }
}

/// `acc` followed by the target type for `t`.
pub open spec fn type_text(acc: Seq<char>, t: TypeView) -> Seq<char>
    decreases t, 0nat,
{
    match t {
        TypeView::Named(name) => acc + named_type(name),
        TypeView::Mapping(fields) => type_fields_text(acc + "{ "@, fields, 0) + " }"@,
        TypeView::List(inner) => type_text(acc + "Vec<"@, *inner).push('>'),
        TypeView::Union(_) => acc + "UnionType"@,
        TypeView::Enum(tags) => join_from(acc + "/* enum: "@, tags, " | "@, 0) + " */"@,
    }
}

pub open spec fn type_fields_text(acc: Seq<char>, fields: Seq<(Seq<char>, TypeView)>, i: int) -> Seq<
    char,
>
    decreases fields, left(fields.len(), i),
{
    if 0 <= i < fields.len() {
        let sep = if i > 0 {
            acc + ", "@
        } else {
            acc
        };
        type_fields_text(type_text(sep + snake(fields[i].0) + ": "@, fields[i].1), fields, i + 1)
    } else {
        acc
    }
}

/// The target type for `t`.
pub open spec fn rust_type(t: TypeView) -> Seq<char> {
    type_text(Seq::empty(), t)
}

fn push_type(out: &mut String, type_expr: &TypeExpr)
    ensures
        final(out)@ == type_text(old(out)@, type_expr@),
    decreases type_expr,
{
    match type_expr {
        TypeExpr::Named(name) => {
            let n = name.as_str();
            if str_eq(n, "UUID") {
                out.append("Uuid");
            } else if str_eq(n, "String") {
                out.append("String");
            } else if str_eq(n, "Int") {
                out.append("i64");
            } else if str_eq(n, "Bool") {
                out.append("bool");
            } else if str_eq(n, "Unit") {
                out.append("()");
            } else {
                out.append(n);
            }
        },
        TypeExpr::Mapping(fields) => {
            out.append("{ ");
            let ghost vs = type_fields_view(fields@);
            let ghost start = out@;
            let mut i: usize = 0;
            while i < fields.len()
                invariant
                    type_fields_text(out@, vs, i as int) == type_fields_text(start, vs, 0),
                decreases fields.len() - i,
            {
                if i > 0 {
                    out.append(", ");
                }
                let name = snake_case(fields[i].0.as_str());
                out.append(name.as_str());
                out.append(": ");
                push_type(out, &fields[i].1);
                i += 1;
            }
            out.append(" }");
        },
        TypeExpr::List(inner) => {
            out.append("Vec<");
            push_type(out, inner);
            out.push('>');
        },
        TypeExpr::Union(_) => {
            out.append("UnionType");
        },
        TypeExpr::Enum(tags) => {
            out.append("/* enum: ");
            let ghost vs = strs_view(tags@);
            let ghost start = out@;
            let mut i: usize = 0;
            while i < tags.len()
                invariant
                    join_from(out@, vs, " | "@, i as int) == join_from(start, vs, " | "@, 0),
                decreases tags.len() - i,
            {
                if i > 0 {
                    out.append(" | ");
                }
                out.append(tags[i].as_str());
                i += 1;
            }
            out.append(" */");
        },
    }
}

/// The target type for `type_expr`.
pub fn type_expr_to_rust(type_expr: &TypeExpr) -> (r: String)
    ensures
        r@ == rust_type(type_expr@),
{
    let mut r = String::new();
    push_type(&mut r, type_expr);
    r
}

pub open spec fn rule() -> Seq<char> {
    "// ============================================================"@
}

/// The provenance lines of a file header.
pub open spec fn header_provenance(acc: Seq<char>, p: Option<ProvenanceView>) -> Seq<char> {
    match p {
        Some(prov) => {
            let s = match prov.req {
                Some(req) => text_line(acc, ""@, "// Spec: "@ + req),
                None => acc,
            };
            match prov.author {
                Some(author) => text_line(s, ""@, "// Author: "@ + author),
                None => s,
            }
        },
        None => acc,
    }
}

/// The lines that open every generated file, up to the imports.
pub open spec fn header_top(acc: Seq<char>, m: ModuleView) -> Seq<char> {
    let s = text_line(acc, ""@, rule());
    let s = text_line(s, ""@, "// Generated from Pact module: "@ + m.name);
    let s = match m.version {
        Some(v) => text_line(s, ""@, "// Version: "@ + dec_int(v as int)),
        None => s,
    };
    let s = header_provenance(s, m.provenance);
    let s = text_line(s, ""@, rule());
    blank_line(s)
}

pub open spec fn header(acc: Seq<char>, m: ModuleView) -> Seq<char> {
    text_line(header_top(acc, m), ""@, "use std::fmt;"@)
}

/// Appends the lines that open every generated file, up to the imports.
pub fn emit_header_top(out: &mut String, module: &Module)
    ensures
        final(out)@ == header_top(old(out)@, module@),
{
    emit1(out, "", "// ============================================================");
    emit2(out, "", "// Generated from Pact module: ", module.name.as_str());
    if let Some(v) = module.version {
        let text = i64_text(v);
        emit2(out, "", "// Version: ", text.as_str());
    }
    if let Some(prov) = &module.provenance {
        if let Some(req) = &prov.req {
            emit2(out, "", "// Spec: ", req.as_str());
        }
        if let Some(author) = &prov.author {
            emit2(out, "", "// Author: ", author.as_str());
        }
    }
    emit1(out, "", "// ============================================================");
    emit_blank(out);
}

/// The doc comment that lists the invariants of a type.
pub open spec fn invariant_lines(acc: Seq<char>, invs: Seq<InvariantView>, i: int) -> Seq<char>
    decreases left(invs.len(), i),
{
    if 0 <= i < invs.len() {
        invariant_lines(text_line(acc, ""@, "/// - "@ + invs[i].raw), invs, i + 1)
    } else {
        acc
    }
}

pub open spec fn type_doc(acc: Seq<char>, t: TypeDefView) -> Seq<char> {
    if t.invariants.len() > 0 {
        let s = text_line(acc, ""@, "/// Type: "@ + t.name);
        let s = text_line(s, ""@, "///"@);
        let s = text_line(s, ""@, "/// Invariants:"@);
        invariant_lines(s, t.invariants, 0)
    } else {
        acc
    }
}

/// Appends the doc comment that lists the invariants of a type.
pub fn emit_type_doc(out: &mut String, typedef: &TypeDef)
    ensures
        final(out)@ == type_doc(old(out)@, typedef@),
{
    if typedef.invariants.len() > 0 {
        emit2(out, "", "/// Type: ", typedef.name.as_str());
        emit1(out, "", "///");
        emit1(out, "", "/// Invariants:");
        let ghost vs = invariants_view(typedef.invariants@);
        let ghost start = out@;
        let mut i: usize = 0;
        while i < typedef.invariants.len()
            invariant
                invariant_lines(out@, vs, i as int) == invariant_lines(start, vs, 0),
            decreases typedef.invariants.len() - i,
        {
            emit2(out, "", "/// - ", typedef.invariants[i].raw.as_str());
            i += 1;
        }
    }
}

/// The member of a record for one field, with its doc comments.
pub open spec fn field_member(acc: Seq<char>, f: FieldDefView) -> Seq<char> {
    let s = if f.immutable && f.generated {
        text_line(acc, "    "@, "/// immutable, generated"@)
    } else if f.immutable {
        text_line(acc, "    "@, "/// immutable"@)
    } else if f.generated {
        text_line(acc, "    "@, "/// generated"@)
    } else {
        acc
    };
    let s = match f.min_len {
        Some(min) => text_line(s, "    "@, "/// min_len: "@ + dec_int(min as int)),
        None => s,
    };
    let s = match f.max_len {
        Some(max) => text_line(s, "    "@, "/// max_len: "@ + dec_int(max as int)),
        None => s,
    };
    let s = match f.format {
        Some(fmt) => text_line(s, "    "@, "/// format: "@ + fmt),
        None => s,
    };
    let s = match f.unique_within {
        Some(uw) => text_line(s, "    "@, "/// unique_within: "@ + uw),
        None => s,
    };
    text_line(s, "    "@, "pub "@ + snake(f.name) + ": "@ + rust_type(f.type_expr) + ","@)
}

pub open spec fn field_members(acc: Seq<char>, fields: Seq<FieldDefView>, i: int) -> Seq<char>
    decreases left(fields.len(), i),
{
    if 0 <= i < fields.len() {
        field_members(field_member(acc, fields[i]), fields, i + 1)
    } else {
        acc
    }
}

/// The length checks of one field inside `validate`.
pub open spec fn field_checks(acc: Seq<char>, f: FieldDefView) -> Seq<char> {
    let s = match f.min_len {
        Some(min) => text_line(
            acc,
            "        "@,
            "if self."@ + snake(f.name) + ".len() < "@ + dec_int(min as int)
                + " { errors.push(format!(\"{} must be at least "@ + dec_int(min as int)
                + " characters\", \""@ + f.name + "\")); }"@,
        ),
        None => acc,
    };
    match f.max_len {
        Some(max) => text_line(
            s,
            "        "@,
            "if self."@ + snake(f.name) + ".len() > "@ + dec_int(max as int)
                + " { errors.push(format!(\"{} must be at most "@ + dec_int(max as int)
                + " characters\", \""@ + f.name + "\")); }"@,
        ),
        None => s,
    }
}

pub open spec fn all_field_checks(acc: Seq<char>, fields: Seq<FieldDefView>, i: int) -> Seq<char>
    decreases left(fields.len(), i),
{
    if 0 <= i < fields.len() {
        all_field_checks(field_checks(acc, fields[i]), fields, i + 1)
    } else {
        acc
    }
}

/// One record with a validation method.
pub open spec fn type_def(acc: Seq<char>, t: TypeDefView) -> Seq<char> {
    let s = type_doc(acc, t);
    let s = text_line(s, ""@, "#[derive(Debug, Clone)]"@);
    let s = text_line(s, ""@, "pub struct "@ + t.name + " {"@);
    let s = field_members(s, t.fields, 0);
    let s = text_line(s, ""@, "}"@);
    let s = blank_line(s);
    let s = text_line(s, ""@, "impl "@ + t.name + " {"@);
    let s = text_line(s, "    "@, "pub fn validate(&self) -> Result<(), Vec<String>> {"@);
    let s = text_line(s, "        "@, "let mut errors = Vec::new();"@);
    let s = all_field_checks(s, t.fields, 0);
    let s = text_line(s, "        "@, "if errors.is_empty() { Ok(()) } else { Err(errors) }"@);
    let s = text_line(s, "    "@, "}"@);
    text_line(s, ""@, "}"@)
}


fn emit_field_member(out: &mut String, field: &FieldDef)
    ensures
        final(out)@ == field_member(old(out)@, field@),
{
    if field.immutable && field.generated {
        emit1(out, "    ", "/// immutable, generated");
    } else if field.immutable {
        emit1(out, "    ", "/// immutable");
    } else if field.generated {
        emit1(out, "    ", "/// generated");
    }
    if let Some(min) = field.min_len {
        let text = i64_text(min);
        emit2(out, "    ", "/// min_len: ", text.as_str());
    }
    if let Some(max) = field.max_len {
        let text = i64_text(max);
        emit2(out, "    ", "/// max_len: ", text.as_str());
    }
    if let Some(fmt) = &field.format {
        emit2(out, "    ", "/// format: ", fmt.as_str());
    }
    if let Some(uw) = &field.unique_within {
        emit2(out, "    ", "/// unique_within: ", uw.as_str());
    }
    let name = snake_case(field.name.as_str());
    let ty = type_expr_to_rust(&field.type_expr);
    emit5(out, "    ", "pub ", name.as_str(), ": ", ty.as_str(), ",");
}

fn emit_field_checks(out: &mut String, field: &FieldDef)
    ensures
        final(out)@ == field_checks(old(out)@, field@),
{
    let name = snake_case(field.name.as_str());
    if let Some(min) = field.min_len {
        let text = i64_text(min);
        emit9(
            out,
            "        ",
            "if self.",
            name.as_str(),
            ".len() < ",
            text.as_str(),
            " { errors.push(format!(\"{} must be at least ",
            text.as_str(),
            " characters\", \"",
            field.name.as_str(),
            "\")); }",
        );
    }
    if let Some(max) = field.max_len {
        let text = i64_text(max);
        emit9(
            out,
            "        ",
            "if self.",
            name.as_str(),
            ".len() > ",
            text.as_str(),
            " { errors.push(format!(\"{} must be at most ",
            text.as_str(),
            " characters\", \"",
            field.name.as_str(),
            "\")); }",
        );
    }
}

/// Appends one record with a validation method.
pub fn emit_type_def(out: &mut String, typedef: &TypeDef)
    ensures
        final(out)@ == type_def(old(out)@, typedef@),
{
    emit_type_doc(out, typedef);
    emit1(out, "", "#[derive(Debug, Clone)]");
    emit3(out, "", "pub struct ", typedef.name.as_str(), " {");
    let ghost vs = fields_view(typedef.fields@);
    let ghost start = out@;
    let mut i: usize = 0;
    while i < typedef.fields.len()
        invariant
            field_members(out@, vs, i as int) == field_members(start, vs, 0),
        decreases typedef.fields.len() - i,
    {
        emit_field_member(out, &typedef.fields[i]);
        i += 1;
    }
    emit1(out, "", "}");
    emit_blank(out);
    emit3(out, "", "impl ", typedef.name.as_str(), " {");
    emit1(out, "    ", "pub fn validate(&self) -> Result<(), Vec<String>> {");
    emit1(out, "        ", "let mut errors = Vec::new();");
    let ghost start2 = out@;
    let mut i: usize = 0;
    while i < typedef.fields.len()
        invariant
            all_field_checks(out@, vs, i as int) == all_field_checks(start2, vs, 0),
        decreases typedef.fields.len() - i,
    {
        emit_field_checks(out, &typedef.fields[i]);
        i += 1;
    }
    emit1(out, "        ", "if errors.is_empty() { Ok(()) } else { Err(errors) }");
    emit1(out, "    ", "}");
    emit1(out, "", "}");
}

/// Name of an effect kind as `Debug` writes it.
pub open spec fn kind_text(k: EffectKind) -> Seq<char> {
    match k {
        EffectKind::Reads => "Reads"@,
        EffectKind::Writes => "Writes"@,
        EffectKind::Sends => "Sends"@,
    }
}

fn kind_name(kind: EffectKind) -> (s: &'static str)
    ensures
        s@ == kind_text(kind),
{
    match kind {
        EffectKind::Reads => "Reads",
        EffectKind::Writes => "Writes",
        EffectKind::Sends => "Sends",
    }
}

/// An effect as `Kind(target)`.
pub open spec fn effect_text(e: EffectView) -> Seq<char> {
    (kind_text(e.kind).push('(') + e.target).push(')')
}

/// The effects from `i` on, each as `Kind(target)`, appended to `acc`.
pub open spec fn effect_texts(effects: Seq<EffectView>, i: int, acc: Seq<Seq<char>>) -> Seq<
    Seq<char>,
>
    decreases left(effects.len(), i),
{
    if 0 <= i < effects.len() {
        effect_texts(effects, i + 1, acc.push(effect_text(effects[i])))
    } else {
        acc
    }
}

fn effect_strings(effects: &Vec<Effect>) -> (r: Vec<String>)
    ensures
        strs_view(r@) == effect_texts(effects_view(effects@), 0, Seq::empty()),
{
    let ghost vs = effects_view(effects@);
    let mut r: Vec<String> = Vec::new();
    let mut i: usize = 0;
    while i < effects.len()
        invariant
            effect_texts(vs, i as int, strs_view(r@)) == effect_texts(vs, 0, Seq::empty()),
        decreases effects.len() - i,
    {
        let mut t = String::from_str(kind_name(effects[i].kind));
        t.push('(');
        t.append(effects[i].target.as_str());
        t.push(')');
        r.push(t);
        i += 1;
    }
    r
}

/// The abstract operation of a trait for one effect.
pub open spec fn effect_operation(acc: Seq<char>, e: EffectView) -> Seq<char> {
    match e.kind {
        EffectKind::Reads => text_line(
            acc,
            "    "@,
            "fn query_"@ + snake(e.target) + "<Q>(&self, query: Q) -> Option<"@ + pascal(
                e.target,
                false,
            ) + "Item> where Q: Into<"@ + pascal(e.target, false) + "Query>;"@,
        ),
        EffectKind::Writes => text_line(
            acc,
            "    "@,
            "fn insert_"@ + snake(e.target) + "(&mut self, item: "@ + pascal(e.target, false)
                + "Item) -> Result<"@ + pascal(e.target, false) + "Item, "@ + pascal(
                e.target,
                false,
            ) + "Error>;"@,
        ),
        EffectKind::Sends => text_line(
            acc,
            "    "@,
            "fn send_"@ + snake(e.target) + "(&mut self, payload: impl Into<Vec<u8>>);"@,
        ),
    }
}

pub open spec fn effect_operations(acc: Seq<char>, effects: Seq<EffectView>, i: int) -> Seq<char>
    decreases left(effects.len(), i),
{
    if 0 <= i < effects.len() {
        effect_operations(effect_operation(acc, effects[i]), effects, i + 1)
    } else {
        acc
    }
}

/// One trait for an effect set, with one abstract operation per effect.
pub open spec fn effect_trait(acc: Seq<char>, es: EffectSetView) -> Seq<char> {
    let s = (debug_list(
        acc + "/// Effect set: "@ + es.name + " \u{2014} "@,
        effect_texts(es.effects, 0, Seq::empty()),
    )).push('\n');
    let s = text_line(s, ""@, "pub trait "@ + pascal(es.name, false) + " {"@);
    let s = effect_operations(s, es.effects, 0);
    text_line(s, ""@, "}"@)
}

/// Appends one trait for an effect set.
pub fn emit_effect_trait(out: &mut String, effect_set: &EffectSetDef)
    ensures
        final(out)@ == effect_trait(old(out)@, effect_set@),
{
    out.append("/// Effect set: ");
    out.append(effect_set.name.as_str());
    out.append(" \u{2014} ");
    let texts = effect_strings(&effect_set.effects);
    assert(strs_view(texts@) =~= Seq::new(texts@.len(), |i: int| texts@[i]@));
    push_debug_list(out, &texts);
    out.push('\n');
    let trait_name = to_pascal(effect_set.name.as_str());
    emit3(out, "", "pub trait ", trait_name.as_str(), " {");
    let ghost vs = effects_view(effect_set.effects@);
    let ghost start = out@;
    let mut i: usize = 0;
    while i < effect_set.effects.len()
        invariant
            effect_operations(out@, vs, i as int) == effect_operations(start, vs, 0),
        decreases effect_set.effects.len() - i,
    {
        let effect = &effect_set.effects[i];
        let store = to_pascal(effect.target.as_str());
        let target = snake_case(effect.target.as_str());
        match effect.kind {
            EffectKind::Reads => {
                emit7(
                    out,
                    "    ",
                    "fn query_",
                    target.as_str(),
                    "<Q>(&self, query: Q) -> Option<",
                    store.as_str(),
                    "Item> where Q: Into<",
                    store.as_str(),
                    "Query>;",
                );
            },
            EffectKind::Writes => {
                emit9(
                    out,
                    "    ",
                    "fn insert_",
                    target.as_str(),
                    "(&mut self, item: ",
                    store.as_str(),
                    "Item) -> Result<",
                    store.as_str(),
                    "Item, ",
                    store.as_str(),
                    "Error>;",
                );
            },
            EffectKind::Sends => {
                emit3(
                    out,
                    "    ",
                    "fn send_",
                    target.as_str(),
                    "(&mut self, payload: impl Into<Vec<u8>>);",
                );
            },
        }
        i += 1;
    }
    emit1(out, "", "}");
}

/// The name of the result enum of a function.
pub open spec fn result_name(f: FnDefView) -> Seq<char> {
    pascal(f.name, false) + "Result"@
}

/// The provenance lines of a doc comment: the requirement and the tests.
pub open spec fn provenance_doc(acc: Seq<char>, p: Option<ProvenanceView>) -> Seq<char> {
    match p {
        Some(prov) => {
            let s = match prov.req {
                Some(req) => text_line(acc, ""@, "/// Spec: "@ + req),
                None => acc,
            };
            if prov.test.len() > 0 {
                text_line(s, ""@, "/// Tests: "@ + joined(prov.test, ", "@))
            } else {
                s
            }
        },
        None => acc,
    }
}

pub fn emit_provenance_doc(out: &mut String, provenance: &Option<Provenance>)
    ensures
        final(out)@ == provenance_doc(old(out)@, opt_prov_view(*provenance)),
{
    if let Some(prov) = provenance {
        if let Some(req) = &prov.req {
            emit2(out, "", "/// Spec: ", req.as_str());
        }
        if prov.test.len() > 0 {
            assert(strs_view(prov.test@) =~= Seq::new(prov.test@.len(), |i: int| prov.test@[i]@));
            let tests = join(&prov.test, ", ");
            emit2(out, "", "/// Tests: ", tests.as_str());
        }
    }
}

pub open spec fn called_by_doc(acc: Seq<char>, f: FnDefView) -> Seq<char> {
    if f.called_by.len() > 0 {
        text_line(acc, ""@, "/// Called by: "@ + joined(f.called_by, ", "@))
    } else {
        acc
    }
}

fn emit_called_by_doc(out: &mut String, func: &FnDef)
    ensures
        final(out)@ == called_by_doc(old(out)@, func@),
{
    if func.called_by.len() > 0 {
        assert(strs_view(func.called_by@) =~= Seq::new(
            func.called_by@.len(),
            |i: int| func.called_by@[i]@,
        ));
        let callers = join(&func.called_by, ", ");
        emit2(out, "", "/// Called by: ", callers.as_str());
    }
}

pub open spec fn latency_doc(acc: Seq<char>, f: FnDefView) -> Seq<char> {
    match f.latency_budget {
        Some(b) => text_line(
            acc,
            ""@,
            "/// Latency budget: "@ + dec(b.value as nat) + b.unit.suffix(),
        ),
        None => acc,
    }
}

fn emit_latency_doc(out: &mut String, func: &FnDef)
    ensures
        final(out)@ == latency_doc(old(out)@, func@),
{
    if let Some(b) = &func.latency_budget {
        let value = u64_text(b.value);
        let unit = b.unit.to_string();
        emit3(out, "", "/// Latency budget: ", value.as_str(), unit.as_str());
    }
}

/// The doc comment of a result enum.
pub open spec fn enum_doc(acc: Seq<char>, f: FnDefView) -> Seq<char> {
    let s = provenance_doc(acc, f.provenance);
    let s = if f.total {
        text_line(s, ""@, "/// Total: this function handles all cases exhaustively"@)
    } else {
        s
    };
    let s = latency_doc(s, f);
    called_by_doc(s, f)
}

pub open spec fn status_doc(acc: Seq<char>, status: Option<i64>) -> Seq<char> {
    match status {
        Some(n) => text_line(acc, "    "@, "/// HTTP "@ + dec_int(n as int)),
        None => acc,
    }
}

/// The member of a result enum for one variant.
pub open spec fn variant_member(acc: Seq<char>, v: VariantView) -> Seq<char> {
    match v.kind {
        VariantKindView::Success { type_expr, http_status, .. } => text_line(
            status_doc(acc, http_status),
            "    "@,
            "Ok("@ + rust_type(type_expr) + "),"@,
        ),
        VariantKindView::Failure { tag, payload, http_status, .. } => if rust_type(payload)
            == "()"@ {
            text_line(status_doc(acc, http_status), "    "@, pascal(tag, false) + ","@)
        } else {
            text_line(
                status_doc(acc, http_status),
                "    "@,
                pascal(tag, false) + "("@ + rust_type(payload) + "),"@,
            )
        },
    }
}

/// The arm of `http_status` for one variant: 200 for a success and 500 for
/// an error where the variant names no status.
pub open spec fn variant_status(acc: Seq<char>, v: VariantView, e: Seq<char>) -> Seq<char> {
    match v.kind {
        VariantKindView::Success { http_status, .. } => text_line(
            acc,
            "            "@,
            e + "::Ok(_) => "@ + dec_int(
                match http_status {
                    Some(n) => n as int,
                    None => 200,
                },
            ) + ","@,
        ),
        VariantKindView::Failure { tag, payload, http_status, .. } => {
            let status = dec_int(
                match http_status {
                    Some(n) => n as int,
                    None => 500,
                },
            );
            if rust_type(payload) == "()"@ {
                text_line(
                    acc,
                    "            "@,
                    e + "::"@ + pascal(tag, false) + " => "@ + status + ","@,
                )
            } else {
                text_line(
                    acc,
                    "            "@,
                    e + "::"@ + pascal(tag, false) + "(_) => "@ + status + ","@,
                )
            }
        },
    }
}

/// The arm of the stringifier for one variant.
pub open spec fn variant_display(acc: Seq<char>, v: VariantView, e: Seq<char>) -> Seq<char> {
    match v.kind {
        VariantKindView::Success { .. } => text_line(
            acc,
            "            "@,
            e + "::Ok(v) => write!(f, \"Ok: {:?}\", v),"@,
        ),
        VariantKindView::Failure { tag, payload, .. } => if rust_type(payload) == "()"@ {
            text_line(
                acc,
                "            "@,
                e + "::"@ + pascal(tag, false) + " => write!(f, \"Error: "@ + tag + "\"),"@,
            )
        } else {
            text_line(
                acc,
                "            "@,
                e + "::"@ + pascal(tag, false) + "(v) => write!(f, \"Error("@ + tag
                    + "): {:?}\", v),"@,
            )
        },
    }
}

/// The lines of all variants from `i` on; `part` selects the members (0),
/// the status arms (1) or the stringifier arms (2).
pub open spec fn variant_lines(acc: Seq<char>, vs: Seq<VariantView>, i: int, part: int, e: Seq<char>) -> Seq<
    char,
>
    decreases left(vs.len(), i),
{
    if 0 <= i < vs.len() {
        variant_lines(
            if part == 0 {
                variant_member(acc, vs[i])
            } else if part == 1 {
                variant_status(acc, vs[i], e)
            } else {
                variant_display(acc, vs[i], e)
            },
            vs,
            i + 1,
            part,
            e,
        )
    } else {
        acc
    }
}

/// The three closing lines of a method inside an impl block.
pub open spec fn close_match(acc: Seq<char>) -> Seq<char> {
    let s = text_line(acc, "        "@, "}"@);
    let s = text_line(s, "    "@, "}"@);
    text_line(s, ""@, "}"@)
}

/// One result enum with its status accessor and its stringifier.
pub open spec fn return_enum(acc: Seq<char>, f: FnDefView) -> Seq<char> {
    let e = result_name(f);
    let s = enum_doc(acc, f);
    let s = text_line(s, ""@, "#[derive(Debug)]"@);
    let s = text_line(s, ""@, "pub enum "@ + e + " {"@);
    let s = variant_lines(s, f.returns.variants, 0, 0, e);
    let s = text_line(s, ""@, "}"@);
    let s = blank_line(s);
    let s = text_line(s, ""@, "impl "@ + e + " {"@);
    let s = text_line(s, "    "@, "pub fn http_status(&self) -> u16 {"@);
    let s = text_line(s, "        "@, "match self {"@);
    let s = variant_lines(s, f.returns.variants, 0, 1, e);
    let s = close_match(s);
    let s = blank_line(s);
    let s = text_line(s, ""@, "impl fmt::Display for "@ + e + " {"@);
    let s = text_line(s, "    "@, "fn fmt(&self, f: &mut fmt::Formatter<'_>) -> fmt::Result {"@);
    let s = text_line(s, "        "@, "match self {"@);
    let s = variant_lines(s, f.returns.variants, 0, 2, e);
    close_match(s)
}

pub fn emit_status_doc(out: &mut String, status: &Option<i64>)
    ensures
        final(out)@ == status_doc(old(out)@, *status),
{
    if let Some(n) = status {
        let text = i64_text(*n);
        emit2(out, "    ", "/// HTTP ", text.as_str());
    }
}

pub fn status_text(status: &Option<i64>, default: i64) -> (r: String)
    ensures
        r@ == dec_int(
            match *status {
                Some(n) => n as int,
                None => default as int,
            },
        ),
{
    match status {
        Some(n) => i64_text(*n),
        None => i64_text(default),
    }
}

fn emit_variant_line(out: &mut String, variant: &Variant, part: usize, e: &str)
    requires
        part <= 2,
    ensures
        final(out)@ == if part == 0 {
            variant_member(old(out)@, variant@)
        } else if part == 1 {
            variant_status(old(out)@, variant@, e@)
        } else {
            variant_display(old(out)@, variant@, e@)
        },
{
    match &variant.kind {
        VariantKind::Success { type_expr, http_status, .. } => {
            if part == 0 {
                emit_status_doc(out, http_status);
                let ty = type_expr_to_rust(type_expr);
                emit3(out, "    ", "Ok(", ty.as_str(), "),");
            } else if part == 1 {
                let status = status_text(http_status, 200);
                emit4(out, "            ", e, "::Ok(_) => ", status.as_str(), ",");
            } else {
                emit2(out, "            ", e, "::Ok(v) => write!(f, \"Ok: {:?}\", v),");
            }
        },
        VariantKind::Failure { tag, payload, http_status, .. } => {
            let name = to_pascal(tag.as_str());
            let ty = type_expr_to_rust(payload);
            let unit = str_eq(ty.as_str(), "()");
            if part == 0 {
                emit_status_doc(out, http_status);
                if unit {
                    emit2(out, "    ", name.as_str(), ",");
                } else {
                    emit4(out, "    ", name.as_str(), "(", ty.as_str(), "),");
                }
            } else if part == 1 {
                let status = status_text(http_status, 500);
                if unit {
                    emit6(
                        out,
                        "            ",
                        e,
                        "::",
                        name.as_str(),
                        " => ",
                        status.as_str(),
                        ",",
                    );
                } else {
                    emit6(
                        out,
                        "            ",
                        e,
                        "::",
                        name.as_str(),
                        "(_) => ",
                        status.as_str(),
                        ",",
                    );
                }
            } else {
                if unit {
                    emit6(
                        out,
                        "            ",
                        e,
                        "::",
                        name.as_str(),
                        " => write!(f, \"Error: ",
                        tag.as_str(),
                        "\"),",
                    );
                } else {
                    emit6(
                        out,
                        "            ",
                        e,
                        "::",
                        name.as_str(),
                        "(v) => write!(f, \"Error(",
                        tag.as_str(),
                        "): {:?}\", v),",
                    );
                }
            }
        },
    }
}

fn emit_variant_lines(out: &mut String, variants: &Vec<Variant>, part: usize, e: &str)
    requires
        part <= 2,
    ensures
        final(out)@ == variant_lines(old(out)@, variants_view(variants@), 0, part as int, e@),
{
    let ghost vs = variants_view(variants@);
    let mut i: usize = 0;
    while i < variants.len()
        invariant
            variant_lines(out@, vs, i as int, part as int, e@) == variant_lines(
                old(out)@,
                vs,
                0,
                part as int,
                e@,
            ),
        decreases variants.len() - i,
    {
        emit_variant_line(out, &variants[i], part, e);
        i += 1;
    }
}

pub fn emit_close_match(out: &mut String)
    ensures
        final(out)@ == close_match(old(out)@),
{
    emit1(out, "        ", "}");
    emit1(out, "    ", "}");
    emit1(out, "", "}");
}

/// Appends one result enum with its status accessor and its stringifier.
pub fn emit_return_enum(out: &mut String, func: &FnDef)
    ensures
        final(out)@ == return_enum(old(out)@, func@),
{
    let mut enum_name = to_pascal(func.name.as_str());
    enum_name.append("Result");
    let e = enum_name.as_str();
    emit_provenance_doc(out, &func.provenance);
    if func.total {
        emit1(out, "", "/// Total: this function handles all cases exhaustively");
    }
    emit_latency_doc(out, func);
    emit_called_by_doc(out, func);
    emit1(out, "", "#[derive(Debug)]");
    emit3(out, "", "pub enum ", e, " {");
    emit_variant_lines(out, &func.returns.variants, 0, e);
    emit1(out, "", "}");
    emit_blank(out);
    emit3(out, "", "impl ", e, " {");
    emit1(out, "    ", "pub fn http_status(&self) -> u16 {");
    emit1(out, "        ", "match self {");
    emit_variant_lines(out, &func.returns.variants, 1, e);
    emit_close_match(out);
    emit_blank(out);
    emit3(out, "", "impl fmt::Display for ", e, " {");
    emit1(out, "    ", "fn fmt(&self, f: &mut fmt::Formatter<'_>) -> fmt::Result {");
    emit1(out, "        ", "match self {");
    emit_variant_lines(out, &func.returns.variants, 2, e);
    emit_close_match(out);
}


/// `acc` followed by the target pattern for `p`.
pub open spec fn pattern_text(acc: Seq<char>, p: PatternView) -> Seq<char>
    decreases p, 0nat,
{
    match p {
        PatternView::Wildcard(_) => acc.push('_'),
        PatternView::Var(name, _) => acc + snake(name),
        PatternView::Keyword(kw, _) => (acc.push('"') + kw).push('"'),
        PatternView::Constructor { name, args, .. } => if name == "ok"@ {
            std_pattern(acc + "Ok("@, args)
        } else if name == "some"@ {
            std_pattern(acc + "Some("@, args)
        } else if name == "err"@ {
            std_pattern(acc + "Err("@, args)
        } else if name == "none"@ {
            acc + "None"@
        } else if args.len() > 0 {
            pattern_list(acc + pascal(name, false) + "("@, args, 0).push(')')
        } else {
            acc + pascal(name, false)
        },
    }
}

/// The arguments of a standard constructor and its closing bracket; `_`
/// stands for no arguments.
pub open spec fn std_pattern(acc: Seq<char>, args: Seq<PatternView>) -> Seq<char>
    decreases args, args.len() + 1,
{
    if args.len() == 0 {
        acc.push('_').push(')')
    } else {
        pattern_list(acc, args, 0).push(')')
    }
}

pub open spec fn pattern_list(acc: Seq<char>, args: Seq<PatternView>, i: int) -> Seq<char>
    decreases args, left(args.len(), i),
{
    if 0 <= i < args.len() {
        let sep = if i > 0 {
            acc + ", "@
        } else {
            acc
        };
        pattern_list(pattern_text(sep, args[i]), args, i + 1)
    } else {
        acc
    }
}

fn emit_pattern(out: &mut String, pattern: &Pattern)
    ensures
        final(out)@ == pattern_text(old(out)@, pattern@),
    decreases pattern,
{
    match pattern {
        Pattern::Wildcard(_) => {
            out.push('_');
        },
        Pattern::Var(name, _) => {
            let n = snake_case(name.as_str());
            out.append(n.as_str());
        },
        Pattern::Keyword(kw, _) => {
            out.push('"');
            out.append(kw.as_str());
            out.push('"');
        },
        Pattern::Constructor { name, args, .. } => {
            let n = name.as_str();
            if str_eq(n, "ok") {
                out.append("Ok(");
                emit_std_pattern(out, args);
            } else if str_eq(n, "some") {
                out.append("Some(");
                emit_std_pattern(out, args);
            } else if str_eq(n, "err") {
                out.append("Err(");
                emit_std_pattern(out, args);
            } else if str_eq(n, "none") {
                out.append("None");
            } else {
                let p = to_pascal(n);
                out.append(p.as_str());
                if args.len() > 0 {
                    out.append("(");
                    assert(out@ =~= old(out)@ + pascal(name@, false) + "("@);
                    emit_pattern_list(out, args);
                    out.push(')');
                }
            }
        },
    }
}

fn emit_std_pattern(out: &mut String, args: &Vec<Pattern>)
    ensures
        final(out)@ == std_pattern(old(out)@, patterns_view(args@)),
    decreases args, 1nat,
{
    if args.len() == 0 {
        out.push('_');
    } else {
        emit_pattern_list(out, args);
    }
    out.push(')');
}

fn emit_pattern_list(out: &mut String, args: &Vec<Pattern>)
    ensures
        final(out)@ == pattern_list(old(out)@, patterns_view(args@), 0),
    decreases args, 0nat,
{
    let ghost vs = patterns_view(args@);
    let mut i: usize = 0;
    while i < args.len()
        invariant
            pattern_list(out@, vs, i as int) == pattern_list(old(out)@, vs, 0),
        decreases args.len() - i,
    {
        if i > 0 {
            out.append(", ");
        }
        emit_pattern(out, &args[i]);
        i += 1;
    }
}

/// `acc` followed by `e` as an expression inside a line; `ind` is the
/// indentation of the line, used by the blocks that `e` opens, and `rt` the
/// name of the enclosing function's result enum.
pub open spec fn inline_text(acc: Seq<char>, e: ExprView, ind: Seq<char>, rt: Seq<char>) -> Seq<char>
    decreases e, 0nat,
{
    match e {
        ExprView::Ref(name, _) => acc + snake(name),
        ExprView::Keyword(kw, _) => (acc.push('"') + kw).push('"'),
        ExprView::StringLit(s, _) => (acc.push('"') + s).push('"'),
        ExprView::IntLit(n, _) => acc + dec_int(n as int),
        ExprView::BoolLit(b, _) => if b {
            acc + "true"@
        } else {
            acc + "false"@
        },
        ExprView::Success(inner, _) => inline_text(acc + rt + "::Ok("@, *inner, ind, rt).push(')'),
        ExprView::Failure { tag, payload, .. } => inline_text(
            acc + rt + "::"@ + pascal(tag, false) + "("@,
            *payload,
            ind,
            rt,
        ).push(')'),
        ExprView::Call { name, args, .. } => inline_list(
            (acc + snake(name)).push('('),
            args,
            0,
            ind,
            rt,
        ).push(')'),
        ExprView::FieldAccess { expr, field, .. } => inline_text(acc, *expr, ind, rt).push('.')
            + snake(field),
        ExprView::MapLit(entries, _) => inline_entries(acc + "{ "@, entries, 0, ind, rt) + " }"@,
        ExprView::Wildcard(_) => acc.push('_'),
        ExprView::Let { bindings, body, .. } => {
            let s = let_lines(acc + "{\n"@, bindings, 0, deeper(ind), rt);
            let s = inline_text(s + deeper(ind), *body, deeper(ind), rt).push('\n');
            (s + ind).push('}')
        },
        ExprView::Match { expr, arms, .. } => {
            let s = inline_text(acc + "match "@, *expr, ind, rt) + " {\n"@;
            let s = arm_lines(s, arms, 0, deeper(ind), rt);
            (s + ind).push('}')
        },
        ExprView::If { cond, then_branch, else_branch, .. } => {
            let s = inline_text(acc + "if "@, *cond, ind, rt) + " { "@;
            let s = inline_text(s, *then_branch, ind, rt) + " } else { "@;
            inline_text(s, *else_branch, ind, rt) + " }"@
        },
    }
}

pub open spec fn inline_list(acc: Seq<char>, es: Seq<ExprView>, i: int, ind: Seq<char>, rt: Seq<char>) -> Seq<
    char,
>
    decreases es, left(es.len(), i),
{
    if 0 <= i < es.len() {
        let sep = if i > 0 {
            acc + ", "@
        } else {
            acc
        };
        inline_list(inline_text(sep, es[i], ind, rt), es, i + 1, ind, rt)
    } else {
        acc
    }
}

pub open spec fn inline_entries(
    acc: Seq<char>,
    ps: Seq<(Seq<char>, ExprView)>,
    i: int,
    ind: Seq<char>,
    rt: Seq<char>,
) -> Seq<char>
    decreases ps, left(ps.len(), i),
{
    if 0 <= i < ps.len() {
        let sep = if i > 0 {
            acc + ", "@
        } else {
            acc
        };
        inline_entries(inline_text(sep + snake(ps[i].0) + ": "@, ps[i].1, ind, rt), ps, i + 1, ind, rt)
    } else {
        acc
    }
}

/// One `let` statement per binding from `i` on, at the indentation `ind`.
pub open spec fn let_lines(
    acc: Seq<char>,
    ps: Seq<(Seq<char>, ExprView)>,
    i: int,
    ind: Seq<char>,
    rt: Seq<char>,
) -> Seq<char>
    decreases ps, left(ps.len(), i),
{
    if 0 <= i < ps.len() {
        let_lines(
            inline_text(acc + ind + "let "@ + snake(ps[i].0) + " = "@, ps[i].1, ind, rt) + ";\n"@,
            ps,
            i + 1,
            ind,
            rt,
        )
    } else {
        acc
    }
}

/// One line per arm from `i` on, at the indentation `ind`.
pub open spec fn arm_lines(acc: Seq<char>, arms: Seq<MatchArmView>, i: int, ind: Seq<char>, rt: Seq<char>) -> Seq<
    char,
>
    decreases arms, left(arms.len(), i),
{
    if 0 <= i < arms.len() {
        arm_lines(
            inline_text(pattern_text(acc + ind, arms[i].pattern) + " => "@, arms[i].body, ind, rt)
                + ",\n"@,
            arms,
            i + 1,
            ind,
            rt,
        )
    } else {
        acc
    }
}

/// `acc` followed by `e` as statements at the indentation `ind`.
pub open spec fn block_text(acc: Seq<char>, e: ExprView, ind: Seq<char>, rt: Seq<char>) -> Seq<char>
    decreases e, 1nat,
{
    match e {
        ExprView::Let { bindings, body, .. } => block_text(
            let_lines(acc, bindings, 0, ind, rt),
            *body,
            ind,
            rt,
        ),
        ExprView::Match { expr, arms, .. } => {
            let s = inline_text(acc + ind + "match "@, *expr, ind, rt) + " {\n"@;
            let s = arm_lines(s, arms, 0, deeper(ind), rt);
            s + ind + "}\n"@
        },
        ExprView::If { cond, then_branch, else_branch, .. } => {
            let s = inline_text(acc + ind + "if "@, *cond, ind, rt) + " {\n"@;
            let s = block_text(s, *then_branch, deeper(ind), rt);
            let s = s + ind + "} else {\n"@;
            let s = block_text(s, *else_branch, deeper(ind), rt);
            s + ind + "}\n"@
        },
        _ => inline_text(acc + ind, e, ind, rt).push('\n'),
    }
}

fn emit_expr_inline(out: &mut String, expr: &Expr, ind: &str, rt: &str)
    ensures
        final(out)@ == inline_text(old(out)@, expr@, ind@, rt@),
    decreases expr, 0nat,
{
    match expr {
        Expr::Ref(name, _) => {
            let n = snake_case(name.as_str());
            out.append(n.as_str());
        },
        Expr::Keyword(kw, _) => {
            out.push('"');
            out.append(kw.as_str());
            out.push('"');
        },
        Expr::StringLit(s, _) => {
            out.push('"');
            out.append(s.as_str());
            out.push('"');
        },
        Expr::IntLit(n, _) => {
            push_i64(out, *n);
        },
        Expr::BoolLit(b, _) => {
            if *b {
                out.append("true");
            } else {
                out.append("false");
            }
        },
        Expr::Success(inner, _) => {
            out.append(rt);
            out.append("::Ok(");
            emit_expr_inline(out, inner, ind, rt);
            out.push(')');
        },
        Expr::Failure { tag, payload, .. } => {
            let variant = to_pascal(tag.as_str());
            out.append(rt);
            out.append("::");
            out.append(variant.as_str());
            out.append("(");
            emit_expr_inline(out, payload, ind, rt);
            out.push(')');
        },
        Expr::Call { name, args, .. } => {
            let n = snake_case(name.as_str());
            out.append(n.as_str());
            out.push('(');
            let ghost vs = exprs_view(args@);
            let ghost start = out@;
            let mut i: usize = 0;
            while i < args.len()
                invariant
                    inline_list(out@, vs, i as int, ind@, rt@) == inline_list(
                        start,
                        vs,
                        0,
                        ind@,
                        rt@,
                    ),
                decreases args.len() - i,
            {
                if i > 0 {
                    out.append(", ");
                }
                emit_expr_inline(out, &args[i], ind, rt);
                i += 1;
            }
            out.push(')');
        },
        Expr::FieldAccess { expr: inner, field, .. } => {
            emit_expr_inline(out, inner, ind, rt);
            out.push('.');
            let f = snake_case(field.as_str());
            out.append(f.as_str());
        },
        Expr::MapLit(entries, _) => {
            out.append("{ ");
            let ghost vs = bindings_view(entries@);
            let ghost start = out@;
            let mut i: usize = 0;
            while i < entries.len()
                invariant
                    inline_entries(out@, vs, i as int, ind@, rt@) == inline_entries(
                        start,
                        vs,
                        0,
                        ind@,
                        rt@,
                    ),
                decreases entries.len() - i,
            {
                if i > 0 {
                    out.append(", ");
                }
                let k = snake_case(entries[i].0.as_str());
                out.append(k.as_str());
                out.append(": ");
                emit_expr_inline(out, &entries[i].1, ind, rt);
                i += 1;
            }
            out.append(" }");
        },
        Expr::Wildcard(_) => {
            out.push('_');
        },
        Expr::Let { bindings, body, .. } => {
            let inner = indent_more(ind);
            out.append("{\n");
            emit_let_lines(out, bindings, inner.as_str(), rt);
            out.append(inner.as_str());
            emit_expr_inline(out, body, inner.as_str(), rt);
            out.push('\n');
            out.append(ind);
            out.push('}');
        },
        Expr::Match { expr: scrutinee, arms, .. } => {
            let inner = indent_more(ind);
            out.append("match ");
            emit_expr_inline(out, scrutinee, ind, rt);
            out.append(" {\n");
            emit_arm_lines(out, arms, inner.as_str(), rt);
            out.append(ind);
            out.push('}');
        },
        Expr::If { cond, then_branch, else_branch, .. } => {
            out.append("if ");
            emit_expr_inline(out, cond, ind, rt);
            out.append(" { ");
            emit_expr_inline(out, then_branch, ind, rt);
            out.append(" } else { ");
            emit_expr_inline(out, else_branch, ind, rt);
            out.append(" }");
        },
    }
}

fn emit_let_lines(out: &mut String, bindings: &Vec<(String, Expr)>, ind: &str, rt: &str)
    ensures
        final(out)@ == let_lines(old(out)@, bindings_view(bindings@), 0, ind@, rt@),
    decreases bindings,
{
    let ghost vs = bindings_view(bindings@);
    let mut i: usize = 0;
    while i < bindings.len()
        invariant
            let_lines(out@, vs, i as int, ind@, rt@) == let_lines(old(out)@, vs, 0, ind@, rt@),
        decreases bindings.len() - i,
    {
        let name = snake_case(bindings[i].0.as_str());
        out.append(ind);
        out.append("let ");
        out.append(name.as_str());
        out.append(" = ");
        emit_expr_inline(out, &bindings[i].1, ind, rt);
        out.append(";\n");
        i += 1;
    }
}

fn emit_arm_lines(out: &mut String, arms: &Vec<MatchArm>, ind: &str, rt: &str)
    ensures
        final(out)@ == arm_lines(old(out)@, arms_view(arms@), 0, ind@, rt@),
    decreases arms,
{
    let ghost vs = arms_view(arms@);
    let mut i: usize = 0;
    while i < arms.len()
        invariant
            arm_lines(out@, vs, i as int, ind@, rt@) == arm_lines(old(out)@, vs, 0, ind@, rt@),
        decreases arms.len() - i,
    {
        out.append(ind);
        emit_pattern(out, &arms[i].pattern);
        out.append(" => ");
        emit_expr_inline(out, &arms[i].body, ind, rt);
        out.append(",\n");
        i += 1;
    }
}

fn emit_expr(out: &mut String, expr: &Expr, ind: &str, rt: &str)
    ensures
        final(out)@ == block_text(old(out)@, expr@, ind@, rt@),
    decreases expr, 1nat,
{
    match expr {
        Expr::Let { bindings, body, .. } => {
            emit_let_lines(out, bindings, ind, rt);
            emit_expr(out, body, ind, rt);
        },
        Expr::Match { expr: scrutinee, arms, .. } => {
            let inner = indent_more(ind);
            out.append(ind);
            out.append("match ");
            emit_expr_inline(out, scrutinee, ind, rt);
            out.append(" {\n");
            emit_arm_lines(out, arms, inner.as_str(), rt);
            out.append(ind);
            out.append("}\n");
        },
        Expr::If { cond, then_branch, else_branch, .. } => {
            let inner = indent_more(ind);
            out.append(ind);
            out.append("if ");
            emit_expr_inline(out, cond, ind, rt);
            out.append(" {\n");
            emit_expr(out, then_branch, inner.as_str(), rt);
            out.append(ind);
            out.append("} else {\n");
            emit_expr(out, else_branch, inner.as_str(), rt);
            out.append(ind);
            out.append("}\n");
        },
        _ => {
            out.append(ind);
            emit_expr_inline(out, expr, ind, rt);
            out.push('\n');
        },
    }
}


/// The trait bounds of the context, one per effect set, joined by ` + `.
pub open spec fn bounds_text(acc: Seq<char>, effects: Seq<Seq<char>>, i: int) -> Seq<char>
    decreases left(effects.len(), i),
{
    if 0 <= i < effects.len() {
        let sep = if i > 0 {
            acc + " + "@
        } else {
            acc
        };
        bounds_text(sep + pascal(effects[i], false), effects, i + 1)
    } else {
        acc
    }
}

/// The parameters from `i` on, each as `name: Type`; `first` tells that
/// none was written yet.
pub open spec fn param_text(acc: Seq<char>, params: Seq<ParamDefView>, i: int, first: bool) -> Seq<
    char,
>
    decreases left(params.len(), i),
{
    if 0 <= i < params.len() {
        let sep = if first {
            acc
        } else {
            acc + ", "@
        };
        param_text(
            sep + snake(params[i].name) + ": "@ + rust_type(params[i].type_expr),
            params,
            i + 1,
            false,
        )
    } else {
        acc
    }
}

/// The first effect set named `name` from `i` on.
pub open spec fn first_set(sets: Seq<EffectSetView>, name: Seq<char>, i: int) -> Option<
    EffectSetView,
>
    decreases left(sets.len(), i),
{
    if 0 <= i < sets.len() {
        if sets[i].name == name {
            Some(sets[i])
        } else {
            first_set(sets, name, i + 1)
        }
    } else {
        None
    }
}

/// The effect sets that the names from `i` on stand for, each as
/// `name: [Kind(target), ...]`, joined by `; `; a name without an effect set
/// is passed over.
pub open spec fn effect_descs(
    acc: Seq<char>,
    sets: Seq<EffectSetView>,
    names: Seq<Seq<char>>,
    i: int,
    first: bool,
) -> Seq<char>
    decreases left(names.len(), i),
{
    if 0 <= i < names.len() {
        match first_set(sets, names[i], 0) {
            Some(es) => {
                let sep = if first {
                    acc
                } else {
                    acc + "; "@
                };
                effect_descs(
                    join_from(
                        sep + names[i] + ": ["@,
                        effect_texts(es.effects, 0, Seq::empty()),
                        ", "@,
                        0,
                    ) + "]"@,
                    sets,
                    names,
                    i + 1,
                    false,
                )
            },
            None => effect_descs(acc, sets, names, i + 1, first),
        }
    } else {
        acc
    }
}

/// The opening line of a function: name, generics, parameters, result.
pub open spec fn signature(acc: Seq<char>, f: FnDefView) -> Seq<char> {
    let s = acc + "pub fn "@ + snake(f.name);
    let s = if f.effects.len() > 0 {
        bounds_text(s + "<Ctx: "@, f.effects, 0) + ">("@ + "ctx: &mut Ctx"@
    } else {
        s + "("@
    };
    let s = param_text(s, f.params, 0, f.effects.len() == 0);
    s + ") -> "@ + result_name(f) + " {\n"@
}

/// One function: its doc comment, its signature and its body.
pub open spec fn function(acc: Seq<char>, f: FnDefView, m: ModuleView) -> Seq<char> {
    let s = provenance_doc(acc, f.provenance);
    let s = called_by_doc(s, f);
    let s = latency_doc(s, f);
    let s = if f.total {
        text_line(s, ""@, "/// Total: handles all cases exhaustively"@)
    } else {
        s
    };
    let s = if f.effects.len() > 0 {
        effect_descs(s + "/// Effects: "@, m.effect_sets, f.effects, 0, true).push('\n')
    } else {
        s
    };
    let s = signature(s, f);
    let s = block_text(s, f.body, "    "@, result_name(f));
    text_line(s, ""@, "}"@)
}

fn find_first_set<'a>(sets: &'a Vec<EffectSetDef>, name: &str) -> (r: Option<&'a EffectSetDef>)
    ensures
        match r {
            Some(es) => first_set(effect_sets_view(sets@), name@, 0) == Some(es@),
            None => first_set(effect_sets_view(sets@), name@, 0).is_none(),
        },
{
    let ghost vs = effect_sets_view(sets@);
    let mut i: usize = 0;
    while i < sets.len()
        invariant
            i <= sets.len(),
            first_set(vs, name@, i as int) == first_set(vs, name@, 0),
        decreases sets.len() - i,
    {
        if str_eq(sets[i].name.as_str(), name) {
            return Some(&sets[i]);
        }
        i += 1;
    }
    None
}

/// Appends one function: its doc comment, its signature and its body.
pub fn emit_function(out: &mut String, func: &FnDef, module: &Module)
    ensures
        final(out)@ == function(old(out)@, func@, module@),
{
    let mut return_type = to_pascal(func.name.as_str());
    return_type.append("Result");
    emit_provenance_doc(out, &func.provenance);
    emit_called_by_doc(out, func);
    emit_latency_doc(out, func);
    if func.total {
        emit1(out, "", "/// Total: handles all cases exhaustively");
    }
    let ghost names = strs_view(func.effects@);
    let ghost sets = effect_sets_view(module.effect_sets@);
    if func.effects.len() > 0 {
        out.append("/// Effects: ");
        let ghost start = out@;
        let mut first = true;
        let mut i: usize = 0;
        while i < func.effects.len()
            invariant
                effect_descs(out@, sets, names, i as int, first) == effect_descs(
                    start,
                    sets,
                    names,
                    0,
                    true,
                ),
            decreases func.effects.len() - i,
        {
            if let Some(es) = find_first_set(&module.effect_sets, func.effects[i].as_str()) {
                if !first {
                    out.append("; ");
                }
                out.append(func.effects[i].as_str());
                out.append(": [");
                let texts = effect_strings(&es.effects);
                assert(strs_view(texts@) =~= Seq::new(texts@.len(), |k: int| texts@[k]@));
                push_joined(out, &texts, ", ");
                out.append("]");
                first = false;
            }
            i += 1;
        }
        out.push('\n');
    }
    let fn_name = snake_case(func.name.as_str());
    out.append("pub fn ");
    out.append(fn_name.as_str());
    if func.effects.len() > 0 {
        out.append("<Ctx: ");
        let ghost start = out@;
        let mut i: usize = 0;
        while i < func.effects.len()
            invariant
                bounds_text(out@, names, i as int) == bounds_text(start, names, 0),
            decreases func.effects.len() - i,
        {
            if i > 0 {
                out.append(" + ");
            }
            let bound = to_pascal(func.effects[i].as_str());
            out.append(bound.as_str());
            i += 1;
        }
        out.append(">(");
        out.append("ctx: &mut Ctx");
    } else {
        out.append("(");
    }
    let ghost ps = params_view(func.params@);
    let ghost start = out@;
    let mut first = func.effects.len() == 0;
    let mut i: usize = 0;
    while i < func.params.len()
        invariant
            param_text(out@, ps, i as int, first) == param_text(
                start,
                ps,
                0,
                func.effects@.len() == 0,
            ),
        decreases func.params.len() - i,
    {
        if !first {
            out.append(", ");
        }
        let name = snake_case(func.params[i].name.as_str());
        let ty = type_expr_to_rust(&func.params[i].type_expr);
        out.append(name.as_str());
        out.append(": ");
        out.append(ty.as_str());
        first = false;
        i += 1;
    }
    out.append(") -> ");
    out.append(return_type.as_str());
    out.append(" {\n");
    emit_expr(out, &func.body, "    ", return_type.as_str());
    emit1(out, "", "}");
}

/// The whole file: the header, then every record, every effect trait, every
/// result enum and every function, each followed by an empty line.
pub open spec fn generate_from(acc: Seq<char>, m: ModuleView) -> Seq<char> {
    let s = blank_line(header(acc, m));
    let s = all_types(s, m.types, 0);
    let s = all_traits(s, m.effect_sets, 0);
    let s = all_enums(s, m.functions, 0);
    all_functions(s, m, 0)
}

/// The target source for a module.
pub open spec fn generate_spec(m: ModuleView) -> Seq<char> {
    generate_from(Seq::empty(), m)
}

pub open spec fn all_types(acc: Seq<char>, types: Seq<TypeDefView>, i: int) -> Seq<char>
    decreases left(types.len(), i),
{
    if 0 <= i < types.len() {
        all_types(blank_line(type_def(acc, types[i])), types, i + 1)
    } else {
        acc
    }
}

pub open spec fn all_traits(acc: Seq<char>, sets: Seq<EffectSetView>, i: int) -> Seq<char>
    decreases left(sets.len(), i),
{
    if 0 <= i < sets.len() {
        all_traits(blank_line(effect_trait(acc, sets[i])), sets, i + 1)
    } else {
        acc
    }
}

pub open spec fn all_enums(acc: Seq<char>, fns: Seq<FnDefView>, i: int) -> Seq<char>
    decreases left(fns.len(), i),
{
    if 0 <= i < fns.len() {
        all_enums(blank_line(return_enum(acc, fns[i])), fns, i + 1)
    } else {
        acc
    }
}

pub open spec fn all_functions(acc: Seq<char>, m: ModuleView, i: int) -> Seq<char>
    decreases left(m.functions.len(), i),
{
    if 0 <= i < m.functions.len() {
        all_functions(blank_line(function(acc, m.functions[i], m)), m, i + 1)
    } else {
        acc
    }
}

/// The first code generator.
pub struct RustCodegen {
    output: String,
}

impl RustCodegen {
    /// The text generated so far.
    pub closed spec fn text(&self) -> Seq<char> {
        self.output@
    }

    pub fn new() -> (g: RustCodegen)
        ensures
            g.text() == Seq::<char>::empty(),
    {
        RustCodegen { output: String::new() }
    }

    /// Appends the target source for `module` to the text generated so far
    /// and returns the whole; for a fresh generator that is
    /// `generate_spec(module@)`.
    pub fn generate(self, module: &Module) -> (r: String)
        ensures
            r@ == generate_from(self.text(), module@),
    {
        let mut out = self.output;
        let ghost m = module@;
        emit_header_top(&mut out, module);
        emit1(&mut out, "", "use std::fmt;");
        emit_blank(&mut out);
        let ghost start = out@;
        let mut i: usize = 0;
        while i < module.types.len()
            invariant
                all_types(out@, m.types, i as int) == all_types(start, m.types, 0),
            decreases module.types.len() - i,
        {
            emit_type_def(&mut out, &module.types[i]);
            emit_blank(&mut out);
            i += 1;
        }
        let ghost start = out@;
        let mut i: usize = 0;
        while i < module.effect_sets.len()
            invariant
                all_traits(out@, m.effect_sets, i as int) == all_traits(start, m.effect_sets, 0),
            decreases module.effect_sets.len() - i,
        {
            emit_effect_trait(&mut out, &module.effect_sets[i]);
            emit_blank(&mut out);
            i += 1;
        }
        let ghost start = out@;
        let mut i: usize = 0;
        while i < module.functions.len()
            invariant
                all_enums(out@, m.functions, i as int) == all_enums(start, m.functions, 0),
            decreases module.functions.len() - i,
        {
            emit_return_enum(&mut out, &module.functions[i]);
            emit_blank(&mut out);
            i += 1;
        }
        let ghost start = out@;
        let mut i: usize = 0;
        while i < module.functions.len()
            invariant
                all_functions(out@, m, i as int) == all_functions(start, m, 0),
            decreases module.functions.len() - i,
        {
            emit_function(&mut out, &module.functions[i], module);
            emit_blank(&mut out);
            i += 1;
        }
        out
    }
}

} // verus!
