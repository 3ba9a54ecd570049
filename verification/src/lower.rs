//! Lowerer: interprets an S-expression tree as a module.
//!
//! Every form is a list whose items alternate between positional children
//! and keyword/value pairs. Keywords that a form does not know are kept, with
//! their value, in the form's extras.

use vstd::prelude::*;
use vstd::string::StringExecFns;
use crate::ast::{Module, ModuleView, Provenance, ProvenanceView, Delta, DeltaView, TypeDef, TypeDefView,
    InvariantExpr, InvariantView, FieldDef, FieldDefView, EffectSetDef, EffectSetView, Effect,
    EffectView, EffectKind, FnDef, FnDefView, Duration, ParamDef, ParamDefView, ReturnsDef,
    ReturnsView, Variant, VariantView, VariantKind, VariantKindView, TypeExpr, TypeView, Expr,
    ExprView, MatchArm, MatchArmView, Pattern, PatternView, MetaValue, MetaView, strs_view,
    opt_str_view, exprs_view, bindings_view, arms_view, patterns_view, variants_view,
    type_fields_view, metas_view, meta_pairs_view, opt_prov_view, invariants_view, fields_view,
    effects_view, params_view, typedefs_view, effect_sets_view, fndefs_view};
use crate::diagnostics::{Diagnostic, DiagnosticView, diags_view, warning_view};
use crate::lexer::{Span, DurationUnit};
use crate::parser::{AtomKind, AtomView, SExpr, SExprKind, SExprKindView, SExprView, sexprs_view,
    entries_view};
use crate::text::{dec, dec_int, left, owned, push_i64, push_u64, str_eq};

verus! {

broadcast use {crate::ast::group_ast_views, crate::parser::group_sexpr_views};

/// The span of a node.
pub open spec fn span_of(e: SExprView) -> Span {
    Span { start: e.start as usize, end: e.end as usize }
}

pub open spec fn sym_of(e: SExprView) -> Option<Seq<char>> {
    match e.kind {
        SExprKindView::Atom(AtomView::Symbol(s)) => Some(s),
        _ => None,
    }
}

pub open spec fn kw_of(e: SExprView) -> Option<Seq<char>> {
    match e.kind {
        SExprKindView::Atom(AtomView::Keyword(s)) => Some(s),
        _ => None,
    }
}

pub open spec fn str_of(e: SExprView) -> Option<Seq<char>> {
    match e.kind {
        SExprKindView::Atom(AtomView::StringLit(s)) => Some(s),
        _ => None,
    }
}

pub open spec fn int_of(e: SExprView) -> Option<i64> {
    match e.kind {
        SExprKindView::Atom(AtomView::IntLit(n)) => Some(n),
        _ => None,
    }
}

pub open spec fn bool_of(e: SExprView) -> Option<bool> {
    match e.kind {
        SExprKindView::Atom(AtomView::BoolLit(b)) => Some(b),
        _ => None,
    }
}

/// The text of a symbol or keyword.
pub open spec fn name_of(e: SExprView) -> Option<Seq<char>> {
    match e.kind {
        SExprKindView::Atom(AtomView::Symbol(s)) => Some(s),
        SExprKindView::Atom(AtomView::Keyword(s)) => Some(s),
        _ => None,
    }
}

pub open spec fn sym_at(items: Seq<SExprView>, i: int) -> Option<Seq<char>> {
    if 0 <= i < items.len() {
        sym_of(items[i])
    } else {
        None
    }
}

pub open spec fn kw_at(items: Seq<SExprView>, i: int) -> Option<Seq<char>> {
    if 0 <= i < items.len() {
        kw_of(items[i])
    } else {
        None
    }
}

pub open spec fn str_at(items: Seq<SExprView>, i: int) -> Option<Seq<char>> {
    if 0 <= i < items.len() {
        str_of(items[i])
    } else {
        None
    }
}

pub open spec fn int_at(items: Seq<SExprView>, i: int) -> Option<i64> {
    if 0 <= i < items.len() {
        int_of(items[i])
    } else {
        None
    }
}

pub open spec fn name_at(items: Seq<SExprView>, i: int) -> Option<Seq<char>> {
    if 0 <= i < items.len() {
        name_of(items[i])
    } else {
        None
    }
}

/// The head symbol of a list node.
pub open spec fn head_of(e: SExprView) -> Option<Seq<char>> {
    match e.kind {
        SExprKindView::List(items) => sym_at(items, 0),
        _ => None,
    }
}

// ---------------------------------------------------------------------------
// Canonical text of a node
// ---------------------------------------------------------------------------

/// `acc` followed by the canonical text of an atom.
pub open spec fn format_atom(acc: Seq<char>, a: AtomView) -> Seq<char> {
    match a {
        AtomView::Symbol(s) => acc + s,
        AtomView::Keyword(s) => acc.push(':') + s,
        AtomView::StringLit(s) => (acc.push('"') + s).push('"'),
        AtomView::IntLit(n) => acc + dec_int(n as int),
        AtomView::BoolLit(b) => if b {
            acc + "true"@
        } else {
            acc + "false"@
        },
        AtomView::DurationLit(n, u) => acc + dec(n as nat) + u.suffix(),
        AtomView::RegexLit(s) => (acc + "#/"@ + s).push('/'),
    }
}

/// `acc` followed by the canonical text of `e`: a list as `(a b c)`, a
/// vector as `[a b c]`, a map as `{k: v, k: v}`.
pub open spec fn format_into(acc: Seq<char>, e: SExprView) -> Seq<char>
    decreases e, 0nat,
{
    match e.kind {
        SExprKindView::Atom(a) => format_atom(acc, a),
        SExprKindView::List(items) => format_items(acc.push('('), items, 0).push(')'),
        SExprKindView::Vector(items) => format_items(acc.push('['), items, 0).push(']'),
        SExprKindView::Mapping(entries) => format_entries(acc.push('{'), entries, 0).push('}'),
    }
}

/// `acc` followed by the items from `i` on, separated by one space.
pub open spec fn format_items(acc: Seq<char>, items: Seq<SExprView>, i: int) -> Seq<char>
    decreases items, left(items.len(), i),
{
    if 0 <= i < items.len() {
        let sep = if i > 0 {
            acc.push(' ')
        } else {
            acc
        };
        format_items(format_into(sep, items[i]), items, i + 1)
    } else {
        acc
    }
}

/// `acc` followed by the pairs from `i` on, each as `k: v`, separated by `, `.
pub open spec fn format_entries(
    acc: Seq<char>,
    entries: Seq<(SExprView, SExprView)>,
    i: int,
) -> Seq<char>
    decreases entries, left(entries.len(), i),
{
    if 0 <= i < entries.len() {
        let sep = if i > 0 {
            acc + ", "@
        } else {
            acc
        };
        let key = format_into(sep, entries[i].0);
        format_entries(format_into(key + ": "@, entries[i].1), entries, i + 1)
    } else {
        acc
    }
}

/// The canonical text of `e`.
pub open spec fn format_spec(e: SExprView) -> Seq<char> {
    format_into(Seq::empty(), e)
}

// ---------------------------------------------------------------------------
// Patterns and expressions
// ---------------------------------------------------------------------------

pub open spec fn lower_pattern_spec(e: SExprView) -> Result<PatternView, Seq<char>>
    decreases e, 0nat,
{
    match e.kind {
        SExprKindView::Atom(AtomView::Symbol(s)) => if s == "_"@ {
            Ok(PatternView::Wildcard(span_of(e)))
        } else {
            Ok(PatternView::Var(s, span_of(e)))
        },
        SExprKindView::Atom(AtomView::Keyword(s)) => Ok(PatternView::Keyword(s, span_of(e))),
        SExprKindView::List(items) => if items.len() == 0 {
            Err("unexpected empty pattern"@)
        } else {
            match sym_of(items[0]) {
                None => Err("expected constructor name in pattern"@),
                Some(name) => match lower_patterns(items, 1, Seq::empty()) {
                    Ok(args) => Ok(PatternView::Constructor { name, args, span: span_of(e) }),
                    Err(m) => Err(m),
                },
            }
        },
        _ => Err("unexpected pattern form"@),
    }
}

/// The patterns of the items from `i` on, appended to `acc`.
pub open spec fn lower_patterns(items: Seq<SExprView>, i: int, acc: Seq<PatternView>) -> Result<
    Seq<PatternView>,
    Seq<char>,
>
    decreases items, left(items.len(), i),
{
    if 0 <= i < items.len() {
        match lower_pattern_spec(items[i]) {
            Ok(p) => lower_patterns(items, i + 1, acc.push(p)),
            Err(m) => Err(m),
        }
    } else {
        Ok(acc)
    }
}

/// The reference that stands for a missing operand.
pub open spec fn unit_ref(e: SExprView) -> ExprView {
    ExprView::Ref("Unit"@, span_of(e))
}

pub open spec fn lower_expr_spec(e: SExprView) -> Result<ExprView, Seq<char>>
    decreases e, 0nat,
{
    match e.kind {
        SExprKindView::Atom(AtomView::Symbol(s)) => if s == "_"@ {
            Ok(ExprView::Wildcard(span_of(e)))
        } else {
            Ok(ExprView::Ref(s, span_of(e)))
        },
        SExprKindView::Atom(AtomView::Keyword(s)) => Ok(ExprView::Keyword(s, span_of(e))),
        SExprKindView::Atom(AtomView::StringLit(s)) => Ok(ExprView::StringLit(s, span_of(e))),
        SExprKindView::Atom(AtomView::IntLit(n)) => Ok(ExprView::IntLit(n, span_of(e))),
        SExprKindView::Atom(AtomView::BoolLit(b)) => Ok(ExprView::BoolLit(b, span_of(e))),
        SExprKindView::Mapping(entries) => match lower_map_entries(entries, 0, Seq::empty()) {
            Ok(map) => Ok(ExprView::MapLit(map, span_of(e))),
            Err(m) => Err(m),
        },
        SExprKindView::List(items) => if items.len() == 0 {
            Err("unexpected empty list in expression"@)
        } else {
            match sym_of(items[0]) {
                None => Err("expected symbol at head of expression"@),
                Some(head) => if head == "let"@ {
                    lower_let_spec(items, span_of(e))
                } else if head == "match"@ {
                    lower_match_spec(items, span_of(e))
                } else if head == "if"@ {
                    lower_if_spec(items, span_of(e))
                } else if head == "."@ {
                    lower_access_spec(items, span_of(e))
                } else if head == "ok"@ {
                    if items.len() > 1 {
                        match lower_expr_spec(items[1]) {
                            Ok(inner) => Ok(ExprView::Success(Box::new(inner), span_of(e))),
                            Err(m) => Err(m),
                        }
                    } else {
                        Ok(ExprView::Success(Box::new(unit_ref(e)), span_of(e)))
                    }
                } else if head == "err"@ {
                    match kw_at(items, 1) {
                        None => Err("expected error tag"@),
                        Some(tag) => if items.len() > 2 {
                            match lower_expr_spec(items[2]) {
                                Ok(payload) => Ok(
                                    ExprView::Failure {
                                        tag,
                                        payload: Box::new(payload),
                                        span: span_of(e),
                                    },
                                ),
                                Err(m) => Err(m),
                            }
                        } else {
                            Ok(
                                ExprView::Failure {
                                    tag,
                                    payload: Box::new(unit_ref(e)),
                                    span: span_of(e),
                                },
                            )
                        },
                    }
                } else {
                    match lower_exprs(items, 1, Seq::empty()) {
                        Ok(args) => Ok(ExprView::Call { name: head, args, span: span_of(e) }),
                        Err(m) => Err(m),
                    }
                },
            }
        },
        _ => Err("unexpected expression form"@),
    }
}

/// The expressions of the items from `i` on, appended to `acc`.
pub open spec fn lower_exprs(items: Seq<SExprView>, i: int, acc: Seq<ExprView>) -> Result<
    Seq<ExprView>,
    Seq<char>,
>
    decreases items, left(items.len(), i),
{
    if 0 <= i < items.len() {
        match lower_expr_spec(items[i]) {
            Ok(x) => lower_exprs(items, i + 1, acc.push(x)),
            Err(m) => Err(m),
        }
    } else {
        Ok(acc)
    }
}

/// The entries of a map literal from `i` on, appended to `acc`.
pub open spec fn lower_map_entries(
    entries: Seq<(SExprView, SExprView)>,
    i: int,
    acc: Seq<(Seq<char>, ExprView)>,
) -> Result<Seq<(Seq<char>, ExprView)>, Seq<char>>
    decreases entries, left(entries.len(), i),
{
    if 0 <= i < entries.len() {
        match name_of(entries[i].0) {
            None => Err("expected map key to be symbol or keyword"@),
            Some(key) => match lower_expr_spec(entries[i].1) {
                Ok(x) => lower_map_entries(entries, i + 1, acc.push((key, x))),
                Err(m) => Err(m),
            },
        }
    } else {
        Ok(acc)
    }
}

/// `(. expr field)`
pub open spec fn lower_access_spec(items: Seq<SExprView>, span: Span) -> Result<ExprView, Seq<char>>
    decreases items, items.len() + 1,
{
    if items.len() != 3 {
        Err("expected (. expr field)"@)
    } else {
        match lower_expr_spec(items[1]) {
            Err(m) => Err(m),
            Ok(x) => match sym_of(items[2]) {
                None => Err("expected field name"@),
                Some(field) => Ok(ExprView::FieldAccess { expr: Box::new(x), field, span }),
            },
        }
    }
}

/// `(let [name1 expr1 name2 expr2 ...] body)`
pub open spec fn lower_let_spec(items: Seq<SExprView>, span: Span) -> Result<ExprView, Seq<char>>
    decreases items, items.len() + 1,
{
    if items.len() < 3 {
        Err("let requires bindings and body"@)
    } else {
        match items[1].kind {
            SExprKindView::Vector(pairs) => match lower_bindings(pairs, 0, Seq::empty()) {
                Err(m) => Err(m),
                Ok(bindings) => match lower_expr_spec(items[2]) {
                    Err(m) => Err(m),
                    Ok(body) => Ok(ExprView::Let { bindings, body: Box::new(body), span }),
                },
            },
            _ => Err("expected let bindings to be a vector"@),
        }
    }
}

/// The bindings written at `j`, `j + 2`, ...; a trailing name without a
/// value is passed over.
pub open spec fn lower_bindings(
    pairs: Seq<SExprView>,
    j: int,
    acc: Seq<(Seq<char>, ExprView)>,
) -> Result<Seq<(Seq<char>, ExprView)>, Seq<char>>
    decreases pairs, left(pairs.len(), j),
{
    if 0 <= j && j + 1 < pairs.len() {
        match sym_of(pairs[j]) {
            None => Err("expected binding name"@),
            Some(name) => match lower_expr_spec(pairs[j + 1]) {
                Ok(x) => lower_bindings(pairs, j + 2, acc.push((name, x))),
                Err(m) => Err(m),
            },
        }
    } else {
        Ok(acc)
    }
}

/// `(match expr pattern1 body1 pattern2 body2 ...)`
pub open spec fn lower_match_spec(items: Seq<SExprView>, span: Span) -> Result<ExprView, Seq<char>>
    decreases items, items.len() + 1,
{
    if items.len() < 4 {
        Err("match requires expression and at least one arm"@)
    } else {
        match lower_expr_spec(items[1]) {
            Err(m) => Err(m),
            Ok(x) => match lower_arms(items, 2, Seq::empty()) {
                Err(m) => Err(m),
                Ok(arms) => Ok(ExprView::Match { expr: Box::new(x), arms, span }),
            },
        }
    }
}

/// The arms written at `j`, `j + 2`, ...; a trailing pattern without a body
/// is passed over.
pub open spec fn lower_arms(items: Seq<SExprView>, j: int, acc: Seq<MatchArmView>) -> Result<
    Seq<MatchArmView>,
    Seq<char>,
>
    decreases items, left(items.len(), j),
{
    if 0 <= j && j + 1 < items.len() {
        match lower_pattern_spec(items[j]) {
            Err(m) => Err(m),
            Ok(pattern) => match lower_expr_spec(items[j + 1]) {
                Err(m) => Err(m),
                Ok(body) => lower_arms(
                    items,
                    j + 2,
                    acc.push(
                        MatchArmView {
                            pattern,
                            body,
                            span: Span {
                                start: items[j].start as usize,
                                end: items[j + 1].end as usize,
                            },
                        },
                    ),
                ),
            },
        }
    } else {
        Ok(acc)
    }
}

/// `(if cond then else)`
pub open spec fn lower_if_spec(items: Seq<SExprView>, span: Span) -> Result<ExprView, Seq<char>>
    decreases items, items.len() + 1,
{
    if items.len() != 4 {
        Err("if requires condition, then, and else branches"@)
    } else {
        match lower_expr_spec(items[1]) {
            Err(m) => Err(m),
            Ok(cond) => match lower_expr_spec(items[2]) {
                Err(m) => Err(m),
                Ok(then_branch) => match lower_expr_spec(items[3]) {
                    Err(m) => Err(m),
                    Ok(else_branch) => Ok(
                        ExprView::If {
                            cond: Box::new(cond),
                            then_branch: Box::new(then_branch),
                            else_branch: Box::new(else_branch),
                            span,
                        },
                    ),
                },
            },
        }
    }
}

// ---------------------------------------------------------------------------
// Metadata
// ---------------------------------------------------------------------------

/// The generic meta-value that stands for `e`. A list is kept as an
/// expression where it lowers to one, else as the list of its items.
pub open spec fn meta_of(e: SExprView) -> MetaView
    decreases e, 0nat,
{
    match e.kind {
        SExprKindView::Atom(AtomView::StringLit(s)) => MetaView::Str(s),
        SExprKindView::Atom(AtomView::IntLit(n)) => MetaView::Int(n),
        SExprKindView::Atom(AtomView::BoolLit(b)) => MetaView::Bool(b),
        SExprKindView::Atom(AtomView::Symbol(s)) => MetaView::Symbol(s),
        SExprKindView::Atom(AtomView::Keyword(s)) => MetaView::Keyword(s),
        SExprKindView::Atom(AtomView::DurationLit(v, u)) => MetaView::Duration(v, u),
        SExprKindView::Atom(AtomView::RegexLit(s)) => MetaView::Str(s),
        SExprKindView::Vector(items) => MetaView::List(metas_of(items, 0, Seq::empty())),
        SExprKindView::Mapping(entries) => MetaView::Mapping(
            meta_entries(entries, 0, Seq::empty()),
        ),
        SExprKindView::List(items) => match lower_expr_spec(e) {
            Ok(x) => MetaView::Expr(x),
            Err(_) => MetaView::List(metas_of(items, 0, Seq::empty())),
        },
    }
}

pub open spec fn metas_of(items: Seq<SExprView>, i: int, acc: Seq<MetaView>) -> Seq<MetaView>
    decreases items, left(items.len(), i),
{
    if 0 <= i < items.len() {
        metas_of(items, i + 1, acc.push(meta_of(items[i])))
    } else {
        acc
    }
}

pub open spec fn meta_entries(
    entries: Seq<(SExprView, SExprView)>,
    i: int,
    acc: Seq<(Seq<char>, MetaView)>,
) -> Seq<(Seq<char>, MetaView)>
    decreases entries, left(entries.len(), i),
{
    if 0 <= i < entries.len() {
        let key = match name_of(entries[i].0) {
            Some(k) => k,
            None => "?"@,
        };
        meta_entries(entries, i + 1, acc.push((key, meta_of(entries[i].1))))
    } else {
        acc
    }
}


// ---------------------------------------------------------------------------
// Type expressions and variants
// ---------------------------------------------------------------------------

pub open spec fn lower_type_spec(e: SExprView) -> Result<TypeView, Seq<char>>
    decreases e, 0nat,
{
    match e.kind {
        SExprKindView::Atom(AtomView::Symbol(name)) => Ok(TypeView::Named(name)),
        SExprKindView::Mapping(entries) => match lower_type_fields(entries, 0, Seq::empty()) {
            Ok(fields) => Ok(TypeView::Mapping(fields)),
            Err(m) => Err(m),
        },
        SExprKindView::List(items) => match sym_at(items, 0) {
            None => Err("expected type expression"@),
            Some(head) => if head == "list"@ {
                if items.len() > 1 {
                    match lower_type_spec(items[1]) {
                        Ok(inner) => Ok(TypeView::List(Box::new(inner))),
                        Err(m) => Err(m),
                    }
                } else {
                    Err("expected list element type"@)
                }
            } else if head == "union"@ {
                match lower_variants(items, 1, Seq::empty()) {
                    Ok(variants) => Ok(TypeView::Union(variants)),
                    Err(m) => Err(m),
                }
            } else if head == "enum"@ {
                Ok(TypeView::Enum(keywords_of(items, 1, Seq::empty())))
            } else {
                Ok(TypeView::Named(head))
            },
        },
        _ => Err("unexpected type expression"@),
    }
}

/// The fields of a map type from `i` on, appended to `acc`.
pub open spec fn lower_type_fields(
    entries: Seq<(SExprView, SExprView)>,
    i: int,
    acc: Seq<(Seq<char>, TypeView)>,
) -> Result<Seq<(Seq<char>, TypeView)>, Seq<char>>
    decreases entries, left(entries.len(), i),
{
    if 0 <= i < entries.len() {
        match name_of(entries[i].0) {
            None => Err("expected map type key"@),
            Some(key) => match lower_type_spec(entries[i].1) {
                Ok(t) => lower_type_fields(entries, i + 1, acc.push((key, t))),
                Err(m) => Err(m),
            },
        }
    } else {
        Ok(acc)
    }
}

/// The variants written from `i` on, appended to `acc`.
pub open spec fn lower_variants(items: Seq<SExprView>, i: int, acc: Seq<VariantView>) -> Result<
    Seq<VariantView>,
    Seq<char>,
>
    decreases items, left(items.len(), i),
{
    if 0 <= i < items.len() {
        match lower_variant_spec(items[i]) {
            Ok(v) => lower_variants(items, i + 1, acc.push(v)),
            Err(m) => Err(m),
        }
    } else {
        Ok(acc)
    }
}

/// The texts of the keywords among the items from `i` on, appended to `acc`.
pub open spec fn keywords_of(items: Seq<SExprView>, i: int, acc: Seq<Seq<char>>) -> Seq<Seq<char>>
    decreases left(items.len(), i),
{
    if 0 <= i < items.len() {
        match kw_of(items[i]) {
            Some(k) => keywords_of(items, i + 1, acc.push(k)),
            None => keywords_of(items, i + 1, acc),
        }
    } else {
        acc
    }
}

/// The texts of the symbols among the items from `i` on, appended to `acc`.
pub open spec fn symbols_of(items: Seq<SExprView>, i: int, acc: Seq<Seq<char>>) -> Seq<Seq<char>>
    decreases left(items.len(), i),
{
    if 0 <= i < items.len() {
        match sym_of(items[i]) {
            Some(k) => symbols_of(items, i + 1, acc.push(k)),
            None => symbols_of(items, i + 1, acc),
        }
    } else {
        acc
    }
}

/// The texts of the string literals among the items from `i` on, appended to `acc`.
pub open spec fn strings_of(items: Seq<SExprView>, i: int, acc: Seq<Seq<char>>) -> Seq<Seq<char>>
    decreases left(items.len(), i),
{
    if 0 <= i < items.len() {
        match str_of(items[i]) {
            Some(k) => strings_of(items, i + 1, acc.push(k)),
            None => strings_of(items, i + 1, acc),
        }
    } else {
        acc
    }
}

/// `extra` with the unknown keyword `k` and its value at `v`, if there is one.
pub open spec fn with_extra(
    extra: Seq<(Seq<char>, MetaView)>,
    k: Seq<char>,
    items: Seq<SExprView>,
    v: int,
) -> Seq<(Seq<char>, MetaView)> {
    if 0 <= v < items.len() {
        extra.push((k, meta_of(items[v])))
    } else {
        extra
    }
}

/// Keyword arguments of a variant.
pub ghost struct VariantArgs {
    pub http_status: Option<i64>,
    pub serialize: Option<Seq<char>>,
    pub extra: Seq<(Seq<char>, MetaView)>,
}

/// The keyword arguments of an `ok` variant from `i` on.
pub open spec fn ok_args(items: Seq<SExprView>, i: int, acc: VariantArgs) -> VariantArgs
    decreases left(items.len(), i),
{
    if 0 <= i < items.len() {
        match kw_of(items[i]) {
            Some(k) => ok_args(
                items,
                i + 2,
                if k == "http"@ {
                    VariantArgs { http_status: int_at(items, i + 1), ..acc }
                } else if k == "serialize"@ {
                    VariantArgs { serialize: kw_at(items, i + 1), ..acc }
                } else {
                    VariantArgs { extra: with_extra(acc.extra, k, items, i + 1), ..acc }
                },
            ),
            None => ok_args(items, i + 1, acc),
        }
    } else {
        acc
    }
}

/// The keyword arguments of an `err` variant from `i` on.
pub open spec fn err_args(items: Seq<SExprView>, i: int, acc: VariantArgs) -> VariantArgs
    decreases left(items.len(), i),
{
    if 0 <= i < items.len() {
        match kw_of(items[i]) {
            Some(k) => err_args(
                items,
                i + 2,
                if k == "http"@ {
                    VariantArgs { http_status: int_at(items, i + 1), ..acc }
                } else {
                    VariantArgs { extra: with_extra(acc.extra, k, items, i + 1), ..acc }
                },
            ),
            None => err_args(items, i + 1, acc),
        }
    } else {
        acc
    }
}

pub open spec fn no_args() -> VariantArgs {
    VariantArgs { http_status: None, serialize: None, extra: Seq::empty() }
}

/// An `ok` variant carries one positional type and keyword metadata. An
/// `err` variant carries a keyword tag, then optionally one positional
/// payload type; without one the payload is `Unit`.
pub open spec fn lower_variant_spec(e: SExprView) -> Result<VariantView, Seq<char>>
    decreases e, 0nat,
{
    match e.kind {
        SExprKindView::List(items) => match sym_at(items, 0) {
            None => Err("expected variant head"@),
            Some(head) => if head == "ok"@ {
                if items.len() > 1 {
                    match lower_type_spec(items[1]) {
                        Err(m) => Err(m),
                        Ok(type_expr) => {
                            let a = ok_args(items, 2, no_args());
                            Ok(
                                VariantView {
                                    kind: VariantKindView::Success {
                                        type_expr,
                                        http_status: a.http_status,
                                        serialize: a.serialize,
                                        extra_meta: a.extra,
                                    },
                                    span: span_of(e),
                                },
                            )
                        },
                    }
                } else {
                    Err("expected ok type"@)
                }
            } else if head == "err"@ {
                match kw_at(items, 1) {
                    None => Err("expected error tag keyword"@),
                    Some(tag) => if items.len() > 2 && kw_of(items[2]).is_none() {
                        match lower_type_spec(items[2]) {
                            Err(m) => Err(m),
                            Ok(payload) => {
                                let a = err_args(items, 3, no_args());
                                Ok(
                                    VariantView {
                                        kind: VariantKindView::Failure {
                                            tag,
                                            payload,
                                            http_status: a.http_status,
                                            extra_meta: a.extra,
                                        },
                                        span: span_of(e),
                                    },
                                )
                            },
                        }
                    } else {
                        let a = err_args(items, 2, no_args());
                        Ok(
                            VariantView {
                                kind: VariantKindView::Failure {
                                    tag,
                                    payload: TypeView::Named("Unit"@),
                                    http_status: a.http_status,
                                    extra_meta: a.extra,
                                },
                                span: span_of(e),
                            },
                        )
                    },
                }
            } else {
                Err(("expected 'ok' or 'err' variant, got '"@ + head).push('\''))
            },
        },
        _ => Err("expected variant to be a list"@),
    }
}

// ---------------------------------------------------------------------------
// Provenance, delta, effect sets
// ---------------------------------------------------------------------------

/// The entries of a provenance map from `i` on, applied to `acc`.
pub open spec fn prov_entries(
    entries: Seq<(SExprView, SExprView)>,
    i: int,
    acc: ProvenanceView,
) -> Result<ProvenanceView, Seq<char>>
    decreases left(entries.len(), i),
{
    if 0 <= i < entries.len() {
        let value = entries[i].1;
        match name_of(entries[i].0) {
            None => Err("expected provenance key to be a symbol or keyword"@),
            Some(k) => prov_entries(
                entries,
                i + 1,
                if k == "req"@ {
                    ProvenanceView { req: str_of(value), ..acc }
                } else if k == "author"@ {
                    ProvenanceView { author: str_of(value), ..acc }
                } else if k == "created"@ {
                    ProvenanceView { created: str_of(value), ..acc }
                } else if k == "test"@ {
                    match value.kind {
                        SExprKindView::Vector(items) => ProvenanceView {
                            test: strings_of(items, 0, acc.test),
                            ..acc
                        },
                        _ => acc,
                    }
                } else {
                    ProvenanceView { extra: acc.extra.push((k, meta_of(value))), ..acc }
                },
            ),
        }
    } else {
        Ok(acc)
    }
}

pub open spec fn lower_provenance_spec(e: SExprView) -> Result<ProvenanceView, Seq<char>> {
    match e.kind {
        SExprKindView::Mapping(entries) => prov_entries(
            entries,
            0,
            ProvenanceView {
                req: None,
                author: None,
                created: None,
                test: Seq::empty(),
                extra: Seq::empty(),
                span: span_of(e),
            },
        ),
        _ => Err("expected provenance to be a map"@),
    }
}

pub open spec fn lower_delta_spec(e: SExprView) -> Result<DeltaView, Seq<char>> {
    match e.kind {
        SExprKindView::List(items) => Ok(
            DeltaView {
                operation: match sym_at(items, 0) {
                    Some(s) => s,
                    None => "unknown"@,
                },
                target: match sym_at(items, 1) {
                    Some(s) => s,
                    None => ""@,
                },
                description: str_at(items, 2),
                span: span_of(e),
            },
        ),
        _ => Err("expected delta to be a list"@),
    }
}

/// The effect kind that a keyword names.
pub open spec fn effect_kind_of(k: Seq<char>) -> Option<EffectKind> {
    if k == "reads"@ {
        Some(EffectKind::Reads)
    } else if k == "writes"@ {
        Some(EffectKind::Writes)
    } else if k == "sends"@ {
        Some(EffectKind::Sends)
    } else {
        None
    }
}

/// The effects written from `j` on, appended to `acc`: each a kind keyword
/// followed by a target symbol.
pub open spec fn effects_of(items: Seq<SExprView>, j: int, acc: Seq<EffectView>) -> Seq<EffectView>
    decreases left(items.len(), j),
{
    if 0 <= j < items.len() {
        match kw_of(items[j]) {
            None => effects_of(items, j + 1, acc),
            Some(k) => match effect_kind_of(k) {
                None => effects_of(items, j + 1, acc),
                Some(kind) => match sym_at(items, j + 1) {
                    Some(target) => effects_of(items, j + 2, acc.push(EffectView { kind, target })),
                    None => effects_of(items, j + 2, acc),
                },
            },
        }
    } else {
        acc
    }
}

pub open spec fn lower_effect_set_spec(e: SExprView) -> Result<EffectSetView, Seq<char>> {
    match e.kind {
        SExprKindView::List(items) => match sym_at(items, 1) {
            None => Err("expected effect-set name"@),
            Some(name) => Ok(
                EffectSetView {
                    name,
                    effects: if items.len() > 2 {
                        match items[2].kind {
                            SExprKindView::Vector(effect_items) => effects_of(
                                effect_items,
                                0,
                                Seq::empty(),
                            ),
                            _ => Seq::empty(),
                        }
                    } else {
                        Seq::empty()
                    },
                    span: span_of(e),
                },
            ),
        },
        _ => Err("expected effect-set to be a list"@),
    }
}

// ---------------------------------------------------------------------------
// Types, fields, parameters, returns, functions, modules
// ---------------------------------------------------------------------------

/// The message for a keyword that ends a form where its value was due.
pub open spec fn missing_value(k: Seq<char>) -> Seq<char> {
    "expected a value after :"@ + k
}

/// The invariants written from `i` on, each kept as its canonical text.
pub open spec fn invariants_of(items: Seq<SExprView>, i: int, acc: Seq<InvariantView>) -> Seq<
    InvariantView,
>
    decreases left(items.len(), i),
{
    if 0 <= i < items.len() {
        invariants_of(
            items,
            i + 1,
            acc.push(InvariantView { raw: format_spec(items[i]), span: span_of(items[i]) }),
        )
    } else {
        acc
    }
}

/// The keywords of a field from `i` on, applied to `acc`. A flag keyword
/// takes no value; an unknown keyword is a flag where no value follows it
/// before the next keyword.
pub open spec fn field_args(items: Seq<SExprView>, i: int, acc: FieldDefView) -> FieldDefView
    decreases left(items.len(), i),
{
    if 0 <= i < items.len() {
        match kw_of(items[i]) {
            None => field_args(items, i + 1, acc),
            Some(k) => if k == "immutable"@ {
                field_args(items, i + 1, FieldDefView { immutable: true, ..acc })
            } else if k == "generated"@ {
                field_args(items, i + 1, FieldDefView { generated: true, ..acc })
            } else if k == "min-len"@ {
                field_args(items, i + 2, FieldDefView { min_len: int_at(items, i + 1), ..acc })
            } else if k == "max-len"@ {
                field_args(items, i + 2, FieldDefView { max_len: int_at(items, i + 1), ..acc })
            } else if k == "format"@ {
                field_args(items, i + 2, FieldDefView { format: kw_at(items, i + 1), ..acc })
            } else if k == "unique-within"@ {
                field_args(
                    items,
                    i + 2,
                    FieldDefView { unique_within: sym_at(items, i + 1), ..acc },
                )
            } else if i + 1 < items.len() && kw_of(items[i + 1]).is_none() {
                field_args(
                    items,
                    i + 2,
                    FieldDefView {
                        extra_meta: acc.extra_meta.push((k, meta_of(items[i + 1]))),
                        ..acc
                    },
                )
            } else {
                field_args(
                    items,
                    i + 1,
                    FieldDefView { extra_meta: acc.extra_meta.push((k, MetaView::Bool(true))), ..acc },
                )
            },
        }
    } else {
        acc
    }
}

/// `(field name Type :keyword value ...)`
pub open spec fn lower_field_spec(e: SExprView) -> Result<FieldDefView, Seq<char>> {
    match e.kind {
        SExprKindView::List(items) => match sym_at(items, 1) {
            None => Err("expected field name"@),
            Some(name) => if items.len() > 2 {
                match lower_type_spec(items[2]) {
                    Err(m) => Err(m),
                    Ok(type_expr) => Ok(
                        field_args(
                            items,
                            3,
                            FieldDefView {
                                name,
                                type_expr,
                                immutable: false,
                                generated: false,
                                min_len: None,
                                max_len: None,
                                format: None,
                                unique_within: None,
                                extra_meta: Seq::empty(),
                                span: span_of(e),
                            },
                        ),
                    ),
                }
            } else {
                Err("expected field type"@)
            },
        },
        _ => Err("expected field to be a list"@),
    }
}

/// The keywords of a parameter from `i` on, applied to `acc`.
pub open spec fn param_args(items: Seq<SExprView>, i: int, acc: ParamDefView) -> ParamDefView
    decreases left(items.len(), i),
{
    if 0 <= i < items.len() {
        match kw_of(items[i]) {
            None => param_args(items, i + 1, acc),
            Some(k) => param_args(
                items,
                i + 2,
                if k == "source"@ {
                    ParamDefView { source: name_at(items, i + 1), ..acc }
                } else if k == "content-type"@ {
                    ParamDefView { content_type: kw_at(items, i + 1), ..acc }
                } else if k == "validated-at"@ {
                    ParamDefView { validated_at: sym_at(items, i + 1), ..acc }
                } else {
                    ParamDefView { extra_meta: with_extra(acc.extra_meta, k, items, i + 1), ..acc }
                },
            ),
        }
    } else {
        acc
    }
}

/// `(param name TypeExpr :keyword value ...)`
pub open spec fn lower_param_spec(e: SExprView) -> Result<ParamDefView, Seq<char>> {
    match e.kind {
        SExprKindView::List(items) => match sym_at(items, 1) {
            None => Err("expected param name"@),
            Some(name) => if items.len() > 2 {
                match lower_type_spec(items[2]) {
                    Err(m) => Err(m),
                    Ok(type_expr) => Ok(
                        param_args(
                            items,
                            3,
                            ParamDefView {
                                name,
                                type_expr,
                                source: None,
                                content_type: None,
                                validated_at: None,
                                extra_meta: Seq::empty(),
                                span: span_of(e),
                            },
                        ),
                    ),
                }
            } else {
                Err("expected param type"@)
            },
        },
        _ => Err("expected param to be a list"@),
    }
}

/// `(returns (union variant...))`
pub open spec fn lower_returns_spec(e: SExprView) -> Result<ReturnsView, Seq<char>> {
    match e.kind {
        SExprKindView::List(items) => if items.len() < 2 {
            Err("expected (returns (union ...))"@)
        } else {
            match items[1].kind {
                SExprKindView::List(union_items) => if sym_at(union_items, 0) == Some("union"@) {
                    match lower_variants(union_items, 1, Seq::empty()) {
                        Ok(variants) => Ok(ReturnsView { variants, span: span_of(e) }),
                        Err(m) => Err(m),
                    }
                } else {
                    Err("expected (union ...) in returns"@)
                },
                _ => Err("expected union in returns"@),
            }
        },
        _ => Err("expected returns to be a list"@),
    }
}

/// The items of a type form from `i` on, applied to `acc`.
pub open spec fn type_items(items: Seq<SExprView>, i: int, acc: TypeDefView) -> Result<
    TypeDefView,
    Seq<char>,
>
    decreases left(items.len(), i),
{
    if 0 <= i < items.len() {
        match kw_of(items[i]) {
            Some(k) => if k == "invariants"@ {
                if i + 1 < items.len() {
                    type_items(
                        items,
                        i + 2,
                        match items[i + 1].kind {
                            SExprKindView::Vector(inv) => TypeDefView {
                                invariants: invariants_of(inv, 0, acc.invariants),
                                ..acc
                            },
                            _ => acc,
                        },
                    )
                } else {
                    Err(missing_value(k))
                }
            } else {
                type_items(
                    items,
                    i + 2,
                    TypeDefView { extra_meta: with_extra(acc.extra_meta, k, items, i + 1), ..acc },
                )
            },
            None => if head_of(items[i]) == Some("field"@) {
                match lower_field_spec(items[i]) {
                    Ok(f) => type_items(items, i + 1, TypeDefView { fields: acc.fields.push(f), ..acc }),
                    Err(m) => Err(m),
                }
            } else {
                type_items(items, i + 1, acc)
            },
        }
    } else {
        Ok(acc)
    }
}

/// `(type Name :invariants [...] (field ...) ...)`
pub open spec fn lower_type_def_spec(e: SExprView) -> Result<TypeDefView, Seq<char>> {
    match e.kind {
        SExprKindView::List(items) => match sym_at(items, 1) {
            None => Err("expected type name"@),
            Some(name) => type_items(
                items,
                2,
                TypeDefView {
                    name,
                    invariants: Seq::empty(),
                    fields: Seq::empty(),
                    extra_meta: Seq::empty(),
                    span: span_of(e),
                },
            ),
        },
        _ => Err("expected type to be a list"@),
    }
}

/// What the items of a function form have said so far.
pub ghost struct FnParts {
    pub provenance: Option<ProvenanceView>,
    pub effects: Seq<Seq<char>>,
    pub total: bool,
    pub latency_budget: Option<Duration>,
    pub called_by: Seq<Seq<char>>,
    pub idempotency_key: Option<ExprView>,
    pub params: Seq<ParamDefView>,
    pub returns: Option<ReturnsView>,
    pub body: Option<ExprView>,
    pub extra: Seq<(Seq<char>, MetaView)>,
}

/// Whether `k` is a keyword of the function form that must have a value.
pub open spec fn fn_keyword(k: Seq<char>) -> bool {
    k == "provenance"@ || k == "effects"@ || k == "total"@ || k == "latency-budget"@ || k
        == "called-by"@ || k == "idempotency-key"@
}

/// `acc` after the known keyword `k` with the value `value`.
pub open spec fn fn_keyword_step(k: Seq<char>, value: SExprView, acc: FnParts) -> Result<
    FnParts,
    Seq<char>,
> {
    if k == "provenance"@ {
        match lower_provenance_spec(value) {
            Ok(p) => Ok(FnParts { provenance: Some(p), ..acc }),
            Err(m) => Err(m),
        }
    } else if k == "effects"@ {
        match value.kind {
            SExprKindView::Vector(v) => Ok(FnParts { effects: symbols_of(v, 0, acc.effects), ..acc }),
            _ => Ok(acc),
        }
    } else if k == "total"@ {
        Ok(
            FnParts {
                total: match bool_of(value) {
                    Some(b) => b,
                    None => false,
                },
                ..acc
            },
        )
    } else if k == "latency-budget"@ {
        match value.kind {
            SExprKindView::Atom(AtomView::DurationLit(v, u)) => Ok(
                FnParts { latency_budget: Some(Duration { value: v, unit: u }), ..acc },
            ),
            _ => Ok(acc),
        }
    } else if k == "called-by"@ {
        match value.kind {
            SExprKindView::Vector(v) => Ok(
                FnParts { called_by: symbols_of(v, 0, acc.called_by), ..acc },
            ),
            _ => Ok(acc),
        }
    } else {
        match lower_expr_spec(value) {
            Ok(x) => Ok(FnParts { idempotency_key: Some(x), ..acc }),
            Err(m) => Err(m),
        }
    }
}

/// `acc` after the list item `e` whose head symbol is `head`.
pub open spec fn fn_form_step(head: Seq<char>, e: SExprView, acc: FnParts) -> Result<
    FnParts,
    Seq<char>,
> {
    if head == "param"@ {
        match lower_param_spec(e) {
            Ok(p) => Ok(FnParts { params: acc.params.push(p), ..acc }),
            Err(m) => Err(m),
        }
    } else if head == "returns"@ {
        match lower_returns_spec(e) {
            Ok(r) => Ok(FnParts { returns: Some(r), ..acc }),
            Err(m) => Err(m),
        }
    } else {
        match lower_expr_spec(e) {
            Ok(x) => Ok(FnParts { body: Some(x), ..acc }),
            Err(m) => Err(m),
        }
    }
}

/// The items of a function form from `i` on, applied to `acc`.
pub open spec fn fn_items(items: Seq<SExprView>, i: int, acc: FnParts) -> Result<FnParts, Seq<char>>
    decreases left(items.len(), i),
{
    if 0 <= i < items.len() {
        match kw_of(items[i]) {
            Some(k) => if fn_keyword(k) {
                if i + 1 < items.len() {
                    match fn_keyword_step(k, items[i + 1], acc) {
                        Ok(next) => fn_items(items, i + 2, next),
                        Err(m) => Err(m),
                    }
                } else {
                    Err(missing_value(k))
                }
            } else {
                fn_items(items, i + 2, FnParts { extra: with_extra(acc.extra, k, items, i + 1), ..acc })
            },
            None => match head_of(items[i]) {
                Some(head) => match fn_form_step(head, items[i], acc) {
                    Ok(next) => fn_items(items, i + 1, next),
                    Err(m) => Err(m),
                },
                None => fn_items(items, i + 1, acc),
            },
        }
    } else {
        Ok(acc)
    }
}

pub open spec fn no_fn_parts() -> FnParts {
    FnParts {
        provenance: None,
        effects: Seq::empty(),
        total: false,
        latency_budget: None,
        called_by: Seq::empty(),
        idempotency_key: None,
        params: Seq::empty(),
        returns: None,
        body: None,
        extra: Seq::empty(),
    }
}

/// `(fn name :keyword value ... (param ...) (returns ...) body)`
pub open spec fn lower_fn_spec(e: SExprView) -> Result<FnDefView, Seq<char>> {
    match e.kind {
        SExprKindView::List(items) => match sym_at(items, 1) {
            None => Err("expected function name"@),
            Some(name) => match fn_items(items, 2, no_fn_parts()) {
                Err(m) => Err(m),
                Ok(a) => match a.returns {
                    None => Err("expected (returns ...) in function"@),
                    Some(ret) => match a.body {
                        None => Err("expected body expression in function"@),
                        Some(body) => Ok(
                            FnDefView {
                                name,
                                provenance: a.provenance,
                                effects: a.effects,
                                total: a.total,
                                latency_budget: a.latency_budget,
                                called_by: a.called_by,
                                idempotency_key: a.idempotency_key,
                                params: a.params,
                                returns: ret,
                                body,
                                extra_meta: a.extra,
                                span: span_of(e),
                            },
                        ),
                    },
                },
            },
        },
        _ => Err("expected fn to be a list"@),
    }
}

/// What lowering a module yields: the module or the first failure, and the
/// warnings raised on the way.
pub ghost struct ModuleOutcome {
    pub result: Result<ModuleView, Seq<char>>,
    pub warnings: Seq<DiagnosticView>,
}

/// Whether `k` is a keyword of the module form that must have a value.
pub open spec fn module_keyword(k: Seq<char>) -> bool {
    k == "provenance"@ || k == "version"@ || k == "parent-version"@ || k == "delta"@
}

/// `acc` after the known keyword `k` with the value `value`.
pub open spec fn module_keyword_step(k: Seq<char>, value: SExprView, acc: ModuleView) -> Result<
    ModuleView,
    Seq<char>,
> {
    if k == "provenance"@ {
        match lower_provenance_spec(value) {
            Ok(p) => Ok(ModuleView { provenance: Some(p), ..acc }),
            Err(m) => Err(m),
        }
    } else if k == "version"@ {
        Ok(ModuleView { version: int_of(value), ..acc })
    } else if k == "parent-version"@ {
        Ok(ModuleView { parent_version: int_of(value), ..acc })
    } else {
        match lower_delta_spec(value) {
            Ok(d) => Ok(ModuleView { delta: Some(d), ..acc }),
            Err(m) => Err(m),
        }
    }
}

/// Whether `head` opens a top-level form that the module knows.
pub open spec fn module_form(head: Seq<char>) -> bool {
    head == "type"@ || head == "effect-set"@ || head == "fn"@
}

/// `acc` after the known top-level form `e` whose head symbol is `head`.
pub open spec fn module_form_step(head: Seq<char>, e: SExprView, acc: ModuleView) -> Result<
    ModuleView,
    Seq<char>,
> {
    if head == "type"@ {
        match lower_type_def_spec(e) {
            Ok(t) => Ok(ModuleView { types: acc.types.push(t), ..acc }),
            Err(m) => Err(m),
        }
    } else if head == "effect-set"@ {
        match lower_effect_set_spec(e) {
            Ok(s) => Ok(ModuleView { effect_sets: acc.effect_sets.push(s), ..acc }),
            Err(m) => Err(m),
        }
    } else {
        match lower_fn_spec(e) {
            Ok(f) => Ok(ModuleView { functions: acc.functions.push(f), ..acc }),
            Err(m) => Err(m),
        }
    }
}

/// The warning for a top-level list whose head the module does not know.
pub open spec fn unknown_form_warning(head: Seq<char>, e: SExprView) -> DiagnosticView {
    warning_view(("unknown top-level form '"@ + head).push('\''), Some(span_of(e)))
}

/// The items of a module form from `i` on, applied to `acc`. A top-level
/// list with an unknown head is dropped with a warning.
pub open spec fn module_items(
    items: Seq<SExprView>,
    i: int,
    acc: ModuleView,
    warnings: Seq<DiagnosticView>,
) -> ModuleOutcome
    decreases left(items.len(), i),
{
    if 0 <= i < items.len() {
        match kw_of(items[i]) {
            Some(k) => if module_keyword(k) {
                if i + 1 < items.len() {
                    match module_keyword_step(k, items[i + 1], acc) {
                        Ok(next) => module_items(items, i + 2, next, warnings),
                        Err(m) => ModuleOutcome { result: Err(m), warnings },
                    }
                } else {
                    ModuleOutcome { result: Err(missing_value(k)), warnings }
                }
            } else {
                module_items(
                    items,
                    i + 2,
                    ModuleView { extra_meta: with_extra(acc.extra_meta, k, items, i + 1), ..acc },
                    warnings,
                )
            },
            None => match head_of(items[i]) {
                Some(head) => if module_form(head) {
                    match module_form_step(head, items[i], acc) {
                        Ok(next) => module_items(items, i + 1, next, warnings),
                        Err(m) => ModuleOutcome { result: Err(m), warnings },
                    }
                } else {
                    module_items(
                        items,
                        i + 1,
                        acc,
                        warnings.push(unknown_form_warning(head, items[i])),
                    )
                },
                None => module_items(items, i + 1, acc, warnings),
            },
        }
    } else {
        ModuleOutcome { result: Ok(acc), warnings }
    }
}

/// `(module NAME :keyword value ... forms...)`, form by form, with the
/// warnings for the forms that are not known.
pub open spec fn module_forms_spec(e: SExprView) -> ModuleOutcome {
    match e.kind {
        SExprKindView::List(items) => if sym_at(items, 0) != Some("module"@) {
            ModuleOutcome { result: Err("expected (module ...)"@), warnings: Seq::empty() }
        } else {
            match sym_at(items, 1) {
                None => ModuleOutcome { result: Err("expected module name"@), warnings: Seq::empty() },
                Some(name) => module_items(
                    items,
                    2,
                    ModuleView {
                        name,
                        provenance: None,
                        version: None,
                        parent_version: None,
                        delta: None,
                        types: Seq::empty(),
                        effect_sets: Seq::empty(),
                        functions: Seq::empty(),
                        extra_meta: Seq::empty(),
                        span: span_of(e),
                    },
                    Seq::empty(),
                ),
            }
        },
        _ => ModuleOutcome { result: Err("expected module to be a list"@), warnings: Seq::empty() },
    }
}

// ---------------------------------------------------------------------------
// The place of a failure
// ---------------------------------------------------------------------------

/// Whether the value of a module keyword lowers.
pub open spec fn module_value_ok(k: Seq<char>, value: SExprView) -> bool {
    module_keyword_step(
        k,
        value,
        ModuleView {
            name: Seq::empty(),
            provenance: None,
            version: None,
            parent_version: None,
            delta: None,
            types: Seq::empty(),
            effect_sets: Seq::empty(),
            functions: Seq::empty(),
            extra_meta: Seq::empty(),
            span: span_of(value),
        },
    ) is Ok
}

/// Whether a top-level form with the head `head` lowers.
pub open spec fn module_form_ok(head: Seq<char>, e: SExprView) -> bool {
    if head == "type"@ {
        lower_type_def_spec(e) is Ok
    } else if head == "effect-set"@ {
        lower_effect_set_spec(e) is Ok
    } else {
        lower_fn_spec(e) is Ok
    }
}

/// The span of the first item from `i` on at which lowering a module
/// fails: a keyword without a value, the value of a keyword that does not
/// lower, or a type, effect set or function that does not lower.
pub open spec fn item_fault(items: Seq<SExprView>, i: int) -> Option<Span>
    decreases left(items.len(), i),
{
    if 0 <= i < items.len() {
        match kw_of(items[i]) {
            Some(k) => if module_keyword(k) {
                if i + 1 < items.len() {
                    if module_value_ok(k, items[i + 1]) {
                        item_fault(items, i + 2)
                    } else {
                        Some(span_of(items[i + 1]))
                    }
                } else {
                    Some(span_of(items[i]))
                }
            } else {
                item_fault(items, i + 2)
            },
            None => match head_of(items[i]) {
                Some(head) => if module_form(head) && !module_form_ok(head, items[i]) {
                    Some(span_of(items[i]))
                } else {
                    item_fault(items, i + 1)
                },
                None => item_fault(items, i + 1),
            },
        }
    } else {
        None
    }
}

/// The span of the form at which lowering a module fails, if it fails: the
/// module form itself where it is no list, has another head or no name,
/// else the first item at fault.
pub open spec fn fault_span(e: SExprView) -> Option<Span> {
    match e.kind {
        SExprKindView::List(items) => if sym_at(items, 0) != Some("module"@) || sym_at(items, 1)
            is None {
            Some(span_of(e))
        } else {
            item_fault(items, 2)
        },
        _ => Some(span_of(e)),
    }
}

proof fn lemma_item_fault(items: Seq<SExprView>, i: int, acc: ModuleView, w: Seq<DiagnosticView>)
    requires
        0 <= i,
    ensures
        module_items(items, i, acc, w).result is Err <==> item_fault(items, i) is Some,
    decreases left(items.len(), i),
{
    if i < items.len() {
        match kw_of(items[i]) {
            Some(k) => {
                if module_keyword(k) {
                    if i + 1 < items.len() {
                        if let Ok(next) = module_keyword_step(k, items[i + 1], acc) {
                            lemma_item_fault(items, i + 2, next, w);
                        }
                    }
                } else {
                    lemma_item_fault(
                        items,
                        i + 2,
                        ModuleView { extra_meta: with_extra(acc.extra_meta, k, items, i + 1), ..acc },
                        w,
                    );
                }
            },
            None => {
                match head_of(items[i]) {
                    Some(head) => {
                        if module_form(head) {
                            if let Ok(next) = module_form_step(head, items[i], acc) {
                                lemma_item_fault(items, i + 1, next, w);
                            }
                        } else {
                            lemma_item_fault(
                                items,
                                i + 1,
                                acc,
                                w.push(unknown_form_warning(head, items[i])),
                            );
                        }
                    },
                    None => {
                        lemma_item_fault(items, i + 1, acc, w);
                    },
                }
            },
        }
    }
}

/// Lowering a module fails exactly where a form is at fault.
pub proof fn lemma_fault_span(e: SExprView)
    ensures
        lower_module_spec(e).result is Err <==> fault_span(e) is Some,
{
    if let SExprKindView::List(items) = e.kind {
        if sym_at(items, 0) == Some("module"@) {
            if let Some(name) = sym_at(items, 1) {
                lemma_item_fault(
                    items,
                    2,
                    ModuleView {
                        name,
                        provenance: None,
                        version: None,
                        parent_version: None,
                        delta: None,
                        types: Seq::empty(),
                        effect_sets: Seq::empty(),
                        functions: Seq::empty(),
                        extra_meta: Seq::empty(),
                        span: span_of(e),
                    },
                    Seq::empty(),
                );
            }
        }
    }
}

// ---------------------------------------------------------------------------
// Duplicate names
// ---------------------------------------------------------------------------

/// Whether `name` is among the first `n` names.
pub open spec fn named_before(names: Seq<Seq<char>>, name: Seq<char>, n: int) -> bool
    decreases n,
{
    if n <= 0 || n > names.len() {
        false
    } else {
        names[n - 1] == name || named_before(names, name, n - 1)
    }
}

/// The warning for a declaration whose name was declared before.
pub open spec fn duplicate_view(what: Seq<char>, name: Seq<char>, span: Span) -> DiagnosticView {
    warning_view("duplicate "@ + what + " '"@ + name + "'"@, Some(span))
}

/// `acc` followed by one warning for each name from `i` on that occurs
/// earlier among the names, at the span of the later declaration.
pub open spec fn duplicates(
    what: Seq<char>,
    names: Seq<Seq<char>>,
    spans: Seq<Span>,
    i: int,
    acc: Seq<DiagnosticView>,
) -> Seq<DiagnosticView>
    decreases left(names.len(), i),
{
    if 0 <= i < names.len() && i < spans.len() {
        duplicates(
            what,
            names,
            spans,
            i + 1,
            if named_before(names, names[i], i) {
                acc.push(duplicate_view(what, names[i], spans[i]))
            } else {
                acc
            },
        )
    } else {
        acc
    }
}

pub open spec fn type_names(types: Seq<TypeDefView>) -> Seq<Seq<char>> {
    Seq::new(types.len(), |i: int| types[i].name)
}

pub open spec fn type_spans(types: Seq<TypeDefView>) -> Seq<Span> {
    Seq::new(types.len(), |i: int| types[i].span)
}

pub open spec fn field_names(fields: Seq<FieldDefView>) -> Seq<Seq<char>> {
    Seq::new(fields.len(), |i: int| fields[i].name)
}

pub open spec fn field_spans(fields: Seq<FieldDefView>) -> Seq<Span> {
    Seq::new(fields.len(), |i: int| fields[i].span)
}

pub open spec fn set_names(sets: Seq<EffectSetView>) -> Seq<Seq<char>> {
    Seq::new(sets.len(), |i: int| sets[i].name)
}

pub open spec fn set_spans(sets: Seq<EffectSetView>) -> Seq<Span> {
    Seq::new(sets.len(), |i: int| sets[i].span)
}

pub open spec fn fn_names(fns: Seq<FnDefView>) -> Seq<Seq<char>> {
    Seq::new(fns.len(), |i: int| fns[i].name)
}

pub open spec fn fn_spans(fns: Seq<FnDefView>) -> Seq<Span> {
    Seq::new(fns.len(), |i: int| fns[i].span)
}

/// `acc` followed by the warnings for the duplicate field names within
/// each type from `i` on.
pub open spec fn field_duplicates(types: Seq<TypeDefView>, i: int, acc: Seq<DiagnosticView>) -> Seq<
    DiagnosticView,
>
    decreases left(types.len(), i),
{
    if 0 <= i < types.len() {
        field_duplicates(
            types,
            i + 1,
            duplicates("field"@, field_names(types[i].fields), field_spans(types[i].fields), 0, acc),
        )
    } else {
        acc
    }
}

/// The warnings for the names of a module that are declared more than
/// once: types, fields within each type, effect sets and functions, in that
/// order; each later declaration is named once. A module form declares one
/// module, so a module name cannot occur twice.
pub open spec fn duplicate_warnings(m: ModuleView) -> Seq<DiagnosticView> {
    let a = duplicates("type"@, type_names(m.types), type_spans(m.types), 0, Seq::empty());
    let b = field_duplicates(m.types, 0, a);
    let c = duplicates("effect set"@, set_names(m.effect_sets), set_spans(m.effect_sets), 0, b);
    duplicates("function"@, fn_names(m.functions), fn_spans(m.functions), 0, c)
}

/// `(module NAME :keyword value ... forms...)`: the module with every
/// declaration in source order, or the first failure; and the warnings
/// raised on the way, which are those for unknown forms followed, where
/// lowering succeeds, by those for duplicate names.
pub open spec fn lower_module_spec(e: SExprView) -> ModuleOutcome {
    let out = module_forms_spec(e);
    match out.result {
        Ok(m) => ModuleOutcome { result: out.result, warnings: out.warnings + duplicate_warnings(m) },
        Err(_) => out,
    }
}

/// Whether `r` is what `spec` prescribes: a value with that view, or that
/// message.
pub open spec fn expr_agrees(r: Result<Expr, String>, spec: Result<ExprView, Seq<char>>) -> bool {
    match r {
        Ok(x) => spec == Ok::<ExprView, Seq<char>>(x@),
        Err(m) => spec == Err::<ExprView, Seq<char>>(m@),
    }
}

/// Whether `r` is what `spec` prescribes: a value with that view, or that
/// message.
pub open spec fn pattern_agrees(r: Result<Pattern, String>, spec: Result<PatternView, Seq<char>>) -> bool {
    match r {
        Ok(x) => spec == Ok::<PatternView, Seq<char>>(x@),
        Err(m) => spec == Err::<PatternView, Seq<char>>(m@),
    }
}

/// Whether `r` is what `spec` prescribes: a value with that view, or that
/// message.
pub open spec fn type_expr_agrees(r: Result<TypeExpr, String>, spec: Result<TypeView, Seq<char>>) -> bool {
    match r {
        Ok(x) => spec == Ok::<TypeView, Seq<char>>(x@),
        Err(m) => spec == Err::<TypeView, Seq<char>>(m@),
    }
}

/// Whether `r` is what `spec` prescribes: a value with that view, or that
/// message.
pub open spec fn variant_agrees(r: Result<Variant, String>, spec: Result<VariantView, Seq<char>>) -> bool {
    match r {
        Ok(x) => spec == Ok::<VariantView, Seq<char>>(x@),
        Err(m) => spec == Err::<VariantView, Seq<char>>(m@),
    }
}

/// Whether `r` is what `spec` prescribes: a value with that view, or that
/// message.
pub open spec fn provenance_agrees(r: Result<Provenance, String>, spec: Result<ProvenanceView, Seq<char>>) -> bool {
    match r {
        Ok(x) => spec == Ok::<ProvenanceView, Seq<char>>(x@),
        Err(m) => spec == Err::<ProvenanceView, Seq<char>>(m@),
    }
}

/// Whether `r` is what `spec` prescribes: a value with that view, or that
/// message.
pub open spec fn delta_agrees(r: Result<Delta, String>, spec: Result<DeltaView, Seq<char>>) -> bool {
    match r {
        Ok(x) => spec == Ok::<DeltaView, Seq<char>>(x@),
        Err(m) => spec == Err::<DeltaView, Seq<char>>(m@),
    }
}

/// Whether `r` is what `spec` prescribes: a value with that view, or that
/// message.
pub open spec fn effect_set_def_agrees(r: Result<EffectSetDef, String>, spec: Result<EffectSetView, Seq<char>>) -> bool {
    match r {
        Ok(x) => spec == Ok::<EffectSetView, Seq<char>>(x@),
        Err(m) => spec == Err::<EffectSetView, Seq<char>>(m@),
    }
}

/// Whether `r` is what `spec` prescribes: a value with that view, or that
/// message.
pub open spec fn field_def_agrees(r: Result<FieldDef, String>, spec: Result<FieldDefView, Seq<char>>) -> bool {
    match r {
        Ok(x) => spec == Ok::<FieldDefView, Seq<char>>(x@),
        Err(m) => spec == Err::<FieldDefView, Seq<char>>(m@),
    }
}

/// Whether `r` is what `spec` prescribes: a value with that view, or that
/// message.
pub open spec fn param_def_agrees(r: Result<ParamDef, String>, spec: Result<ParamDefView, Seq<char>>) -> bool {
    match r {
        Ok(x) => spec == Ok::<ParamDefView, Seq<char>>(x@),
        Err(m) => spec == Err::<ParamDefView, Seq<char>>(m@),
    }
}

/// Whether `r` is what `spec` prescribes: a value with that view, or that
/// message.
pub open spec fn returns_def_agrees(r: Result<ReturnsDef, String>, spec: Result<ReturnsView, Seq<char>>) -> bool {
    match r {
        Ok(x) => spec == Ok::<ReturnsView, Seq<char>>(x@),
        Err(m) => spec == Err::<ReturnsView, Seq<char>>(m@),
    }
}

/// Whether `r` is what `spec` prescribes: a value with that view, or that
/// message.
pub open spec fn type_def_agrees(r: Result<TypeDef, String>, spec: Result<TypeDefView, Seq<char>>) -> bool {
    match r {
        Ok(x) => spec == Ok::<TypeDefView, Seq<char>>(x@),
        Err(m) => spec == Err::<TypeDefView, Seq<char>>(m@),
    }
}

/// Whether `r` is what `spec` prescribes: a value with that view, or that
/// message.
pub open spec fn fn_def_agrees(r: Result<FnDef, String>, spec: Result<FnDefView, Seq<char>>) -> bool {
    match r {
        Ok(x) => spec == Ok::<FnDefView, Seq<char>>(x@),
        Err(m) => spec == Err::<FnDefView, Seq<char>>(m@),
    }
}

/// Whether `r` is what `spec` prescribes: a value with that view, or that
/// message.
pub open spec fn module_agrees(r: Result<Module, String>, spec: Result<ModuleView, Seq<char>>) -> bool {
    match r {
        Ok(x) => spec == Ok::<ModuleView, Seq<char>>(x@),
        Err(m) => spec == Err::<ModuleView, Seq<char>>(m@),
    }
}

/// A failure with its message and the span of the form at fault.
fn fail_at<T>(msg: &str, span: &Span) -> (r: Result<T, (String, Span)>)
    ensures
        r matches Err(f) && f.0@ == msg@ && f.1 == *span,
{
    Err((String::from_str(msg), copy_span(span)))
}

/// `"expected a value after :"` followed by the keyword, with the span of
/// the keyword.
fn missing_at<T>(kw: &str, span: &Span) -> (r: Result<T, (String, Span)>)
    ensures
        r matches Err(f) && f.0@ == missing_value(kw@) && f.1 == *span,
{
    let mut msg = String::from_str("expected a value after :");
    msg.append(kw);
    Err((msg, copy_span(span)))
}

fn fail<T>(msg: &str) -> (r: Result<T, String>)
    ensures
        r matches Err(m) && m@ == msg@,
{
    Err(String::from_str(msg))
}

/// `acc` followed by duplicates is the duplicates appended to `acc`.
pub proof fn lemma_duplicates_prefix(
    what: Seq<char>,
    names: Seq<Seq<char>>,
    spans: Seq<Span>,
    i: int,
    acc: Seq<DiagnosticView>,
)
    ensures
        duplicates(what, names, spans, i, acc) == acc + duplicates(
            what,
            names,
            spans,
            i,
            Seq::empty(),
        ),
    decreases left(names.len(), i),
{
    let none = Seq::<DiagnosticView>::empty();
    if 0 <= i < names.len() && i < spans.len() {
        if named_before(names, names[i], i) {
            let d = duplicate_view(what, names[i], spans[i]);
            lemma_duplicates_prefix(what, names, spans, i + 1, acc.push(d));
            lemma_duplicates_prefix(what, names, spans, i + 1, none.push(d));
            let rest = duplicates(what, names, spans, i + 1, none);
            assert(acc.push(d) + rest =~= acc + (none.push(d) + rest));
        } else {
            lemma_duplicates_prefix(what, names, spans, i + 1, acc);
        }
    } else {
        assert(acc + none =~= acc);
    }
}

proof fn lemma_field_duplicates_prefix(types: Seq<TypeDefView>, i: int, acc: Seq<DiagnosticView>)
    ensures
        field_duplicates(types, i, acc) == acc + field_duplicates(types, i, Seq::empty()),
    decreases left(types.len(), i),
{
    let none = Seq::<DiagnosticView>::empty();
    if 0 <= i < types.len() {
        let names = field_names(types[i].fields);
        let spans = field_spans(types[i].fields);
        let a = duplicates("field"@, names, spans, 0, acc);
        let b = duplicates("field"@, names, spans, 0, none);
        lemma_duplicates_prefix("field"@, names, spans, 0, acc);
        lemma_field_duplicates_prefix(types, i + 1, a);
        lemma_field_duplicates_prefix(types, i + 1, b);
        let rest = field_duplicates(types, i + 1, none);
        assert((acc + b) + rest =~= acc + (b + rest));
    } else {
        assert(acc + none =~= acc);
    }
}

/// The warnings for duplicate names, written behind `acc`.
pub open spec fn duplicates_behind(m: ModuleView, acc: Seq<DiagnosticView>) -> Seq<DiagnosticView> {
    let a = duplicates("type"@, type_names(m.types), type_spans(m.types), 0, acc);
    let b = field_duplicates(m.types, 0, a);
    let c = duplicates("effect set"@, set_names(m.effect_sets), set_spans(m.effect_sets), 0, b);
    duplicates("function"@, fn_names(m.functions), fn_spans(m.functions), 0, c)
}

proof fn lemma_duplicates_append(m: ModuleView, acc: Seq<DiagnosticView>)
    ensures
        duplicates_behind(m, acc) == acc + duplicate_warnings(m),
{
    let none = Seq::<DiagnosticView>::empty();
    let tn = type_names(m.types);
    let ts = type_spans(m.types);
    let sn = set_names(m.effect_sets);
    let ss = set_spans(m.effect_sets);
    let fnn = fn_names(m.functions);
    let fs = fn_spans(m.functions);
    let a0 = duplicates("type"@, tn, ts, 0, none);
    let b0 = field_duplicates(m.types, 0, a0);
    let c0 = duplicates("effect set"@, sn, ss, 0, b0);
    let a = duplicates("type"@, tn, ts, 0, acc);
    let b = field_duplicates(m.types, 0, a);
    let c = duplicates("effect set"@, sn, ss, 0, b);
    lemma_duplicates_prefix("type"@, tn, ts, 0, acc);
    lemma_field_duplicates_prefix(m.types, 0, a);
    lemma_field_duplicates_prefix(m.types, 0, a0);
    let fd = field_duplicates(m.types, 0, none);
    assert(b == (acc + a0) + fd);
    assert(b0 == a0 + fd);
    assert((acc + a0) + fd =~= acc + b0);
    lemma_duplicates_prefix("effect set"@, sn, ss, 0, b);
    lemma_duplicates_prefix("effect set"@, sn, ss, 0, b0);
    let sd = duplicates("effect set"@, sn, ss, 0, none);
    assert((acc + b0) + sd =~= acc + (b0 + sd));
    lemma_duplicates_prefix("function"@, fnn, fs, 0, c);
    lemma_duplicates_prefix("function"@, fnn, fs, 0, c0);
    let fd2 = duplicates("function"@, fnn, fs, 0, none);
    assert((acc + c0) + fd2 =~= acc + (c0 + fd2));
}

/// Whether `name` is among the first `n` names.
fn is_named_before(names: &Vec<String>, name: &str, n: usize) -> (r: bool)
    requires
        n <= names.len(),
    ensures
        r == named_before(strs_view(names@), name@, n as int),
{
    let ghost vs = strs_view(names@);
    let mut k: usize = n;
    while k > 0
        invariant
            k <= n,
            named_before(vs, name@, n as int) == named_before(vs, name@, k as int),
        decreases k,
    {
        if str_eq(names[k - 1].as_str(), name) {
            return true;
        }
        k -= 1;
    }
    false
}

/// Appends one warning for each name that occurs earlier among the names.
fn report_duplicates(out: &mut Vec<Diagnostic>, what: &str, names: &Vec<String>, spans: &Vec<Span>)
    requires
        names.len() == spans.len(),
    ensures
        diags_view(final(out)@) == duplicates(
            what@,
            strs_view(names@),
            spans@,
            0,
            diags_view(old(out)@),
        ),
{
    broadcast use crate::diagnostics::lemma_diags_view_push;

    let ghost vs = strs_view(names@);
    let ghost goal = duplicates(what@, vs, spans@, 0, diags_view(out@));
    let mut i: usize = 0;
    while i < names.len()
        invariant
            i <= names.len(),
            names.len() == spans.len(),
            duplicates(what@, vs, spans@, i as int, diags_view(out@)) == goal,
        decreases names.len() - i,
    {
        if is_named_before(names, names[i].as_str(), i) {
            let mut message = String::from_str("duplicate ");
            message.append(what);
            message.append(" '");
            message.append(names[i].as_str());
            message.append("'");
            out.push(Diagnostic::warning(message, Some(copy_span(&spans[i]))));
        }
        i += 1;
    }
}

/// Appends the warnings for the names of a module that are declared more
/// than once.
fn report_module_duplicates(out: &mut Vec<Diagnostic>, m: &Module)
    ensures
        diags_view(final(out)@) == duplicates_behind(m@, diags_view(old(out)@)),
{
    let mut names: Vec<String> = Vec::new();
    let mut spans: Vec<Span> = Vec::new();
    let mut i: usize = 0;
    while i < m.types.len()
        invariant
            i <= m.types.len(),
            names.len() == i,
            spans.len() == i,
            out@ == old(out)@,
            forall|k: int| 0 <= k < i ==> (#[trigger] names@[k])@ == m.types@[k]@.name,
            forall|k: int| 0 <= k < i ==> #[trigger] spans@[k] == m.types@[k]@.span,
        decreases m.types.len() - i,
    {
        let name = m.types[i].name.clone();
        assert(name@ == m.types@[i as int]@.name);
        names.push(name);
        spans.push(copy_span(&m.types[i].span));
        i += 1;
    }
    assert(strs_view(names@) =~= type_names(m@.types));
    assert(spans@ =~= type_spans(m@.types));
    report_duplicates(out, "type", &names, &spans);
    let ghost start = diags_view(out@);
    let mut i: usize = 0;
    while i < m.types.len()
        invariant
            i <= m.types.len(),
            field_duplicates(m@.types, i as int, diags_view(out@)) == field_duplicates(
                m@.types,
                0,
                start,
            ),
        decreases m.types.len() - i,
    {
        let t = &m.types[i];
        let mut names: Vec<String> = Vec::new();
        let mut spans: Vec<Span> = Vec::new();
        let mut j: usize = 0;
        while j < t.fields.len()
            invariant
                j <= t.fields.len(),
                names.len() == j,
                spans.len() == j,
                forall|k: int| 0 <= k < j ==> (#[trigger] names@[k])@ == t.fields@[k]@.name,
                forall|k: int| 0 <= k < j ==> #[trigger] spans@[k] == t.fields@[k]@.span,
            decreases t.fields.len() - j,
        {
            names.push(t.fields[j].name.clone());
            spans.push(copy_span(&t.fields[j].span));
            j += 1;
        }
        assert(m@.types[i as int] == t@);
        assert(strs_view(names@) =~= field_names(t@.fields));
        assert(spans@ =~= field_spans(t@.fields));
        report_duplicates(out, "field", &names, &spans);
        i += 1;
    }
    let mut names: Vec<String> = Vec::new();
    let mut spans: Vec<Span> = Vec::new();
    let mut i: usize = 0;
    while i < m.effect_sets.len()
        invariant
            i <= m.effect_sets.len(),
            names.len() == i,
            spans.len() == i,
            forall|k: int| 0 <= k < i ==> (#[trigger] names@[k])@ == m.effect_sets@[k]@.name,
            forall|k: int| 0 <= k < i ==> #[trigger] spans@[k] == m.effect_sets@[k]@.span,
        decreases m.effect_sets.len() - i,
    {
        names.push(m.effect_sets[i].name.clone());
        spans.push(copy_span(&m.effect_sets[i].span));
        i += 1;
    }
    assert(strs_view(names@) =~= set_names(m@.effect_sets));
    assert(spans@ =~= set_spans(m@.effect_sets));
    report_duplicates(out, "effect set", &names, &spans);
    let mut names: Vec<String> = Vec::new();
    let mut spans: Vec<Span> = Vec::new();
    let mut i: usize = 0;
    while i < m.functions.len()
        invariant
            i <= m.functions.len(),
            names.len() == i,
            spans.len() == i,
            forall|k: int| 0 <= k < i ==> (#[trigger] names@[k])@ == m.functions@[k]@.name,
            forall|k: int| 0 <= k < i ==> #[trigger] spans@[k] == m.functions@[k]@.span,
        decreases m.functions.len() - i,
    {
        names.push(m.functions[i].name.clone());
        spans.push(copy_span(&m.functions[i].span));
        i += 1;
    }
    assert(strs_view(names@) =~= fn_names(m@.functions));
    assert(spans@ =~= fn_spans(m@.functions));
    report_duplicates(out, "function", &names, &spans);
}

fn copy_span(s: &Span) -> (r: Span)
    ensures
        r == *s,
{
    Span { start: s.start, end: s.end }
}

/// Appends the canonical text of `sexpr`.
fn format_node(out: &mut String, sexpr: &SExpr)
    ensures
        final(out)@ == format_into(old(out)@, sexpr@),
    decreases sexpr,
{
    match &sexpr.kind {
        SExprKind::Atom(AtomKind::Symbol(s)) => {
            out.append(s.as_str());
        },
        SExprKind::Atom(AtomKind::Keyword(s)) => {
            out.push(':');
            out.append(s.as_str());
        },
        SExprKind::Atom(AtomKind::StringLit(s)) => {
            out.push('"');
            out.append(s.as_str());
            out.push('"');
        },
        SExprKind::Atom(AtomKind::IntLit(n)) => {
            push_i64(out, *n);
        },
        SExprKind::Atom(AtomKind::BoolLit(b)) => {
            if *b {
                out.append("true");
            } else {
                out.append("false");
            }
        },
        SExprKind::Atom(AtomKind::DurationLit(n, u)) => {
            push_u64(out, *n);
            let unit = u.to_string();
            out.append(unit.as_str());
        },
        SExprKind::Atom(AtomKind::RegexLit(s)) => {
            out.append("#/");
            out.append(s.as_str());
            out.push('/');
        },
        SExprKind::List(items) => {
            out.push('(');
            format_children(out, items);
            out.push(')');
        },
        SExprKind::Vector(items) => {
            out.push('[');
            format_children(out, items);
            out.push(']');
        },
        SExprKind::Mapping(entries) => {
            out.push('{');
            let ghost vs = entries_view(entries@);
            let ghost start = out@;
            let mut i: usize = 0;
            while i < entries.len()
                invariant
                    i <= entries.len(),
                    format_entries(out@, vs, i as int) == format_entries(start, vs, 0),
                decreases entries.len() - i,
            {
                if i > 0 {
                    out.append(", ");
                }
                format_node(out, &entries[i].0);
                out.append(": ");
                format_node(out, &entries[i].1);
                i += 1;
            }
            out.push('}');
        },
    }
}

/// Appends the canonical text of `items`, separated by one space.
fn format_children(out: &mut String, items: &Vec<SExpr>)
    ensures
        final(out)@ == format_items(old(out)@, sexprs_view(items@), 0),
    decreases items,
{
    let ghost vs = sexprs_view(items@);
    let mut i: usize = 0;
    while i < items.len()
        invariant
            i <= items.len(),
            format_items(out@, vs, i as int) == format_items(old(out)@, vs, 0),
        decreases items.len() - i,
    {
        if i > 0 {
            out.push(' ');
        }
        format_node(out, &items[i]);
        i += 1;
    }
}

/// The canonical text of `sexpr`: a list as `(a b c)`, a vector as
/// `[a b c]`, a map as `{k: v, k: v}`.
pub fn format_sexpr(sexpr: &SExpr) -> (s: String)
    ensures
        s@ == format_spec(sexpr@),
{
    let mut out = String::new();
    format_node(&mut out, sexpr);
    out
}


fn opt_owned(o: Option<&str>) -> (r: Option<String>)
    ensures
        match o {
            Some(s) => r matches Some(t) && t@ == s@,
            None => r.is_none(),
        },
{
    match o {
        Some(s) => Some(owned(s)),
        None => None,
    }
}

fn sym_text_at(items: &Vec<SExpr>, i: usize) -> (r: Option<String>)
    ensures
        opt_str_view(r) == sym_at(sexprs_view(items@), i as int),
{
    if i < items.len() {
        opt_owned(items[i].as_symbol())
    } else {
        None
    }
}

fn kw_text_at(items: &Vec<SExpr>, i: usize) -> (r: Option<String>)
    ensures
        opt_str_view(r) == kw_at(sexprs_view(items@), i as int),
{
    if i < items.len() {
        opt_owned(items[i].as_keyword())
    } else {
        None
    }
}

fn str_text_at(items: &Vec<SExpr>, i: usize) -> (r: Option<String>)
    ensures
        opt_str_view(r) == str_at(sexprs_view(items@), i as int),
{
    if i < items.len() {
        opt_owned(items[i].as_string())
    } else {
        None
    }
}

fn int_value_at(items: &Vec<SExpr>, i: usize) -> (r: Option<i64>)
    ensures
        r == int_at(sexprs_view(items@), i as int),
{
    if i < items.len() {
        items[i].as_int()
    } else {
        None
    }
}

/// The index two past `i`, or the length where that lies beyond it.
fn past_pair(i: usize, len: usize) -> (r: usize)
    requires
        i < len,
    ensures
        r == if i + 2 <= len {
            i + 2
        } else {
            len as int
        },
{
    if len - i >= 2 {
        i + 2
    } else {
        len
    }
}

/// Appends each of `items` as an invariant, kept as its canonical text.
fn collect_invariants(out: &mut Vec<InvariantExpr>, items: &Vec<SExpr>)
    ensures
        invariants_view(final(out)@) == invariants_of(
            sexprs_view(items@),
            0,
            invariants_view(old(out)@),
        ),
{
    let ghost vs = sexprs_view(items@);
    let mut j: usize = 0;
    while j < items.len()
        invariant
            invariants_of(vs, j as int, invariants_view(out@)) == invariants_of(
                vs,
                0,
                invariants_view(old(out)@),
            ),
        decreases items.len() - j,
    {
        out.push(InvariantExpr { raw: format_sexpr(&items[j]), span: copy_span(&items[j].span) });
        j += 1;
    }
}

/// Appends the texts of the keywords among `items[from..]`.
fn collect_keywords(out: &mut Vec<String>, items: &Vec<SExpr>, from: usize)
    ensures
        strs_view(final(out)@) == keywords_of(sexprs_view(items@), from as int, strs_view(old(out)@)),
{
    let ghost vs = sexprs_view(items@);
    let mut i: usize = from;
    while i < items.len()
        invariant
            keywords_of(vs, i as int, strs_view(out@)) == keywords_of(
                vs,
                from as int,
                strs_view(old(out)@),
            ),
        decreases items.len() - i,
    {
        if let Some(k) = items[i].as_keyword() {
            out.push(owned(k));
        }
        i += 1;
    }
}

/// Appends the texts of the symbols among `items[from..]`.
fn collect_symbols(out: &mut Vec<String>, items: &Vec<SExpr>, from: usize)
    ensures
        strs_view(final(out)@) == symbols_of(sexprs_view(items@), from as int, strs_view(old(out)@)),
{
    let ghost vs = sexprs_view(items@);
    let mut i: usize = from;
    while i < items.len()
        invariant
            symbols_of(vs, i as int, strs_view(out@)) == symbols_of(
                vs,
                from as int,
                strs_view(old(out)@),
            ),
        decreases items.len() - i,
    {
        if let Some(k) = items[i].as_symbol() {
            out.push(owned(k));
        }
        i += 1;
    }
}

/// Appends the texts of the string literals among `items[from..]`.
fn collect_strings(out: &mut Vec<String>, items: &Vec<SExpr>, from: usize)
    ensures
        strs_view(final(out)@) == strings_of(sexprs_view(items@), from as int, strs_view(old(out)@)),
{
    let ghost vs = sexprs_view(items@);
    let mut i: usize = from;
    while i < items.len()
        invariant
            strings_of(vs, i as int, strs_view(out@)) == strings_of(
                vs,
                from as int,
                strs_view(old(out)@),
            ),
        decreases items.len() - i,
    {
        if let Some(k) = items[i].as_string() {
            out.push(owned(k));
        }
        i += 1;
    }
}

/// The head symbol of a list node.
fn head_text(sexpr: &SExpr) -> (r: Option<&str>)
    ensures
        match r {
            Some(h) => head_of(sexpr@) == Some(h@),
            None => head_of(sexpr@).is_none(),
        },
{
    match sexpr.list_items() {
        Some(items) => {
            if items.len() > 0 {
                items[0].as_symbol()
            } else {
                None
            }
        },
        None => None,
    }
}

/// `"expected a value after :"` followed by the keyword.
fn missing<T>(kw: &str) -> (r: Result<T, String>)
    ensures
        r matches Err(m) && m@ == missing_value(kw@),
{
    let mut msg = String::from_str("expected a value after :");
    msg.append(kw);
    Err(msg)
}

/// The view of an optional expression.
pub open spec fn opt_expr_view(o: Option<Expr>) -> Option<ExprView> {
    match o {
        Some(x) => Some(x@),
        None => None,
    }
}

/// The view of an optional returns definition.
pub open spec fn opt_returns_view(o: Option<ReturnsDef>) -> Option<ReturnsView> {
    match o {
        Some(x) => Some(x@),
        None => None,
    }
}

/// The parts of a function form as held while lowering it.
pub open spec fn fn_parts(
    provenance: Option<Provenance>,
    effects: Seq<String>,
    total: bool,
    latency_budget: Option<Duration>,
    called_by: Seq<String>,
    idempotency_key: Option<Expr>,
    params: Seq<ParamDef>,
    ret: Option<ReturnsDef>,
    body: Option<Expr>,
    extra: Seq<(String, MetaValue)>,
) -> FnParts {
    FnParts {
        provenance: opt_prov_view(provenance),
        effects: strs_view(effects),
        total,
        latency_budget,
        called_by: strs_view(called_by),
        idempotency_key: opt_expr_view(idempotency_key),
        params: params_view(params),
        returns: opt_returns_view(ret),
        body: opt_expr_view(body),
        extra: meta_pairs_view(extra),
    }
}

fn is_fn_keyword(kw: &str) -> (r: bool)
    ensures
        r == fn_keyword(kw@),
{
    str_eq(kw, "provenance") || str_eq(kw, "effects") || str_eq(kw, "total") || str_eq(
        kw,
        "latency-budget",
    ) || str_eq(kw, "called-by") || str_eq(kw, "idempotency-key")
}

fn is_module_keyword(kw: &str) -> (r: bool)
    ensures
        r == module_keyword(kw@),
{
    str_eq(kw, "provenance") || str_eq(kw, "version") || str_eq(kw, "parent-version") || str_eq(
        kw,
        "delta",
    )
}

pub struct Lowerer {
    pub diagnostics: Vec<Diagnostic>,
    /// The span of the form at which the last lowering failed.
    pub fault: Option<Span>,
}

impl Lowerer {
    fn lower_pattern(sexpr: &SExpr) -> (r: Result<Pattern, String>)
        ensures
            pattern_agrees(r, lower_pattern_spec(sexpr@)),
        decreases sexpr,
    {
        match &sexpr.kind {
            SExprKind::Atom(AtomKind::Symbol(s)) => {
                if str_eq(s.as_str(), "_") {
                    Ok(Pattern::Wildcard(copy_span(&sexpr.span)))
                } else {
                    Ok(Pattern::Var(s.clone(), copy_span(&sexpr.span)))
                }
            },
            SExprKind::Atom(AtomKind::Keyword(s)) => Ok(
                Pattern::Keyword(s.clone(), copy_span(&sexpr.span)),
            ),
            SExprKind::List(items) => {
                if items.len() == 0 {
                    return fail("unexpected empty pattern");
                }
                let name = match items[0].as_symbol() {
                    Some(n) => owned(n),
                    None => {
                        return fail("expected constructor name in pattern");
                    },
                };
                let ghost vs = sexprs_view(items@);
                let mut args: Vec<Pattern> = Vec::new();
                let mut i: usize = 1;
                while i < items.len()
                    invariant
                        1 <= i <= items.len(),
                        lower_patterns(vs, i as int, patterns_view(args@)) == lower_patterns(
                            vs,
                            1,
                            Seq::empty(),
                        ),
                    decreases items.len() - i,
                {
                    match Self::lower_pattern(&items[i]) {
                        Ok(p) => {
                            args.push(p);
                        },
                        Err(m) => {
                            return Err(m);
                        },
                    }
                    i += 1;
                }
                Ok(Pattern::Constructor { name, args, span: copy_span(&sexpr.span) })
            },
            _ => fail("unexpected pattern form"),
        }
    }

    fn lower_expr(sexpr: &SExpr) -> (r: Result<Expr, String>)
        ensures
            expr_agrees(r, lower_expr_spec(sexpr@)),
        decreases sexpr,
    {
        match &sexpr.kind {
            SExprKind::Atom(AtomKind::Symbol(s)) => {
                if str_eq(s.as_str(), "_") {
                    Ok(Expr::Wildcard(copy_span(&sexpr.span)))
                } else {
                    Ok(Expr::Ref(s.clone(), copy_span(&sexpr.span)))
                }
            },
            SExprKind::Atom(AtomKind::Keyword(s)) => Ok(
                Expr::Keyword(s.clone(), copy_span(&sexpr.span)),
            ),
            SExprKind::Atom(AtomKind::StringLit(s)) => Ok(
                Expr::StringLit(s.clone(), copy_span(&sexpr.span)),
            ),
            SExprKind::Atom(AtomKind::IntLit(n)) => Ok(Expr::IntLit(*n, copy_span(&sexpr.span))),
            SExprKind::Atom(AtomKind::BoolLit(b)) => Ok(Expr::BoolLit(*b, copy_span(&sexpr.span))),
            SExprKind::Mapping(entries) => {
                let ghost vs = entries_view(entries@);
                let mut map: Vec<(String, Expr)> = Vec::new();
                let mut i: usize = 0;
                while i < entries.len()
                    invariant
                        i <= entries.len(),
                        lower_map_entries(vs, i as int, bindings_view(map@)) == lower_map_entries(
                            vs,
                            0,
                            Seq::empty(),
                        ),
                    decreases entries.len() - i,
                {
                    let key = match Self::name_text(&entries[i].0) {
                        Some(k) => k,
                        None => {
                            return fail("expected map key to be symbol or keyword");
                        },
                    };
                    match Self::lower_expr(&entries[i].1) {
                        Ok(val) => {
                            map.push((key, val));
                        },
                        Err(m) => {
                            return Err(m);
                        },
                    }
                    i += 1;
                }
                Ok(Expr::MapLit(map, copy_span(&sexpr.span)))
            },
            SExprKind::List(items) => {
                if items.len() == 0 {
                    return fail("unexpected empty list in expression");
                }
                let head = match items[0].as_symbol() {
                    Some(h) => h,
                    None => {
                        return fail("expected symbol at head of expression");
                    },
                };
                if str_eq(head, "let") {
                    Self::lower_let(items, &sexpr.span)
                } else if str_eq(head, "match") {
                    Self::lower_match(items, &sexpr.span)
                } else if str_eq(head, "if") {
                    Self::lower_if(items, &sexpr.span)
                } else if str_eq(head, ".") {
                    Self::lower_access(items, &sexpr.span)
                } else if str_eq(head, "ok") {
                    let inner = if items.len() > 1 {
                        match Self::lower_expr(&items[1]) {
                            Ok(x) => x,
                            Err(m) => {
                                return Err(m);
                            },
                        }
                    } else {
                        Expr::Ref(owned("Unit"), copy_span(&sexpr.span))
                    };
                    Ok(Expr::Success(Box::new(inner), copy_span(&sexpr.span)))
                } else if str_eq(head, "err") {
                    if items.len() < 2 {
                        return fail("expected error tag");
                    }
                    let tag = match items[1].as_keyword() {
                        Some(t) => owned(t),
                        None => {
                            return fail("expected error tag");
                        },
                    };
                    let payload = if items.len() > 2 {
                        match Self::lower_expr(&items[2]) {
                            Ok(x) => x,
                            Err(m) => {
                                return Err(m);
                            },
                        }
                    } else {
                        Expr::Ref(owned("Unit"), copy_span(&sexpr.span))
                    };
                    Ok(
                        Expr::Failure {
                            tag,
                            payload: Box::new(payload),
                            span: copy_span(&sexpr.span),
                        },
                    )
                } else {
                    let ghost vs = sexprs_view(items@);
                    let mut args: Vec<Expr> = Vec::new();
                    let mut i: usize = 1;
                    while i < items.len()
                        invariant
                            1 <= i <= items.len(),
                            lower_exprs(vs, i as int, exprs_view(args@)) == lower_exprs(
                                vs,
                                1,
                                Seq::empty(),
                            ),
                        decreases items.len() - i,
                    {
                        match Self::lower_expr(&items[i]) {
                            Ok(x) => {
                                args.push(x);
                            },
                            Err(m) => {
                                return Err(m);
                            },
                        }
                        i += 1;
                    }
                    Ok(Expr::Call { name: owned(head), args, span: copy_span(&sexpr.span) })
                }
            },
            _ => fail("unexpected expression form"),
        }
    }

    /// The text of a symbol or keyword node.
    fn name_text(sexpr: &SExpr) -> (r: Option<String>)
        ensures
            opt_str_view(r) == name_of(sexpr@),
    {
        match &sexpr.kind {
            SExprKind::Atom(AtomKind::Symbol(s)) => Some(s.clone()),
            SExprKind::Atom(AtomKind::Keyword(s)) => Some(s.clone()),
            _ => None,
        }
    }

    fn lower_access(items: &Vec<SExpr>, span: &Span) -> (r: Result<Expr, String>)
        ensures
            expr_agrees(r, lower_access_spec(sexprs_view(items@), *span)),
        decreases items,
    {
        if items.len() != 3 {
            return fail("expected (. expr field)");
        }
        let expr = match Self::lower_expr(&items[1]) {
            Ok(x) => x,
            Err(m) => {
                return Err(m);
            },
        };
        let field = match items[2].as_symbol() {
            Some(f) => owned(f),
            None => {
                return fail("expected field name");
            },
        };
        Ok(Expr::FieldAccess { expr: Box::new(expr), field, span: copy_span(span) })
    }

    fn lower_let(items: &Vec<SExpr>, span: &Span) -> (r: Result<Expr, String>)
        ensures
            expr_agrees(r, lower_let_spec(sexprs_view(items@), *span)),
        decreases items,
    {
        if items.len() < 3 {
            return fail("let requires bindings and body");
        }
        let pairs = match items[1].vector_items() {
            Some(v) => v,
            None => {
                return fail("expected let bindings to be a vector");
            },
        };
        let ghost vs = sexprs_view(pairs@);
        let mut bindings: Vec<(String, Expr)> = Vec::new();
        let mut j: usize = 0;
        while j < pairs.len() && j + 1 < pairs.len()
            invariant
                j <= pairs.len(),
                lower_bindings(vs, j as int, bindings_view(bindings@)) == lower_bindings(
                    vs,
                    0,
                    Seq::empty(),
                ),
            decreases pairs.len() - j,
        {
            let name = match pairs[j].as_symbol() {
                Some(n) => owned(n),
                None => {
                    return fail("expected binding name");
                },
            };
            match Self::lower_expr(&pairs[j + 1]) {
                Ok(value) => {
                    bindings.push((name, value));
                },
                Err(m) => {
                    return Err(m);
                },
            }
            j += 2;
        }
        match Self::lower_expr(&items[2]) {
            Ok(body) => Ok(Expr::Let { bindings, body: Box::new(body), span: copy_span(span) }),
            Err(m) => Err(m),
        }
    }

    fn lower_match(items: &Vec<SExpr>, span: &Span) -> (r: Result<Expr, String>)
        ensures
            expr_agrees(r, lower_match_spec(sexprs_view(items@), *span)),
        decreases items,
    {
        if items.len() < 4 {
            return fail("match requires expression and at least one arm");
        }
        let expr = match Self::lower_expr(&items[1]) {
            Ok(x) => x,
            Err(m) => {
                return Err(m);
            },
        };
        let ghost vs = sexprs_view(items@);
        let mut arms: Vec<MatchArm> = Vec::new();
        let mut j: usize = 2;
        while items.len() - j > 1
            invariant
                2 <= j <= items.len(),
                lower_arms(vs, j as int, arms_view(arms@)) == lower_arms(vs, 2, Seq::empty()),
            decreases items.len() - j,
        {
            let pattern = match Self::lower_pattern(&items[j]) {
                Ok(p) => p,
                Err(m) => {
                    return Err(m);
                },
            };
            let body = match Self::lower_expr(&items[j + 1]) {
                Ok(b) => b,
                Err(m) => {
                    return Err(m);
                },
            };
            let arm_span = Span::new(items[j].span.start, items[j + 1].span.end);
            arms.push(MatchArm { pattern, body, span: arm_span });
            j += 2;
        }
        Ok(Expr::Match { expr: Box::new(expr), arms, span: copy_span(span) })
    }

    fn lower_if(items: &Vec<SExpr>, span: &Span) -> (r: Result<Expr, String>)
        ensures
            expr_agrees(r, lower_if_spec(sexprs_view(items@), *span)),
        decreases items,
    {
        if items.len() != 4 {
            return fail("if requires condition, then, and else branches");
        }
        let cond = match Self::lower_expr(&items[1]) {
            Ok(x) => x,
            Err(m) => {
                return Err(m);
            },
        };
        let then_branch = match Self::lower_expr(&items[2]) {
            Ok(x) => x,
            Err(m) => {
                return Err(m);
            },
        };
        let else_branch = match Self::lower_expr(&items[3]) {
            Ok(x) => x,
            Err(m) => {
                return Err(m);
            },
        };
        Ok(
            Expr::If {
                cond: Box::new(cond),
                then_branch: Box::new(then_branch),
                else_branch: Box::new(else_branch),
                span: copy_span(span),
            },
        )
    }

    /// The generic meta-value that stands for `sexpr`.
    fn sexpr_to_meta(sexpr: &SExpr) -> (r: MetaValue)
        ensures
            r@ == meta_of(sexpr@),
        decreases sexpr,
    {
        match &sexpr.kind {
            SExprKind::Atom(AtomKind::StringLit(s)) => MetaValue::Str(s.clone()),
            SExprKind::Atom(AtomKind::IntLit(n)) => MetaValue::Int(*n),
            SExprKind::Atom(AtomKind::BoolLit(b)) => MetaValue::Bool(*b),
            SExprKind::Atom(AtomKind::Symbol(s)) => MetaValue::Symbol(s.clone()),
            SExprKind::Atom(AtomKind::Keyword(s)) => MetaValue::Keyword(s.clone()),
            SExprKind::Atom(AtomKind::DurationLit(v, u)) => MetaValue::Duration(*v, *u),
            SExprKind::Atom(AtomKind::RegexLit(s)) => MetaValue::Str(s.clone()),
            SExprKind::Vector(items) => MetaValue::List(Self::metas(items)),
            SExprKind::Mapping(entries) => {
                let ghost vs = entries_view(entries@);
                let mut mapped: Vec<(String, MetaValue)> = Vec::new();
                let mut i: usize = 0;
                while i < entries.len()
                    invariant
                        i <= entries.len(),
                        meta_entries(vs, i as int, meta_pairs_view(mapped@)) == meta_entries(
                            vs,
                            0,
                            Seq::empty(),
                        ),
                    decreases entries.len() - i,
                {
                    let key = match Self::name_text(&entries[i].0) {
                        Some(k) => k,
                        None => owned("?"),
                    };
                    let value = Self::sexpr_to_meta(&entries[i].1);
                    mapped.push((key, value));
                    i += 1;
                }
                MetaValue::Mapping(mapped)
            },
            SExprKind::List(items) => {
                match Self::lower_expr(sexpr) {
                    Ok(expr) => MetaValue::Expr(expr),
                    Err(_) => MetaValue::List(Self::metas(items)),
                }
            },
        }
    }

    fn metas(items: &Vec<SExpr>) -> (r: Vec<MetaValue>)
        ensures
            metas_view(r@) == metas_of(sexprs_view(items@), 0, Seq::empty()),
        decreases items,
    {
        let ghost vs = sexprs_view(items@);
        let mut out: Vec<MetaValue> = Vec::new();
        let mut i: usize = 0;
        while i < items.len()
            invariant
                i <= items.len(),
                metas_of(vs, i as int, metas_view(out@)) == metas_of(vs, 0, Seq::empty()),
            decreases items.len() - i,
        {
            out.push(Self::sexpr_to_meta(&items[i]));
            i += 1;
        }
        out
    }

    /// Adds the unknown keyword `key` with its value at `v`, if there is one.
    fn push_extra(extra: &mut Vec<(String, MetaValue)>, key: &str, items: &Vec<SExpr>, v: usize)
        ensures
            meta_pairs_view(final(extra)@) == with_extra(
                meta_pairs_view(old(extra)@),
                key@,
                sexprs_view(items@),
                v as int,
            ),
    {
        if v < items.len() {
            extra.push((owned(key), Self::sexpr_to_meta(&items[v])));
        }
    }

    fn lower_type_expr(sexpr: &SExpr) -> (r: Result<TypeExpr, String>)
        ensures
            type_expr_agrees(r, lower_type_spec(sexpr@)),
        decreases sexpr,
    {
        match &sexpr.kind {
            SExprKind::Atom(AtomKind::Symbol(name)) => Ok(TypeExpr::Named(name.clone())),
            SExprKind::Mapping(entries) => {
                let ghost vs = entries_view(entries@);
                let mut fields: Vec<(String, TypeExpr)> = Vec::new();
                let mut i: usize = 0;
                while i < entries.len()
                    invariant
                        i <= entries.len(),
                        lower_type_fields(vs, i as int, type_fields_view(fields@))
                            == lower_type_fields(vs, 0, Seq::empty()),
                    decreases entries.len() - i,
                {
                    let key = match Self::name_text(&entries[i].0) {
                        Some(k) => k,
                        None => {
                            return fail("expected map type key");
                        },
                    };
                    match Self::lower_type_expr(&entries[i].1) {
                        Ok(t) => {
                            fields.push((key, t));
                        },
                        Err(m) => {
                            return Err(m);
                        },
                    }
                    i += 1;
                }
                Ok(TypeExpr::Mapping(fields))
            },
            SExprKind::List(items) => {
                if items.len() == 0 {
                    return fail("expected type expression");
                }
                let head = match items[0].as_symbol() {
                    Some(h) => h,
                    None => {
                        return fail("expected type expression");
                    },
                };
                if str_eq(head, "list") {
                    if items.len() > 1 {
                        match Self::lower_type_expr(&items[1]) {
                            Ok(inner) => Ok(TypeExpr::List(Box::new(inner))),
                            Err(m) => Err(m),
                        }
                    } else {
                        fail("expected list element type")
                    }
                } else if str_eq(head, "union") {
                    match Self::lower_variant_list(items) {
                        Ok(variants) => Ok(TypeExpr::Union(variants)),
                        Err(m) => Err(m),
                    }
                } else if str_eq(head, "enum") {
                    let mut names: Vec<String> = Vec::new();
                    collect_keywords(&mut names, items, 1);
                    Ok(TypeExpr::Enum(names))
                } else {
                    Ok(TypeExpr::Named(owned(head)))
                }
            },
            _ => fail("unexpected type expression"),
        }
    }

    /// The variants written after the head of a `union` form.
    fn lower_variant_list(items: &Vec<SExpr>) -> (r: Result<Vec<Variant>, String>)
        ensures
            match r {
                Ok(vs) => lower_variants(sexprs_view(items@), 1, Seq::empty()) == Ok::<
                    Seq<VariantView>,
                    Seq<char>,
                >(variants_view(vs@)),
                Err(m) => lower_variants(sexprs_view(items@), 1, Seq::empty()) == Err::<
                    Seq<VariantView>,
                    Seq<char>,
                >(m@),
            },
        decreases items,
    {
        let ghost vs = sexprs_view(items@);
        let mut variants: Vec<Variant> = Vec::new();
        let mut i: usize = 1;
        while i < items.len()
            invariant
                lower_variants(vs, i as int, variants_view(variants@)) == lower_variants(
                    vs,
                    1,
                    Seq::empty(),
                ),
            decreases items.len() - i,
        {
            match Self::lower_variant(&items[i]) {
                Ok(v) => {
                    variants.push(v);
                },
                Err(m) => {
                    return Err(m);
                },
            }
            i += 1;
        }
        Ok(variants)
    }

    fn lower_variant(sexpr: &SExpr) -> (r: Result<Variant, String>)
        ensures
            variant_agrees(r, lower_variant_spec(sexpr@)),
        decreases sexpr,
    {
        let items = match &sexpr.kind {
            SExprKind::List(items) => items,
            _ => {
                return fail("expected variant to be a list");
            },
        };
        if items.len() == 0 {
            return fail("expected variant head");
        }
        let head = match items[0].as_symbol() {
            Some(h) => h,
            None => {
                return fail("expected variant head");
            },
        };
        let ghost vs = sexprs_view(items@);
        if str_eq(head, "ok") {
            if items.len() < 2 {
                return fail("expected ok type");
            }
            let type_expr = match Self::lower_type_expr(&items[1]) {
                Ok(t) => t,
                Err(m) => {
                    return Err(m);
                },
            };
            let mut http_status: Option<i64> = None;
            let mut serialize: Option<String> = None;
            let mut extra_meta: Vec<(String, MetaValue)> = Vec::new();
            let mut i: usize = 2;
            while i < items.len()
                invariant
                    ok_args(
                        vs,
                        i as int,
                        VariantArgs {
                            http_status,
                            serialize: opt_str_view(serialize),
                            extra: meta_pairs_view(extra_meta@),
                        },
                    ) == ok_args(vs, 2, no_args()),
                decreases items.len() - i,
            {
                match items[i].as_keyword() {
                    Some(kw) => {
                        if str_eq(kw, "http") {
                            http_status = int_value_at(items, i + 1);
                        } else if str_eq(kw, "serialize") {
                            serialize = kw_text_at(items, i + 1);
                        } else {
                            Self::push_extra(&mut extra_meta, kw, items, i + 1);
                        }
                        let ghost acc = VariantArgs {
                            http_status,
                            serialize: opt_str_view(serialize),
                            extra: meta_pairs_view(extra_meta@),
                        };
                        assert(ok_args(vs, i + 2, acc) == ok_args(
                            vs,
                            if i + 2 <= items.len() {
                                i + 2
                            } else {
                                items.len() as int
                            },
                            acc,
                        ));
                        i = past_pair(i, items.len());
                    },
                    None => {
                        i += 1;
                    },
                }
            }
            Ok(
                Variant {
                    kind: VariantKind::Success { type_expr, http_status, serialize, extra_meta },
                    span: copy_span(&sexpr.span),
                },
            )
        } else if str_eq(head, "err") {
            let tag = match kw_text_at(items, 1) {
                Some(t) => t,
                None => {
                    return fail("expected error tag keyword");
                },
            };
            let mut payload = TypeExpr::Named(owned("Unit"));
            let mut http_status: Option<i64> = None;
            let mut extra_meta: Vec<(String, MetaValue)> = Vec::new();
            let mut i: usize = 2;
            if items.len() > 2 && items[2].as_keyword().is_none() {
                payload = match Self::lower_type_expr(&items[2]) {
                    Ok(t) => t,
                    Err(m) => {
                        return Err(m);
                    },
                };
                i = 3;
            }
            let ghost first = i as int;
            while i < items.len()
                invariant
                    err_args(
                        vs,
                        i as int,
                        VariantArgs {
                            http_status,
                            serialize: None,
                            extra: meta_pairs_view(extra_meta@),
                        },
                    ) == err_args(vs, first, no_args()),
                decreases items.len() - i,
            {
                match items[i].as_keyword() {
                    Some(kw) => {
                        if str_eq(kw, "http") {
                            http_status = int_value_at(items, i + 1);
                        } else {
                            Self::push_extra(&mut extra_meta, kw, items, i + 1);
                        }
                        let ghost acc = VariantArgs {
                            http_status,
                            serialize: None,
                            extra: meta_pairs_view(extra_meta@),
                        };
                        assert(err_args(vs, i + 2, acc) == err_args(
                            vs,
                            if i + 2 <= items.len() {
                                i + 2
                            } else {
                                items.len() as int
                            },
                            acc,
                        ));
                        i = past_pair(i, items.len());
                    },
                    None => {
                        i += 1;
                    },
                }
            }
            Ok(
                Variant {
                    kind: VariantKind::Failure { tag, payload, http_status, extra_meta },
                    span: copy_span(&sexpr.span),
                },
            )
        } else {
            let mut msg = String::from_str("expected 'ok' or 'err' variant, got '");
            msg.append(head);
            msg.push('\'');
            Err(msg)
        }
    }

    fn lower_provenance(sexpr: &SExpr) -> (r: Result<Provenance, String>)
        ensures
            provenance_agrees(r, lower_provenance_spec(sexpr@)),
    {
        let entries = match &sexpr.kind {
            SExprKind::Mapping(entries) => entries,
            _ => {
                return fail("expected provenance to be a map");
            },
        };
        let ghost vs = entries_view(entries@);
        let mut req: Option<String> = None;
        let mut author: Option<String> = None;
        let mut created: Option<String> = None;
        let mut test: Vec<String> = Vec::new();
        let mut extra: Vec<(String, MetaValue)> = Vec::new();
        let ghost init = ProvenanceView {
            req: None,
            author: None,
            created: None,
            test: Seq::empty(),
            extra: Seq::empty(),
            span: sexpr.span,
        };
        let mut i: usize = 0;
        while i < entries.len()
            invariant
                prov_entries(
                    vs,
                    i as int,
                    ProvenanceView {
                        req: opt_str_view(req),
                        author: opt_str_view(author),
                        created: opt_str_view(created),
                        test: strs_view(test@),
                        extra: meta_pairs_view(extra@),
                        span: sexpr.span,
                    },
                ) == prov_entries(vs, 0, init),
            decreases entries.len() - i,
        {
            let key = match Self::name_text(&entries[i].0) {
                Some(k) => k,
                None => {
                    return fail("expected provenance key to be a symbol or keyword");
                },
            };
            let value = &entries[i].1;
            if str_eq(key.as_str(), "req") {
                req = opt_owned(value.as_string());
            } else if str_eq(key.as_str(), "author") {
                author = opt_owned(value.as_string());
            } else if str_eq(key.as_str(), "created") {
                created = opt_owned(value.as_string());
            } else if str_eq(key.as_str(), "test") {
                if let Some(items) = value.vector_items() {
                    collect_strings(&mut test, items, 0);
                }
            } else {
                extra.push((key, Self::sexpr_to_meta(value)));
            }
            i += 1;
        }
        Ok(Provenance { req, author, created, test, extra, span: copy_span(&sexpr.span) })
    }

    fn lower_delta(sexpr: &SExpr) -> (r: Result<Delta, String>)
        ensures
            delta_agrees(r, lower_delta_spec(sexpr@)),
    {
        let items = match &sexpr.kind {
            SExprKind::List(items) => items,
            _ => {
                return fail("expected delta to be a list");
            },
        };
        let operation = match sym_text_at(items, 0) {
            Some(s) => s,
            None => owned("unknown"),
        };
        let target = match sym_text_at(items, 1) {
            Some(s) => s,
            None => owned(""),
        };
        let description = str_text_at(items, 2);
        Ok(Delta { operation, target, description, span: copy_span(&sexpr.span) })
    }

    fn lower_effect_set(sexpr: &SExpr) -> (r: Result<EffectSetDef, String>)
        ensures
            effect_set_def_agrees(r, lower_effect_set_spec(sexpr@)),
    {
        let items = match &sexpr.kind {
            SExprKind::List(items) => items,
            _ => {
                return fail("expected effect-set to be a list");
            },
        };
        let name = match sym_text_at(items, 1) {
            Some(n) => n,
            None => {
                return fail("expected effect-set name");
            },
        };
        let mut effects: Vec<Effect> = Vec::new();
        if items.len() > 2 {
            if let Some(effect_items) = items[2].vector_items() {
                let ghost vs = sexprs_view(effect_items@);
                let mut j: usize = 0;
                while j < effect_items.len()
                    invariant
                        effects_of(vs, j as int, effects_view(effects@)) == effects_of(
                            vs,
                            0,
                            Seq::empty(),
                        ),
                    decreases effect_items.len() - j,
                {
                    let kind = match effect_items[j].as_keyword() {
                        Some(kw) => Self::effect_kind(kw),
                        None => None,
                    };
                    match kind {
                        Some(kind) => {
                            if let Some(target) = sym_text_at(effect_items, j + 1) {
                                effects.push(Effect { kind, target });
                            }
                            assert(effects_of(vs, j + 2, effects_view(effects@)) == effects_of(
                                vs,
                                if j + 2 <= effect_items.len() {
                                    j + 2
                                } else {
                                    effect_items.len() as int
                                },
                                effects_view(effects@),
                            ));
                            j = past_pair(j, effect_items.len());
                        },
                        None => {
                            j += 1;
                        },
                    }
                }
            }
        }
        Ok(EffectSetDef { name, effects, span: copy_span(&sexpr.span) })
    }

    fn effect_kind(kw: &str) -> (r: Option<EffectKind>)
        ensures
            r == effect_kind_of(kw@),
    {
        if str_eq(kw, "reads") {
            Some(EffectKind::Reads)
        } else if str_eq(kw, "writes") {
            Some(EffectKind::Writes)
        } else if str_eq(kw, "sends") {
            Some(EffectKind::Sends)
        } else {
            None
        }
    }

    fn lower_field_def(sexpr: &SExpr) -> (r: Result<FieldDef, String>)
        ensures
            field_def_agrees(r, lower_field_spec(sexpr@)),
    {
        let items = match &sexpr.kind {
            SExprKind::List(items) => items,
            _ => {
                return fail("expected field to be a list");
            },
        };
        let name = match sym_text_at(items, 1) {
            Some(n) => n,
            None => {
                return fail("expected field name");
            },
        };
        if items.len() < 3 {
            return fail("expected field type");
        }
        let type_expr = match Self::lower_type_expr(&items[2]) {
            Ok(t) => t,
            Err(m) => {
                return Err(m);
            },
        };
        let ghost vs = sexprs_view(items@);
        let mut f = FieldDef {
            name,
            type_expr,
            immutable: false,
            generated: false,
            min_len: None,
            max_len: None,
            format: None,
            unique_within: None,
            extra_meta: Vec::new(),
            span: copy_span(&sexpr.span),
        };
        let ghost init = f@;
        let mut i: usize = 3;
        while i < items.len()
            invariant
                field_args(vs, i as int, f@) == field_args(vs, 3, init),
            decreases items.len() - i,
        {
            let ghost before = f@;
            match items[i].as_keyword() {
                None => {
                    i += 1;
                },
                Some(kw) => {
                    if str_eq(kw, "immutable") {
                        f.immutable = true;
                        i += 1;
                    } else if str_eq(kw, "generated") {
                        f.generated = true;
                        i += 1;
                    } else {
                        let mut step: usize = 2;
                        if str_eq(kw, "min-len") {
                            f.min_len = int_value_at(items, i + 1);
                        } else if str_eq(kw, "max-len") {
                            f.max_len = int_value_at(items, i + 1);
                        } else if str_eq(kw, "format") {
                            f.format = kw_text_at(items, i + 1);
                        } else if str_eq(kw, "unique-within") {
                            f.unique_within = sym_text_at(items, i + 1);
                        } else if items.len() - i > 1 && items[i + 1].as_keyword().is_none() {
                            f.extra_meta.push((owned(kw), Self::sexpr_to_meta(&items[i + 1])));
                        } else {
                            f.extra_meta.push((owned(kw), MetaValue::Bool(true)));
                            step = 1;
                        }
                        if step == 1 {
                            i += 1;
                        } else {
                            assert(field_args(vs, i + 2, f@) == field_args(
                                vs,
                                if i + 2 <= items.len() {
                                    i + 2
                                } else {
                                    items.len() as int
                                },
                                f@,
                            ));
                            i = past_pair(i, items.len());
                        }
                    }
                },
            }
        }
        Ok(f)
    }

    fn lower_param_def(sexpr: &SExpr) -> (r: Result<ParamDef, String>)
        ensures
            param_def_agrees(r, lower_param_spec(sexpr@)),
    {
        let items = match &sexpr.kind {
            SExprKind::List(items) => items,
            _ => {
                return fail("expected param to be a list");
            },
        };
        let name = match sym_text_at(items, 1) {
            Some(n) => n,
            None => {
                return fail("expected param name");
            },
        };
        if items.len() < 3 {
            return fail("expected param type");
        }
        let type_expr = match Self::lower_type_expr(&items[2]) {
            Ok(t) => t,
            Err(m) => {
                return Err(m);
            },
        };
        let ghost vs = sexprs_view(items@);
        let mut p = ParamDef {
            name,
            type_expr,
            source: None,
            content_type: None,
            validated_at: None,
            extra_meta: Vec::new(),
            span: copy_span(&sexpr.span),
        };
        let ghost init = p@;
        let mut i: usize = 3;
        while i < items.len()
            invariant
                param_args(vs, i as int, p@) == param_args(vs, 3, init),
            decreases items.len() - i,
        {
            match items[i].as_keyword() {
                None => {
                    i += 1;
                },
                Some(kw) => {
                    if str_eq(kw, "source") {
                        p.source = if i + 1 < items.len() {
                            Self::name_text(&items[i + 1])
                        } else {
                            None
                        };
                    } else if str_eq(kw, "content-type") {
                        p.content_type = kw_text_at(items, i + 1);
                    } else if str_eq(kw, "validated-at") {
                        p.validated_at = sym_text_at(items, i + 1);
                    } else {
                        Self::push_extra(&mut p.extra_meta, kw, items, i + 1);
                    }
                    assert(param_args(vs, i + 2, p@) == param_args(
                        vs,
                        if i + 2 <= items.len() {
                            i + 2
                        } else {
                            items.len() as int
                        },
                        p@,
                    ));
                    i = past_pair(i, items.len());
                },
            }
        }
        Ok(p)
    }

    fn lower_returns_def(sexpr: &SExpr) -> (r: Result<ReturnsDef, String>)
        ensures
            returns_def_agrees(r, lower_returns_spec(sexpr@)),
    {
        let items = match &sexpr.kind {
            SExprKind::List(items) => items,
            _ => {
                return fail("expected returns to be a list");
            },
        };
        if items.len() < 2 {
            return fail("expected (returns (union ...))");
        }
        let union_items = match items[1].list_items() {
            Some(u) => u,
            None => {
                return fail("expected union in returns");
            },
        };
        let is_union = match sym_text_at(union_items, 0) {
            Some(h) => str_eq(h.as_str(), "union"),
            None => false,
        };
        if !is_union {
            return fail("expected (union ...) in returns");
        }
        match Self::lower_variant_list(union_items) {
            Ok(variants) => Ok(ReturnsDef { variants, span: copy_span(&sexpr.span) }),
            Err(m) => Err(m),
        }
    }

    fn lower_type_def(sexpr: &SExpr) -> (r: Result<TypeDef, String>)
        ensures
            type_def_agrees(r, lower_type_def_spec(sexpr@)),
    {
        let items = match &sexpr.kind {
            SExprKind::List(items) => items,
            _ => {
                return fail("expected type to be a list");
            },
        };
        let name = match sym_text_at(items, 1) {
            Some(n) => n,
            None => {
                return fail("expected type name");
            },
        };
        let ghost vs = sexprs_view(items@);
        let mut t = TypeDef {
            name,
            invariants: Vec::new(),
            fields: Vec::new(),
            extra_meta: Vec::new(),
            span: copy_span(&sexpr.span),
        };
        let ghost init = t@;
        let mut i: usize = 2;
        while i < items.len()
            invariant
                type_items(vs, i as int, t@) == type_items(vs, 2, init),
            decreases items.len() - i,
        {
            match items[i].as_keyword() {
                Some(kw) => {
                    if str_eq(kw, "invariants") {
                        if items.len() - i < 2 {
                            return missing(kw);
                        }
                        if let Some(inv_items) = items[i + 1].vector_items() {
                            collect_invariants(&mut t.invariants, inv_items);
                        }
                        i += 2;
                    } else {
                        Self::push_extra(&mut t.extra_meta, kw, items, i + 1);
                        assert(type_items(vs, i + 2, t@) == type_items(
                            vs,
                            if i + 2 <= items.len() {
                                i + 2
                            } else {
                                items.len() as int
                            },
                            t@,
                        ));
                        i = past_pair(i, items.len());
                    }
                },
                None => {
                    let is_field = match head_text(&items[i]) {
                        Some(h) => str_eq(h, "field"),
                        None => false,
                    };
                    if is_field {
                        match Self::lower_field_def(&items[i]) {
                            Ok(f) => {
                                t.fields.push(f);
                            },
                            Err(m) => {
                                return Err(m);
                            },
                        }
                    }
                    i += 1;
                },
            }
        }
        Ok(t)
    }

    fn lower_fn_def(sexpr: &SExpr) -> (r: Result<FnDef, String>)
        ensures
            fn_def_agrees(r, lower_fn_spec(sexpr@)),
    {
        let items = match sexpr.list_items() {
            Some(items) => items,
            None => {
                return fail("expected fn to be a list");
            },
        };
        let name = match sym_text_at(items, 1) {
            Some(n) => n,
            None => {
                return fail("expected function name");
            },
        };
        let ghost vs = sexprs_view(items@);
        let mut provenance: Option<Provenance> = None;
        let mut effects: Vec<String> = Vec::new();
        let mut total = false;
        let mut latency_budget: Option<Duration> = None;
        let mut called_by: Vec<String> = Vec::new();
        let mut idempotency_key: Option<Expr> = None;
        let mut params: Vec<ParamDef> = Vec::new();
        let mut ret: Option<ReturnsDef> = None;
        let mut body: Option<Expr> = None;
        let mut extra_meta: Vec<(String, MetaValue)> = Vec::new();
        let mut i: usize = 2;
        while i < items.len()
            invariant
                fn_items(
                    vs,
                    i as int,
                    fn_parts(
                        provenance,
                        effects@,
                        total,
                        latency_budget,
                        called_by@,
                        idempotency_key,
                        params@,
                        ret,
                        body,
                        extra_meta@,
                    ),
                ) == fn_items(vs, 2, no_fn_parts()),
            decreases items.len() - i,
        {
            match items[i].as_keyword() {
                Some(kw) => {
                    if is_fn_keyword(kw) {
                        if items.len() - i < 2 {
                            return missing(kw);
                        }
                        let value = &items[i + 1];
                        if str_eq(kw, "provenance") {
                            match Self::lower_provenance(value) {
                                Ok(p) => {
                                    provenance = Some(p);
                                },
                                Err(m) => {
                                    return Err(m);
                                },
                            }
                        } else if str_eq(kw, "effects") {
                            if let Some(v) = value.vector_items() {
                                collect_symbols(&mut effects, v, 0);
                            }
                        } else if str_eq(kw, "total") {
                            total = match value.as_bool() {
                                Some(b) => b,
                                None => false,
                            };
                        } else if str_eq(kw, "latency-budget") {
                            if let Some((v, u)) = value.as_duration() {
                                latency_budget = Some(Duration { value: v, unit: u });
                            }
                        } else if str_eq(kw, "called-by") {
                            if let Some(v) = value.vector_items() {
                                collect_symbols(&mut called_by, v, 0);
                            }
                        } else {
                            match Self::lower_expr(value) {
                                Ok(x) => {
                                    idempotency_key = Some(x);
                                },
                                Err(m) => {
                                    return Err(m);
                                },
                            }
                        }
                        i += 2;
                    } else {
                        Self::push_extra(&mut extra_meta, kw, items, i + 1);
                        let ghost acc = fn_parts(
                            provenance,
                            effects@,
                            total,
                            latency_budget,
                            called_by@,
                            idempotency_key,
                            params@,
                            ret,
                            body,
                            extra_meta@,
                        );
                        assert(fn_items(vs, i + 2, acc) == fn_items(
                            vs,
                            if i + 2 <= items.len() {
                                i + 2
                            } else {
                                items.len() as int
                            },
                            acc,
                        ));
                        i = past_pair(i, items.len());
                    }
                },
                None => {
                    match head_text(&items[i]) {
                        Some(head) => {
                            if str_eq(head, "param") {
                                match Self::lower_param_def(&items[i]) {
                                    Ok(p) => {
                                        params.push(p);
                                    },
                                    Err(m) => {
                                        return Err(m);
                                    },
                                }
                            } else if str_eq(head, "returns") {
                                match Self::lower_returns_def(&items[i]) {
                                    Ok(r) => {
                                        ret = Some(r);
                                    },
                                    Err(m) => {
                                        return Err(m);
                                    },
                                }
                            } else {
                                match Self::lower_expr(&items[i]) {
                                    Ok(x) => {
                                        body = Some(x);
                                    },
                                    Err(m) => {
                                        return Err(m);
                                    },
                                }
                            }
                        },
                        None => {},
                    }
                    i += 1;
                },
            }
        }
        let ret = match ret {
            Some(r) => r,
            None => {
                return fail("expected (returns ...) in function");
            },
        };
        let body = match body {
            Some(b) => b,
            None => {
                return fail("expected body expression in function");
            },
        };
        Ok(
            FnDef {
                name,
                provenance,
                effects,
                total,
                latency_budget,
                called_by,
                idempotency_key,
                params,
                returns: ret,
                body,
                extra_meta,
                span: copy_span(&sexpr.span),
            },
        )
    }

    pub fn new() -> (l: Lowerer)
        ensures
            l.diagnostics@.len() == 0,
            l.fault is None,
    {
        Lowerer { diagnostics: Vec::new(), fault: None }
    }

    /// Lowers the top-level `(module ...)` form. The warnings raised on the
    /// way are appended to `diagnostics`, also where lowering fails: those
    /// for unknown forms and, where lowering succeeds, those for names that
    /// are declared more than once.
    ///
    /// A failure comes with its message; the span of the form at fault is
    /// left in `fault`, which is empty after a success.
    pub fn lower_module(&mut self, sexpr: &SExpr) -> (r: Result<Module, String>)
        ensures
            module_agrees(r, lower_module_spec(sexpr@).result),
            diags_view(final(self).diagnostics@) == diags_view(old(self).diagnostics@)
                + lower_module_spec(sexpr@).warnings,
            final(self).fault == fault_span(sexpr@),
            r is Err <==> final(self).fault is Some,
    {
        let ghost before = diags_view(self.diagnostics@);
        proof {
            lemma_fault_span(sexpr@);
        }
        match self.lower_module_forms(sexpr) {
            Ok(m) => {
                let ghost mid = diags_view(self.diagnostics@);
                report_module_duplicates(&mut self.diagnostics, &m);
                proof {
                    lemma_duplicates_append(m@, mid);
                    assert(mid + duplicate_warnings(m@) =~= before + (module_forms_spec(
                        sexpr@,
                    ).warnings + duplicate_warnings(m@)));
                }
                self.fault = None;
                Ok(m)
            },
            Err(f) => {
                self.fault = Some(f.1);
                Err(f.0)
            },
        }
    }

    /// Lowers the top-level form, form by form; a failure comes with the
    /// span of the form at fault.
    fn lower_module_forms(&mut self, sexpr: &SExpr) -> (r: Result<Module, (String, Span)>)
        ensures
            match r {
                Ok(m) => module_forms_spec(sexpr@).result == Ok::<ModuleView, Seq<char>>(m@),
                Err(f) => module_forms_spec(sexpr@).result == Err::<ModuleView, Seq<char>>(f.0@)
                    && fault_span(sexpr@) == Some(f.1),
            },
            diags_view(final(self).diagnostics@) == diags_view(old(self).diagnostics@)
                + module_forms_spec(sexpr@).warnings,
            final(self).fault == old(self).fault,
    {
        broadcast use crate::diagnostics::lemma_diags_view_push;

        assert(diags_view(self.diagnostics@) + Seq::<DiagnosticView>::empty() =~= diags_view(
            self.diagnostics@,
        ));
        let items = match sexpr.list_items() {
            Some(items) => items,
            None => {
                return fail_at("expected module to be a list", &sexpr.span);
            },
        };
        let is_module = match sym_text_at(items, 0) {
            Some(h) => str_eq(h.as_str(), "module"),
            None => false,
        };
        if !is_module {
            return fail_at("expected (module ...)", &sexpr.span);
        }
        let name = match sym_text_at(items, 1) {
            Some(n) => n,
            None => {
                return fail_at("expected module name", &sexpr.span);
            },
        };
        let ghost vs = sexprs_view(items@);
        let mut m = Module {
            name,
            provenance: None,
            version: None,
            parent_version: None,
            delta: None,
            types: Vec::new(),
            effect_sets: Vec::new(),
            functions: Vec::new(),
            extra_meta: Vec::new(),
            span: copy_span(&sexpr.span),
        };
        let ghost init = m@;
        let ghost warnings = Seq::<DiagnosticView>::empty();
        let ghost goal = module_items(vs, 2, init, Seq::empty());
        let mut i: usize = 2;
        while i < items.len()
            invariant
                module_items(vs, i as int, m@, warnings) == goal,
                item_fault(vs, i as int) == item_fault(vs, 2),
                self.fault == old(self).fault,
                diags_view(self.diagnostics@) == diags_view(old(self).diagnostics@) + warnings,
            decreases items.len() - i,
        {
            match items[i].as_keyword() {
                Some(kw) => {
                    if is_module_keyword(kw) {
                        if items.len() - i < 2 {
                            return missing_at(kw, &items[i].span);
                        }
                        let value = &items[i + 1];
                        if str_eq(kw, "provenance") {
                            match Self::lower_provenance(value) {
                                Ok(p) => {
                                    m.provenance = Some(p);
                                },
                                Err(e) => {
                                    return Err((e, copy_span(&value.span)));
                                },
                            }
                        } else if str_eq(kw, "version") {
                            m.version = value.as_int();
                        } else if str_eq(kw, "parent-version") {
                            m.parent_version = value.as_int();
                        } else {
                            match Self::lower_delta(value) {
                                Ok(d) => {
                                    m.delta = Some(d);
                                },
                                Err(e) => {
                                    return Err((e, copy_span(&value.span)));
                                },
                            }
                        }
                        i += 2;
                    } else {
                        Self::push_extra(&mut m.extra_meta, kw, items, i + 1);
                        assert(module_items(vs, i + 2, m@, warnings) == module_items(
                            vs,
                            if i + 2 <= items.len() {
                                i + 2
                            } else {
                                items.len() as int
                            },
                            m@,
                            warnings,
                        ));
                        assert(item_fault(vs, i + 2) == item_fault(
                            vs,
                            if i + 2 <= items.len() {
                                i + 2
                            } else {
                                items.len() as int
                            },
                        ));
                        i = past_pair(i, items.len());
                    }
                },
                None => {
                    match head_text(&items[i]) {
                        Some(head) => {
                            if str_eq(head, "type") {
                                match Self::lower_type_def(&items[i]) {
                                    Ok(t) => {
                                        m.types.push(t);
                                    },
                                    Err(e) => {
                                        return Err((e, copy_span(&items[i].span)));
                                    },
                                }
                            } else if str_eq(head, "effect-set") {
                                match Self::lower_effect_set(&items[i]) {
                                    Ok(s) => {
                                        m.effect_sets.push(s);
                                    },
                                    Err(e) => {
                                        return Err((e, copy_span(&items[i].span)));
                                    },
                                }
                            } else if str_eq(head, "fn") {
                                match Self::lower_fn_def(&items[i]) {
                                    Ok(f) => {
                                        m.functions.push(f);
                                    },
                                    Err(e) => {
                                        return Err((e, copy_span(&items[i].span)));
                                    },
                                }
                            } else {
                                let mut msg = String::from_str("unknown top-level form '");
                                msg.append(head);
                                msg.push('\'');
                                let d = Diagnostic::warning(msg, Some(copy_span(&items[i].span)));
                                proof {
                                    assert((diags_view(old(self).diagnostics@) + warnings).push(d@)
                                        =~= diags_view(old(self).diagnostics@) + warnings.push(d@));
                                    warnings = warnings.push(d@);
                                }
                                self.diagnostics.push(d);
                            }
                        },
                        None => {},
                    }
                    i += 1;
                },
            }
        }
        Ok(m)
    }
}


/// Lower idempotence: what lowering yields is a function of the tree, so
/// any two runs on one tree, or on trees with the same view, yield modules
/// with the same view, or the same message, and the same warnings.
pub proof fn lemma_lower_idempotent(
    a: SExpr,
    b: SExpr,
    first: Result<Module, String>,
    second: Result<Module, String>,
)
    requires
        a@ == b@,
        module_agrees(first, lower_module_spec(a@).result),
        module_agrees(second, lower_module_spec(b@).result),
    ensures
        lower_module_spec(a@) == lower_module_spec(b@),
        match (first, second) {
            (Ok(m1), Ok(m2)) => m1@ == m2@,
            (Err(e1), Err(e2)) => e1@ == e2@,
            _ => false,
        },
{
}

} // verus!
