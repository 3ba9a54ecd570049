//! Resolve pass: builds the symbol table of a module and checks the names
//! that its functions refer to.

use vstd::prelude::*;
use vstd::string::StringExecFns;
use crate::ast::{Module, ModuleView, FnDef, FnDefView, Expr, ExprView, MatchArm, MatchArmView,
    Pattern, PatternView, TypeExpr, TypeView, TypeDef, TypeDefView, FieldDef, FieldDefView,
    ParamDef, ParamDefView, Variant, VariantView, VariantKind, VariantKindView, Effect, EffectView,
    EffectSetDef, EffectSetView, exprs_view, bindings_view, arms_view, patterns_view,
    variants_view, type_fields_view, effects_view, effect_sets_view, fndefs_view, typedefs_view,
    fields_view, params_view, strs_view};
use crate::diagnostics::{Diagnostic, DiagnosticView, diags_view, error_view, warning_view};
use crate::lexer::Span;
use crate::text::{left, owned, str_eq};

verus! {

broadcast use {crate::ast::group_ast_views};

/// What the table knows of a declared type.
#[derive(Debug)]
pub struct TypeInfo {
    pub fields: Vec<String>,
    pub span: Span,
}

/// What the table knows of a declared effect set.
#[derive(Debug)]
pub struct EffectSetInfo {
    pub effects: Vec<Effect>,
    pub span: Span,
}

/// What the table knows of a declared function.
#[derive(Debug)]
pub struct FnInfo {
    pub effect_names: Vec<String>,
    pub param_names: Vec<String>,
    pub return_variants: Vec<String>,
    pub span: Span,
}

/// Symbol table for name resolution. It keeps every declaration, in source
/// order, under its name; a lookup by name finds the last declaration of
/// that name. `stores` holds each effect target once.
pub struct SymbolTable {
    pub types: Vec<(String, TypeInfo)>,
    pub effect_sets: Vec<(String, EffectSetInfo)>,
    pub functions: Vec<(String, FnInfo)>,
    pub stores: Vec<String>,
}

pub ghost struct TypeInfoView {
    pub fields: Seq<Seq<char>>,
    pub span: Span,
}

pub ghost struct EffectSetInfoView {
    pub effects: Seq<EffectView>,
    pub span: Span,
}

pub ghost struct FnInfoView {
    pub effect_names: Seq<Seq<char>>,
    pub param_names: Seq<Seq<char>>,
    pub return_variants: Seq<Seq<char>>,
    pub span: Span,
}

pub ghost struct SymbolTableView {
    pub types: Seq<(Seq<char>, TypeInfoView)>,
    pub effect_sets: Seq<(Seq<char>, EffectSetInfoView)>,
    pub functions: Seq<(Seq<char>, FnInfoView)>,
    pub stores: Seq<Seq<char>>,
}

impl View for TypeInfo {
    type V = TypeInfoView;

    open spec fn view(&self) -> TypeInfoView {
        TypeInfoView { fields: strs_view(self.fields@), span: self.span }
    }
}

impl View for EffectSetInfo {
    type V = EffectSetInfoView;

    open spec fn view(&self) -> EffectSetInfoView {
        EffectSetInfoView { effects: effects_view(self.effects@), span: self.span }
    }
}

impl View for FnInfo {
    type V = FnInfoView;

    open spec fn view(&self) -> FnInfoView {
        FnInfoView {
            effect_names: strs_view(self.effect_names@),
            param_names: strs_view(self.param_names@),
            return_variants: strs_view(self.return_variants@),
            span: self.span,
        }
    }
}

pub open spec fn type_infos_view(s: Seq<(String, TypeInfo)>) -> Seq<(Seq<char>, TypeInfoView)> {
    Seq::new(s.len(), |i: int| (s[i].0@, s[i].1@))
}

pub open spec fn set_infos_view(s: Seq<(String, EffectSetInfo)>) -> Seq<
    (Seq<char>, EffectSetInfoView),
> {
    Seq::new(s.len(), |i: int| (s[i].0@, s[i].1@))
}

pub open spec fn fn_infos_view(s: Seq<(String, FnInfo)>) -> Seq<(Seq<char>, FnInfoView)> {
    Seq::new(s.len(), |i: int| (s[i].0@, s[i].1@))
}

impl View for SymbolTable {
    type V = SymbolTableView;

    open spec fn view(&self) -> SymbolTableView {
        SymbolTableView {
            types: type_infos_view(self.types@),
            effect_sets: set_infos_view(self.effect_sets@),
            functions: fn_infos_view(self.functions@),
            stores: strs_view(self.stores@),
        }
    }
}

/// Whether `k` is among the first `n` names.
pub open spec fn has_name(names: Seq<Seq<char>>, k: Seq<char>, n: int) -> bool
    decreases n,
{
    if n <= 0 || n > names.len() {
        false
    } else {
        names[n - 1] == k || has_name(names, k, n - 1)
    }
}

/// `names` with `k` added unless it is there already.
pub open spec fn add_name(names: Seq<Seq<char>>, k: Seq<char>) -> Seq<Seq<char>> {
    if has_name(names, k, names.len() as int) {
        names
    } else {
        names.push(k)
    }
}

/// Whether one of the first `n` entries stands under the name `k`.
pub open spec fn has_key<V>(entries: Seq<(Seq<char>, V)>, k: Seq<char>, n: int) -> bool
    decreases n,
{
    if n <= 0 || n > entries.len() {
        false
    } else {
        entries[n - 1].0 == k || has_key(entries, k, n - 1)
    }
}

pub open spec fn field_names(fields: Seq<FieldDefView>, i: int, acc: Seq<Seq<char>>) -> Seq<
    Seq<char>,
>
    decreases left(fields.len(), i),
{
    if 0 <= i < fields.len() {
        field_names(fields, i + 1, acc.push(fields[i].name))
    } else {
        acc
    }
}

pub open spec fn param_names(params: Seq<ParamDefView>, i: int, acc: Seq<Seq<char>>) -> Seq<
    Seq<char>,
>
    decreases left(params.len(), i),
{
    if 0 <= i < params.len() {
        param_names(params, i + 1, acc.push(params[i].name))
    } else {
        acc
    }
}

/// The name of a return variant: `ok`, or the tag of an error variant.
pub open spec fn variant_name(v: VariantView) -> Seq<char> {
    match v.kind {
        VariantKindView::Success { .. } => "ok"@,
        VariantKindView::Failure { tag, .. } => tag,
    }
}

pub open spec fn variant_names(vs: Seq<VariantView>, i: int, acc: Seq<Seq<char>>) -> Seq<Seq<char>>
    decreases left(vs.len(), i),
{
    if 0 <= i < vs.len() {
        variant_names(vs, i + 1, acc.push(variant_name(vs[i])))
    } else {
        acc
    }
}

pub open spec fn type_entries(
    types: Seq<TypeDefView>,
    i: int,
    acc: Seq<(Seq<char>, TypeInfoView)>,
) -> Seq<(Seq<char>, TypeInfoView)>
    decreases left(types.len(), i),
{
    if 0 <= i < types.len() {
        type_entries(
            types,
            i + 1,
            acc.push(
                (
                    types[i].name,
                    TypeInfoView {
                        fields: field_names(types[i].fields, 0, Seq::empty()),
                        span: types[i].span,
                    },
                ),
            ),
        )
    } else {
        acc
    }
}

pub open spec fn set_entries(
    sets: Seq<EffectSetView>,
    i: int,
    acc: Seq<(Seq<char>, EffectSetInfoView)>,
) -> Seq<(Seq<char>, EffectSetInfoView)>
    decreases left(sets.len(), i),
{
    if 0 <= i < sets.len() {
        set_entries(
            sets,
            i + 1,
            acc.push(
                (sets[i].name, EffectSetInfoView { effects: sets[i].effects, span: sets[i].span }),
            ),
        )
    } else {
        acc
    }
}

/// The targets of the effects from `j` on, each added to `acc` once.
pub open spec fn targets_of(effects: Seq<EffectView>, j: int, acc: Seq<Seq<char>>) -> Seq<Seq<char>>
    decreases left(effects.len(), j),
{
    if 0 <= j < effects.len() {
        targets_of(effects, j + 1, add_name(acc, effects[j].target))
    } else {
        acc
    }
}

/// The targets of the effect sets from `i` on, each added to `acc` once.
pub open spec fn store_names(sets: Seq<EffectSetView>, i: int, acc: Seq<Seq<char>>) -> Seq<
    Seq<char>,
>
    decreases left(sets.len(), i),
{
    if 0 <= i < sets.len() {
        store_names(sets, i + 1, targets_of(sets[i].effects, 0, acc))
    } else {
        acc
    }
}

pub open spec fn fn_entries(fns: Seq<FnDefView>, i: int, acc: Seq<(Seq<char>, FnInfoView)>) -> Seq<
    (Seq<char>, FnInfoView),
>
    decreases left(fns.len(), i),
{
    if 0 <= i < fns.len() {
        fn_entries(
            fns,
            i + 1,
            acc.push(
                (
                    fns[i].name,
                    FnInfoView {
                        effect_names: fns[i].effects,
                        param_names: param_names(fns[i].params, 0, Seq::empty()),
                        return_variants: variant_names(fns[i].returns.variants, 0, Seq::empty()),
                        span: fns[i].span,
                    },
                ),
            ),
        )
    } else {
        acc
    }
}

/// The symbol table of a module.
pub open spec fn symtab_of(m: ModuleView) -> SymbolTableView {
    SymbolTableView {
        types: type_entries(m.types, 0, Seq::empty()),
        effect_sets: set_entries(m.effect_sets, 0, Seq::empty()),
        functions: fn_entries(m.functions, 0, Seq::empty()),
        stores: store_names(m.effect_sets, 0, Seq::empty()),
    }
}

/// Whether `name` is one of the built-in type names.
pub open spec fn builtin(name: Seq<char>) -> bool {
    name == "UUID"@ || name == "String"@ || name == "Int"@ || name == "Bool"@ || name == "Unit"@
        || name == "ValidationError"@
}

/// The warning for a type name that the module does not define.
pub open spec fn unknown_type(context: Seq<char>, name: Seq<char>) -> DiagnosticView {
    warning_view(
        "in '"@ + context + "': type '"@ + name + "' is not defined in this module"@,
        None,
    )
}

/// The warnings for the type names in `t` that are neither built in nor
/// declared, appended to `acc`.
pub open spec fn type_ref_diags(
    t: TypeView,
    tab: SymbolTableView,
    context: Seq<char>,
    acc: Seq<DiagnosticView>,
) -> Seq<DiagnosticView>
    decreases t, 0nat,
{
    match t {
        TypeView::Named(name) => if !builtin(name) && !has_key(
            tab.types,
            name,
            tab.types.len() as int,
        ) {
            acc.push(unknown_type(context, name))
        } else {
            acc
        },
        TypeView::Mapping(fields) => field_ref_diags(fields, 0, tab, context, acc),
        TypeView::List(inner) => type_ref_diags(*inner, tab, context, acc),
        TypeView::Union(variants) => variant_ref_diags(variants, 0, tab, context, acc),
        TypeView::Enum(_) => acc,
    }
}

pub open spec fn field_ref_diags(
    fields: Seq<(Seq<char>, TypeView)>,
    i: int,
    tab: SymbolTableView,
    context: Seq<char>,
    acc: Seq<DiagnosticView>,
) -> Seq<DiagnosticView>
    decreases fields, left(fields.len(), i),
{
    if 0 <= i < fields.len() {
        field_ref_diags(fields, i + 1, tab, context, type_ref_diags(fields[i].1, tab, context, acc))
    } else {
        acc
    }
}

/// The type that a variant carries: its success type or its error payload.
pub open spec fn variant_type(v: VariantView) -> TypeView {
    match v.kind {
        VariantKindView::Success { type_expr, .. } => type_expr,
        VariantKindView::Failure { payload, .. } => payload,
    }
}

pub open spec fn variant_ref_diags(
    variants: Seq<VariantView>,
    i: int,
    tab: SymbolTableView,
    context: Seq<char>,
    acc: Seq<DiagnosticView>,
) -> Seq<DiagnosticView>
    decreases variants, left(variants.len(), i),
{
    if 0 <= i < variants.len() {
        variant_ref_diags(
            variants,
            i + 1,
            tab,
            context,
            type_ref_diags(variant_type(variants[i]), tab, context, acc),
        )
    } else {
        acc
    }
}

/// The names in scope and the diagnostics raised so far.
pub ghost struct RefState {
    pub scope: Seq<Seq<char>>,
    pub diags: Seq<DiagnosticView>,
}

/// Whether a reference to `name` resolves: to a name in scope, to a
/// declaration of the module, to a store, or to a built-in type.
pub open spec fn resolves(name: Seq<char>, tab: SymbolTableView, scope: Seq<Seq<char>>) -> bool {
    has_name(scope, name, scope.len() as int) || has_key(tab.types, name, tab.types.len() as int)
        || has_key(tab.effect_sets, name, tab.effect_sets.len() as int) || has_key(
        tab.functions,
        name,
        tab.functions.len() as int,
    ) || has_name(tab.stores, name, tab.stores.len() as int) || builtin(name)
}

/// The warning for a reference that does not resolve.
pub open spec fn unresolved(context: Seq<char>, name: Seq<char>, span: Span) -> DiagnosticView {
    warning_view("in '"@ + context + "': unresolved reference '"@ + name + "'"@, Some(span))
}

/// `scope` with the variables that `p` binds.
pub open spec fn pattern_scope(p: PatternView, scope: Seq<Seq<char>>) -> Seq<Seq<char>>
    decreases p, 0nat,
{
    match p {
        PatternView::Var(name, _) => add_name(scope, name),
        PatternView::Constructor { args, .. } => patterns_scope(args, 0, scope),
        _ => scope,
    }
}

pub open spec fn patterns_scope(ps: Seq<PatternView>, i: int, scope: Seq<Seq<char>>) -> Seq<
    Seq<char>,
>
    decreases ps, left(ps.len(), i),
{
    if 0 <= i < ps.len() {
        patterns_scope(ps, i + 1, pattern_scope(ps[i], scope))
    } else {
        scope
    }
}

/// Walks `e` with the scope of `st`: a `let` adds its names to the scope
/// from left to right, each arm of a `match` sees the variables of its
/// pattern in a scope of its own, and a reference that does not resolve
/// draws a warning.
pub open spec fn ref_walk(e: ExprView, tab: SymbolTableView, context: Seq<char>, st: RefState) -> RefState
    decreases e, 0nat,
{
    match e {
        ExprView::Ref(name, span) => if resolves(name, tab, st.scope) {
            st
        } else {
            RefState { diags: st.diags.push(unresolved(context, name, span)), ..st }
        },
        ExprView::Let { bindings, body, .. } => ref_walk(
            *body,
            tab,
            context,
            ref_walk_bindings(bindings, 0, tab, context, st),
        ),
        ExprView::Match { expr, arms, .. } => ref_walk_arms(
            arms,
            0,
            tab,
            context,
            ref_walk(*expr, tab, context, st),
        ),
        ExprView::If { cond, then_branch, else_branch, .. } => ref_walk(
            *else_branch,
            tab,
            context,
            ref_walk(*then_branch, tab, context, ref_walk(*cond, tab, context, st)),
        ),
        ExprView::Call { args, .. } => ref_walk_exprs(args, 0, tab, context, st),
        ExprView::FieldAccess { expr, .. } => ref_walk(*expr, tab, context, st),
        ExprView::Success(inner, _) => ref_walk(*inner, tab, context, st),
        ExprView::Failure { payload, .. } => ref_walk(*payload, tab, context, st),
        ExprView::MapLit(entries, _) => ref_walk_values(entries, 0, tab, context, st),
        _ => st,
    }
}

pub open spec fn ref_walk_exprs(
    es: Seq<ExprView>,
    i: int,
    tab: SymbolTableView,
    context: Seq<char>,
    st: RefState,
) -> RefState
    decreases es, left(es.len(), i),
{
    if 0 <= i < es.len() {
        ref_walk_exprs(es, i + 1, tab, context, ref_walk(es[i], tab, context, st))
    } else {
        st
    }
}

pub open spec fn ref_walk_values(
    ps: Seq<(Seq<char>, ExprView)>,
    i: int,
    tab: SymbolTableView,
    context: Seq<char>,
    st: RefState,
) -> RefState
    decreases ps, left(ps.len(), i),
{
    if 0 <= i < ps.len() {
        ref_walk_values(ps, i + 1, tab, context, ref_walk(ps[i].1, tab, context, st))
    } else {
        st
    }
}

pub open spec fn ref_walk_bindings(
    ps: Seq<(Seq<char>, ExprView)>,
    i: int,
    tab: SymbolTableView,
    context: Seq<char>,
    st: RefState,
) -> RefState
    decreases ps, left(ps.len(), i),
{
    if 0 <= i < ps.len() {
        let after = ref_walk(ps[i].1, tab, context, st);
        ref_walk_bindings(
            ps,
            i + 1,
            tab,
            context,
            RefState { scope: add_name(after.scope, ps[i].0), ..after },
        )
    } else {
        st
    }
}

pub open spec fn ref_walk_arms(
    arms: Seq<MatchArmView>,
    i: int,
    tab: SymbolTableView,
    context: Seq<char>,
    st: RefState,
) -> RefState
    decreases arms, left(arms.len(), i),
{
    if 0 <= i < arms.len() {
        let inside = ref_walk(
            arms[i].body,
            tab,
            context,
            RefState { scope: pattern_scope(arms[i].pattern, st.scope), ..st },
        );
        ref_walk_arms(arms, i + 1, tab, context, RefState { diags: inside.diags, ..st })
    } else {
        st
    }
}

/// The error for an effect set that a function names and the module lacks.
pub open spec fn unknown_effect_set(f: FnDefView, name: Seq<char>) -> DiagnosticView {
    error_view(
        "function '"@ + f.name + "' references unknown effect set '"@ + name + "'"@,
        Some(f.span),
    )
}

pub open spec fn effect_name_diags(
    f: FnDefView,
    tab: SymbolTableView,
    i: int,
    acc: Seq<DiagnosticView>,
) -> Seq<DiagnosticView>
    decreases left(f.effects.len(), i),
{
    if 0 <= i < f.effects.len() {
        effect_name_diags(
            f,
            tab,
            i + 1,
            if has_key(tab.effect_sets, f.effects[i], tab.effect_sets.len() as int) {
                acc
            } else {
                acc.push(unknown_effect_set(f, f.effects[i]))
            },
        )
    } else {
        acc
    }
}

pub open spec fn param_ref_diags(
    params: Seq<ParamDefView>,
    i: int,
    tab: SymbolTableView,
    context: Seq<char>,
    acc: Seq<DiagnosticView>,
) -> Seq<DiagnosticView>
    decreases left(params.len(), i),
{
    if 0 <= i < params.len() {
        param_ref_diags(
            params,
            i + 1,
            tab,
            context,
            type_ref_diags(params[i].type_expr, tab, context, acc),
        )
    } else {
        acc
    }
}

/// The names of the parameters from `i` on, each added to `acc` once.
pub open spec fn param_scope(params: Seq<ParamDefView>, i: int, acc: Seq<Seq<char>>) -> Seq<
    Seq<char>,
>
    decreases left(params.len(), i),
{
    if 0 <= i < params.len() {
        param_scope(params, i + 1, add_name(acc, params[i].name))
    } else {
        acc
    }
}

/// The diagnostics of one function, appended to `acc`: unknown effect sets,
/// then unknown types in parameters and return variants, then references in
/// the body that do not resolve.
pub open spec fn fn_resolve_diags(f: FnDefView, tab: SymbolTableView, acc: Seq<DiagnosticView>) -> Seq<
    DiagnosticView,
> {
    let d1 = effect_name_diags(f, tab, 0, acc);
    let d2 = param_ref_diags(f.params, 0, tab, f.name, d1);
    let d3 = variant_ref_diags(f.returns.variants, 0, tab, f.name, d2);
    ref_walk(
        f.body,
        tab,
        f.name,
        RefState { scope: param_scope(f.params, 0, Seq::empty()), diags: d3 },
    ).diags
}

pub open spec fn resolve_diags(
    fns: Seq<FnDefView>,
    i: int,
    tab: SymbolTableView,
    acc: Seq<DiagnosticView>,
) -> Seq<DiagnosticView>
    decreases left(fns.len(), i),
{
    if 0 <= i < fns.len() {
        resolve_diags(fns, i + 1, tab, fn_resolve_diags(fns[i], tab, acc))
    } else {
        acc
    }
}

pub open spec fn resolve_names_spec(m: ModuleView) -> Seq<DiagnosticView> {
    resolve_diags(m.functions, 0, symtab_of(m), Seq::empty())
}


/// Whether `names` holds `k`.
fn contains_name(names: &Vec<String>, k: &str) -> (r: bool)
    ensures
        r == has_name(strs_view(names@), k@, names@.len() as int),
{
    let ghost vs = strs_view(names@);
    let mut i: usize = names.len();
    while i > 0
        invariant
            i <= names.len(),
            has_name(vs, k@, names@.len() as int) == has_name(vs, k@, i as int),
        decreases i,
    {
        if str_eq(names[i - 1].as_str(), k) {
            return true;
        }
        i -= 1;
    }
    false
}

/// Adds `k` to `names` unless it is there already.
fn insert_name(names: &mut Vec<String>, k: &str)
    ensures
        strs_view(final(names)@) == add_name(strs_view(old(names)@), k@),
{
    if !contains_name(names, k) {
        names.push(owned(k));
    }
}

/// A vector with the same strings.
fn copy_names(names: &Vec<String>) -> (r: Vec<String>)
    ensures
        strs_view(r@) == strs_view(names@),
{
    let mut r: Vec<String> = Vec::new();
    let mut i: usize = 0;
    while i < names.len()
        invariant
            i <= names.len(),
            strs_view(r@) == strs_view(names@).take(i as int),
        decreases names.len() - i,
    {
        r.push(names[i].clone());
        assert(strs_view(names@).take(i + 1) =~= strs_view(names@).take(i as int).push(names@[i as int]@));
        i += 1;
    }
    assert(strs_view(names@).take(names@.len() as int) =~= strs_view(names@));
    r
}

/// A vector with the same effects.
fn copy_effects(effects: &Vec<Effect>) -> (r: Vec<Effect>)
    ensures
        effects_view(r@) == effects_view(effects@),
{
    let mut r: Vec<Effect> = Vec::new();
    let mut i: usize = 0;
    while i < effects.len()
        invariant
            i <= effects.len(),
            effects_view(r@) == effects_view(effects@).take(i as int),
        decreases effects.len() - i,
    {
        r.push(Effect { kind: effects[i].kind, target: effects[i].target.clone() });
        assert(effects_view(effects@).take(i + 1) =~= effects_view(effects@).take(i as int).push(
            effects@[i as int]@,
        ));
        i += 1;
    }
    assert(effects_view(effects@).take(effects@.len() as int) =~= effects_view(effects@));
    r
}

impl SymbolTable {
    /// Whether a type is declared under `name`.
    pub fn has_type(&self, name: &str) -> (r: bool)
        ensures
            r == has_key(self@.types, name@, self@.types.len() as int),
    {
        let ghost vs = self@.types;
        let mut i: usize = self.types.len();
        while i > 0
            invariant
                i <= self.types.len(),
                has_key(vs, name@, vs.len() as int) == has_key(vs, name@, i as int),
            decreases i,
        {
            if str_eq(self.types[i - 1].0.as_str(), name) {
                return true;
            }
            i -= 1;
        }
        false
    }

    /// Whether an effect set is declared under `name`.
    pub fn has_effect_set(&self, name: &str) -> (r: bool)
        ensures
            r == has_key(self@.effect_sets, name@, self@.effect_sets.len() as int),
    {
        let ghost vs = self@.effect_sets;
        let mut i: usize = self.effect_sets.len();
        while i > 0
            invariant
                i <= self.effect_sets.len(),
                has_key(vs, name@, vs.len() as int) == has_key(vs, name@, i as int),
            decreases i,
        {
            if str_eq(self.effect_sets[i - 1].0.as_str(), name) {
                return true;
            }
            i -= 1;
        }
        false
    }

    /// Whether a function is declared under `name`.
    pub fn has_function(&self, name: &str) -> (r: bool)
        ensures
            r == has_key(self@.functions, name@, self@.functions.len() as int),
    {
        let ghost vs = self@.functions;
        let mut i: usize = self.functions.len();
        while i > 0
            invariant
                i <= self.functions.len(),
                has_key(vs, name@, vs.len() as int) == has_key(vs, name@, i as int),
            decreases i,
        {
            if str_eq(self.functions[i - 1].0.as_str(), name) {
                return true;
            }
            i -= 1;
        }
        false
    }

    /// The symbol table of `module`.
    pub fn build(module: &Module) -> (tab: SymbolTable)
        ensures
            tab@ == symtab_of(module@),
    {
        let ghost m = module@;
        let mut types: Vec<(String, TypeInfo)> = Vec::new();
        assert(type_infos_view(types@) =~= Seq::empty());
        let mut i: usize = 0;
        while i < module.types.len()
            invariant
                type_entries(m.types, i as int, type_infos_view(types@)) == type_entries(
                    m.types,
                    0,
                    Seq::empty(),
                ),
            decreases module.types.len() - i,
        {
            let typedef = &module.types[i];
            let ghost fs = fields_view(typedef.fields@);
            let mut fields: Vec<String> = Vec::new();
            let mut j: usize = 0;
            while j < typedef.fields.len()
                invariant
                    field_names(fs, j as int, strs_view(fields@)) == field_names(
                        fs,
                        0,
                        Seq::empty(),
                    ),
                decreases typedef.fields.len() - j,
            {
                fields.push(typedef.fields[j].name.clone());
                j += 1;
            }
            let entry = (
                typedef.name.clone(),
                TypeInfo { fields, span: Span::new(typedef.span.start, typedef.span.end) },
            );
            assert(type_infos_view(types@.push(entry)) =~= type_infos_view(types@).push(
                (entry.0@, entry.1@),
            ));
            types.push(entry);
            i += 1;
        }
        let mut effect_sets: Vec<(String, EffectSetInfo)> = Vec::new();
        let mut stores: Vec<String> = Vec::new();
        assert(set_infos_view(effect_sets@) =~= Seq::empty());
        let mut i: usize = 0;
        while i < module.effect_sets.len()
            invariant
                set_entries(m.effect_sets, i as int, set_infos_view(effect_sets@)) == set_entries(
                    m.effect_sets,
                    0,
                    Seq::empty(),
                ),
                store_names(m.effect_sets, i as int, strs_view(stores@)) == store_names(
                    m.effect_sets,
                    0,
                    Seq::empty(),
                ),
            decreases module.effect_sets.len() - i,
        {
            let set = &module.effect_sets[i];
            let ghost es = effects_view(set.effects@);
            let ghost start = strs_view(stores@);
            let mut j: usize = 0;
            while j < set.effects.len()
                invariant
                    targets_of(es, j as int, strs_view(stores@)) == targets_of(es, 0, start),
                decreases set.effects.len() - j,
            {
                insert_name(&mut stores, set.effects[j].target.as_str());
                j += 1;
            }
            let entry = (
                set.name.clone(),
                EffectSetInfo {
                    effects: copy_effects(&set.effects),
                    span: Span::new(set.span.start, set.span.end),
                },
            );
            assert(set_infos_view(effect_sets@.push(entry)) =~= set_infos_view(effect_sets@).push(
                (entry.0@, entry.1@),
            ));
            effect_sets.push(entry);
            i += 1;
        }
        let mut functions: Vec<(String, FnInfo)> = Vec::new();
        assert(fn_infos_view(functions@) =~= Seq::empty());
        let mut i: usize = 0;
        while i < module.functions.len()
            invariant
                fn_entries(m.functions, i as int, fn_infos_view(functions@)) == fn_entries(
                    m.functions,
                    0,
                    Seq::empty(),
                ),
            decreases module.functions.len() - i,
        {
            let func = &module.functions[i];
            let ghost ps = params_view(func.params@);
            let mut param_list: Vec<String> = Vec::new();
            let mut j: usize = 0;
            while j < func.params.len()
                invariant
                    param_names(ps, j as int, strs_view(param_list@)) == param_names(
                        ps,
                        0,
                        Seq::empty(),
                    ),
                decreases func.params.len() - j,
            {
                param_list.push(func.params[j].name.clone());
                j += 1;
            }
            let ghost vs = variants_view(func.returns.variants@);
            let mut return_variants: Vec<String> = Vec::new();
            let mut j: usize = 0;
            while j < func.returns.variants.len()
                invariant
                    variant_names(vs, j as int, strs_view(return_variants@)) == variant_names(
                        vs,
                        0,
                        Seq::empty(),
                    ),
                decreases func.returns.variants.len() - j,
            {
                let name = match &func.returns.variants[j].kind {
                    VariantKind::Success { .. } => owned("ok"),
                    VariantKind::Failure { tag, .. } => tag.clone(),
                };
                return_variants.push(name);
                j += 1;
            }
            let entry = (
                func.name.clone(),
                FnInfo {
                    effect_names: copy_names(&func.effects),
                    param_names: param_list,
                    return_variants,
                    span: Span::new(func.span.start, func.span.end),
                },
            );
            assert(fn_infos_view(functions@.push(entry)) =~= fn_infos_view(functions@).push(
                (entry.0@, entry.1@),
            ));
            functions.push(entry);
            i += 1;
        }
        SymbolTable { types, effect_sets, functions, stores }
    }
}

fn is_builtin(name: &str) -> (r: bool)
    ensures
        r == builtin(name@),
{
    str_eq(name, "UUID") || str_eq(name, "String") || str_eq(name, "Int") || str_eq(name, "Bool")
        || str_eq(name, "Unit") || str_eq(name, "ValidationError")
}

fn check_type_ref(
    type_expr: &TypeExpr,
    symtab: &SymbolTable,
    context: &str,
    diagnostics: &mut Vec<Diagnostic>,
)
    ensures
        diags_view(final(diagnostics)@) == type_ref_diags(
            type_expr@,
            symtab@,
            context@,
            diags_view(old(diagnostics)@),
        ),
    decreases type_expr,
{
    broadcast use crate::diagnostics::lemma_diags_view_push;

    match type_expr {
        TypeExpr::Named(name) => {
            if !is_builtin(name.as_str()) && !symtab.has_type(name.as_str()) {
                let mut msg = String::from_str("in '");
                msg.append(context);
                msg.append("': type '");
                msg.append(name.as_str());
                msg.append("' is not defined in this module");
                diagnostics.push(Diagnostic::warning(msg, None));
            }
        },
        TypeExpr::Mapping(fields) => {
            let ghost vs = type_fields_view(fields@);
            let ghost start = diags_view(diagnostics@);
            let mut i: usize = 0;
            while i < fields.len()
                invariant
                    field_ref_diags(vs, i as int, symtab@, context@, diags_view(diagnostics@))
                        == field_ref_diags(vs, 0, symtab@, context@, start),
                decreases fields.len() - i,
            {
                check_type_ref(&fields[i].1, symtab, context, diagnostics);
                i += 1;
            }
        },
        TypeExpr::List(inner) => {
            check_type_ref(inner, symtab, context, diagnostics);
        },
        TypeExpr::Union(variants) => {
            check_variant_refs(variants, symtab, context, diagnostics);
        },
        TypeExpr::Enum(_) => {},
    }
}

fn check_variant_refs(
    variants: &Vec<Variant>,
    symtab: &SymbolTable,
    context: &str,
    diagnostics: &mut Vec<Diagnostic>,
)
    ensures
        diags_view(final(diagnostics)@) == variant_ref_diags(
            variants_view(variants@),
            0,
            symtab@,
            context@,
            diags_view(old(diagnostics)@),
        ),
    decreases variants,
{
    let ghost vs = variants_view(variants@);
    let mut i: usize = 0;
    while i < variants.len()
        invariant
            variant_ref_diags(vs, i as int, symtab@, context@, diags_view(diagnostics@))
                == variant_ref_diags(vs, 0, symtab@, context@, diags_view(old(diagnostics)@)),
        decreases variants.len() - i,
    {
        match &variants[i].kind {
            VariantKind::Success { type_expr, .. } => {
                check_type_ref(type_expr, symtab, context, diagnostics);
            },
            VariantKind::Failure { payload, .. } => {
                check_type_ref(payload, symtab, context, diagnostics);
            },
        }
        i += 1;
    }
}

fn collect_pattern_bindings(pattern: &Pattern, scope: &mut Vec<String>)
    ensures
        strs_view(final(scope)@) == pattern_scope(pattern@, strs_view(old(scope)@)),
    decreases pattern,
{
    match pattern {
        Pattern::Var(name, _) => {
            insert_name(scope, name.as_str());
        },
        Pattern::Constructor { args, .. } => {
            let ghost vs = patterns_view(args@);
            let ghost start = strs_view(scope@);
            let mut i: usize = 0;
            while i < args.len()
                invariant
                    patterns_scope(vs, i as int, strs_view(scope@)) == patterns_scope(vs, 0, start),
                decreases args.len() - i,
            {
                collect_pattern_bindings(&args[i], scope);
                i += 1;
            }
        },
        _ => {},
    }
}

/// The state of a walk as held while running it.
pub open spec fn ref_state(scope: Seq<String>, diagnostics: Seq<Diagnostic>) -> RefState {
    RefState { scope: strs_view(scope), diags: diags_view(diagnostics) }
}

fn check_expr_refs(
    expr: &Expr,
    symtab: &SymbolTable,
    scope: &mut Vec<String>,
    context: &str,
    diagnostics: &mut Vec<Diagnostic>,
)
    ensures
        ref_state(final(scope)@, final(diagnostics)@) == ref_walk(
            expr@,
            symtab@,
            context@,
            ref_state(old(scope)@, old(diagnostics)@),
        ),
    decreases expr,
{
    broadcast use crate::diagnostics::lemma_diags_view_push;

    match expr {
        Expr::Ref(name, span) => {
            let n = name.as_str();
            if !(contains_name(scope, n) || symtab.has_type(n) || symtab.has_effect_set(n)
                || symtab.has_function(n) || contains_name(&symtab.stores, n) || is_builtin(n)) {
                let mut msg = String::from_str("in '");
                msg.append(context);
                msg.append("': unresolved reference '");
                msg.append(n);
                msg.append("'");
                diagnostics.push(Diagnostic::warning(msg, Some(Span::new(span.start, span.end))));
            }
        },
        Expr::Let { bindings, body, .. } => {
            let ghost vs = bindings_view(bindings@);
            let ghost start = ref_state(scope@, diagnostics@);
            let mut i: usize = 0;
            while i < bindings.len()
                invariant
                    ref_walk_bindings(
                        vs,
                        i as int,
                        symtab@,
                        context@,
                        ref_state(scope@, diagnostics@),
                    ) == ref_walk_bindings(vs, 0, symtab@, context@, start),
                decreases bindings.len() - i,
            {
                check_expr_refs(&bindings[i].1, symtab, scope, context, diagnostics);
                insert_name(scope, bindings[i].0.as_str());
                i += 1;
            }
            check_expr_refs(body, symtab, scope, context, diagnostics);
        },
        Expr::Match { expr: scrutinee, arms, .. } => {
            check_expr_refs(scrutinee, symtab, scope, context, diagnostics);
            let ghost vs = arms_view(arms@);
            let ghost start = ref_state(scope@, diagnostics@);
            let mut i: usize = 0;
            while i < arms.len()
                invariant
                    ref_walk_arms(vs, i as int, symtab@, context@, ref_state(scope@, diagnostics@))
                        == ref_walk_arms(vs, 0, symtab@, context@, start),
                decreases arms.len() - i,
            {
                let mut arm_scope = copy_names(scope);
                collect_pattern_bindings(&arms[i].pattern, &mut arm_scope);
                check_expr_refs(&arms[i].body, symtab, &mut arm_scope, context, diagnostics);
                i += 1;
            }
        },
        Expr::If { cond, then_branch, else_branch, .. } => {
            check_expr_refs(cond, symtab, scope, context, diagnostics);
            check_expr_refs(then_branch, symtab, scope, context, diagnostics);
            check_expr_refs(else_branch, symtab, scope, context, diagnostics);
        },
        Expr::Call { args, .. } => {
            let ghost vs = exprs_view(args@);
            let ghost start = ref_state(scope@, diagnostics@);
            let mut i: usize = 0;
            while i < args.len()
                invariant
                    ref_walk_exprs(vs, i as int, symtab@, context@, ref_state(scope@, diagnostics@))
                        == ref_walk_exprs(vs, 0, symtab@, context@, start),
                decreases args.len() - i,
            {
                check_expr_refs(&args[i], symtab, scope, context, diagnostics);
                i += 1;
            }
        },
        Expr::FieldAccess { expr: inner, .. } => {
            check_expr_refs(inner, symtab, scope, context, diagnostics);
        },
        Expr::Success(inner, _) => {
            check_expr_refs(inner, symtab, scope, context, diagnostics);
        },
        Expr::Failure { payload, .. } => {
            check_expr_refs(payload, symtab, scope, context, diagnostics);
        },
        Expr::MapLit(entries, _) => {
            let ghost vs = bindings_view(entries@);
            let ghost start = ref_state(scope@, diagnostics@);
            let mut i: usize = 0;
            while i < entries.len()
                invariant
                    ref_walk_values(vs, i as int, symtab@, context@, ref_state(scope@, diagnostics@))
                        == ref_walk_values(vs, 0, symtab@, context@, start),
                decreases entries.len() - i,
            {
                check_expr_refs(&entries[i].1, symtab, scope, context, diagnostics);
                i += 1;
            }
        },
        _ => {},
    }
}

/// Checks the names that the functions of `module` refer to: an effect set
/// that the module lacks is an error; a type name that is neither built in
/// nor declared, and a reference that does not resolve, are warnings.
pub fn resolve_names(module: &Module) -> (diagnostics: Vec<Diagnostic>)
    ensures
        diags_view(diagnostics@) == resolve_names_spec(module@),
{
    broadcast use crate::diagnostics::lemma_diags_view_push;

    let symtab = SymbolTable::build(module);
    let mut diagnostics: Vec<Diagnostic> = Vec::new();
    assert(diags_view(diagnostics@) =~= Seq::empty());
    let ghost fns = fndefs_view(module.functions@);
    let ghost tab = symtab@;
    let mut i: usize = 0;
    while i < module.functions.len()
        invariant
            resolve_diags(fns, i as int, tab, diags_view(diagnostics@)) == resolve_diags(
                fns,
                0,
                tab,
                Seq::empty(),
            ),
        decreases module.functions.len() - i,
    {
        let func = &module.functions[i];
        let ghost f = func@;
        let ghost start = diags_view(diagnostics@);
        let mut j: usize = 0;
        while j < func.effects.len()
            invariant
                effect_name_diags(f, tab, j as int, diags_view(diagnostics@)) == effect_name_diags(
                    f,
                    tab,
                    0,
                    start,
                ),
            decreases func.effects.len() - j,
        {
            if !symtab.has_effect_set(func.effects[j].as_str()) {
                let mut msg = String::from_str("function '");
                msg.append(func.name.as_str());
                msg.append("' references unknown effect set '");
                msg.append(func.effects[j].as_str());
                msg.append("'");
                diagnostics.push(
                    Diagnostic::error(msg, Some(Span::new(func.span.start, func.span.end))),
                );
            }
            j += 1;
        }
        let ghost d1 = diags_view(diagnostics@);
        let mut scope: Vec<String> = Vec::new();
        let mut j: usize = 0;
        while j < func.params.len()
            invariant
                param_ref_diags(f.params, j as int, tab, f.name, diags_view(diagnostics@))
                    == param_ref_diags(f.params, 0, tab, f.name, d1),
                param_scope(f.params, j as int, strs_view(scope@)) == param_scope(
                    f.params,
                    0,
                    Seq::empty(),
                ),
            decreases func.params.len() - j,
        {
            check_type_ref(&func.params[j].type_expr, &symtab, func.name.as_str(), &mut diagnostics);
            insert_name(&mut scope, func.params[j].name.as_str());
            j += 1;
        }
        check_variant_refs(&func.returns.variants, &symtab, func.name.as_str(), &mut diagnostics);
        check_expr_refs(&func.body, &symtab, &mut scope, func.name.as_str(), &mut diagnostics);
        i += 1;
    }
    diagnostics
}

} // verus!
