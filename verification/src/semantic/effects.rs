//! Effects pass: compares the effects that function bodies use with the
//! effects that the functions declare.

use vstd::prelude::*;
use vstd::string::StringExecFns;
use crate::ast::{Module, ModuleView, FnDef, FnDefView, Expr, ExprView, MatchArm, MatchArmView,
    Effect, EffectView, EffectKind, EffectSetDef, EffectSetView, exprs_view, bindings_view,
    arms_view, effects_view, effect_sets_view, fndefs_view, strs_view};
use crate::diagnostics::{Diagnostic, DiagnosticView, diags_view, error_view};
use crate::lexer::Span;
use crate::text::{ends_with_char, left, owned, str_ends_with_char, str_eq};

verus! {

broadcast use {crate::ast::group_ast_views};

/// The effect that a call performs by itself: a read for `query`, `get` and
/// `lookup`, a write for a callee whose name ends in `!`, on the store that
/// the first argument names.
pub open spec fn call_effect(name: Seq<char>, args: Seq<ExprView>) -> Option<EffectView> {
    if args.len() > 0 && args[0] is Ref {
        let target = args[0]->Ref_0;
        if name == "query"@ || name == "get"@ || name == "lookup"@ {
            Some(EffectView { kind: EffectKind::Reads, target })
        } else if ends_with_char(name, '!') {
            Some(EffectView { kind: EffectKind::Writes, target })
        } else {
            None
        }
    } else {
        None
    }
}

/// Whether `u` is among the first `n` elements of `s`.
pub open spec fn has_effect(s: Seq<EffectView>, u: EffectView, n: int) -> bool
    decreases n,
{
    if n <= 0 || n > s.len() {
        false
    } else {
        s[n - 1] == u || has_effect(s, u, n - 1)
    }
}

/// `acc` with `u` added unless it is there already.
pub open spec fn add_effect(acc: Seq<EffectView>, u: EffectView) -> Seq<EffectView> {
    if has_effect(acc, u, acc.len() as int) {
        acc
    } else {
        acc.push(u)
    }
}

/// The distinct effects that `e` uses, in the order in which a walk of `e`
/// first meets them, appended to `acc`.
pub open spec fn used_effects(e: ExprView, acc: Seq<EffectView>) -> Seq<EffectView>
    decreases e, 0nat,
{
    match e {
        ExprView::Call { name, args, .. } => used_in_exprs(
            args,
            0,
            match call_effect(name, args) {
                Some(u) => add_effect(acc, u),
                None => acc,
            },
        ),
        ExprView::Let { bindings, body, .. } => used_effects(*body, used_in_pairs(bindings, 0, acc)),
        ExprView::Match { expr, arms, .. } => used_in_arms(arms, 0, used_effects(*expr, acc)),
        ExprView::If { cond, then_branch, else_branch, .. } => used_effects(
            *else_branch,
            used_effects(*then_branch, used_effects(*cond, acc)),
        ),
        ExprView::FieldAccess { expr, .. } => used_effects(*expr, acc),
        ExprView::Success(inner, _) => used_effects(*inner, acc),
        ExprView::Failure { payload, .. } => used_effects(*payload, acc),
        ExprView::MapLit(entries, _) => used_in_pairs(entries, 0, acc),
        _ => acc,
    }
}

pub open spec fn used_in_exprs(es: Seq<ExprView>, i: int, acc: Seq<EffectView>) -> Seq<EffectView>
    decreases es, left(es.len(), i),
{
    if 0 <= i < es.len() {
        used_in_exprs(es, i + 1, used_effects(es[i], acc))
    } else {
        acc
    }
}

pub open spec fn used_in_pairs(
    ps: Seq<(Seq<char>, ExprView)>,
    i: int,
    acc: Seq<EffectView>,
) -> Seq<EffectView>
    decreases ps, left(ps.len(), i),
{
    if 0 <= i < ps.len() {
        used_in_pairs(ps, i + 1, used_effects(ps[i].1, acc))
    } else {
        acc
    }
}

pub open spec fn used_in_arms(arms: Seq<MatchArmView>, i: int, acc: Seq<EffectView>) -> Seq<
    EffectView,
>
    decreases arms, left(arms.len(), i),
{
    if 0 <= i < arms.len() {
        used_in_arms(arms, i + 1, used_effects(arms[i].body, acc))
    } else {
        acc
    }
}

/// The effects of the effect set named `name`: those of the last set of
/// that name among the first `n`, if there is one.
pub open spec fn set_effects(sets: Seq<EffectSetView>, name: Seq<char>, n: int) -> Option<
    Seq<EffectView>,
>
    decreases n,
{
    if n <= 0 || n > sets.len() {
        None
    } else if sets[n - 1].name == name {
        Some(sets[n - 1].effects)
    } else {
        set_effects(sets, name, n - 1)
    }
}

/// Whether one of the effect sets named by the first `n` of `names` holds `u`.
pub open spec fn allowed_by(
    sets: Seq<EffectSetView>,
    names: Seq<Seq<char>>,
    u: EffectView,
    n: int,
) -> bool
    decreases n,
{
    if n <= 0 || n > names.len() {
        false
    } else {
        (match set_effects(sets, names[n - 1], sets.len() as int) {
            Some(effects) => has_effect(effects, u, effects.len() as int),
            None => false,
        }) || allowed_by(sets, names, u, n - 1)
    }
}

/// Whether the function `f` of module `m` declares the effect `u`.
pub open spec fn allowed(m: ModuleView, f: FnDefView, u: EffectView) -> bool {
    allowed_by(m.effect_sets, f.effects, u, f.effects.len() as int)
}

/// Name of an effect kind as it appears in messages.
pub open spec fn kind_text(k: EffectKind) -> Seq<char> {
    match k {
        EffectKind::Reads => "Reads"@,
        EffectKind::Writes => "Writes"@,
        EffectKind::Sends => "Sends"@,
    }
}

/// The error for a function that uses the undeclared effect `u`.
pub open spec fn undeclared(f: FnDefView, u: EffectView) -> DiagnosticView {
    error_view(
        "function '"@ + f.name + "' performs "@ + kind_text(u.kind) + " on '"@ + u.target
            + "' but does not declare that effect"@,
        Some(f.span),
    )
}

/// The errors of one function for its used effects from `i` on, appended to `acc`.
pub open spec fn fn_diags(
    m: ModuleView,
    f: FnDefView,
    used: Seq<EffectView>,
    i: int,
    acc: Seq<DiagnosticView>,
) -> Seq<DiagnosticView>
    decreases left(used.len(), i),
{
    if 0 <= i < used.len() {
        fn_diags(
            m,
            f,
            used,
            i + 1,
            if allowed(m, f, used[i]) {
                acc
            } else {
                acc.push(undeclared(f, used[i]))
            },
        )
    } else {
        acc
    }
}

/// The errors of the functions from `i` on, appended to `acc`.
pub open spec fn effect_diags(m: ModuleView, i: int, acc: Seq<DiagnosticView>) -> Seq<
    DiagnosticView,
>
    decreases left(m.functions.len(), i),
{
    if 0 <= i < m.functions.len() {
        let f = m.functions[i];
        effect_diags(m, i + 1, fn_diags(m, f, used_effects(f.body, Seq::empty()), 0, acc))
    } else {
        acc
    }
}

/// One error for each pair of a function and an effect that its body uses
/// and that none of its effect sets declares.
pub open spec fn check_effects_spec(m: ModuleView) -> Seq<DiagnosticView> {
    effect_diags(m, 0, Seq::empty())
}

proof fn lemma_fn_diags_grow(
    m: ModuleView,
    f: FnDefView,
    used: Seq<EffectView>,
    i: int,
    acc: Seq<DiagnosticView>,
)
    requires
        0 <= i,
    ensures
        fn_diags(m, f, used, i, acc).len() >= acc.len(),
        fn_diags(m, f, used, i, acc).len() == acc.len() ==> forall|k: int|
            i <= k < used.len() ==> allowed(m, f, #[trigger] used[k]),
    decreases left(used.len(), i),
{
    if i < used.len() {
        let next = if allowed(m, f, used[i]) {
            acc
        } else {
            acc.push(undeclared(f, used[i]))
        };
        lemma_fn_diags_grow(m, f, used, i + 1, next);
    }
}

proof fn lemma_effect_diags_grow(m: ModuleView, i: int, acc: Seq<DiagnosticView>)
    requires
        0 <= i,
    ensures
        effect_diags(m, i, acc).len() >= acc.len(),
        effect_diags(m, i, acc).len() == acc.len() ==> forall|j: int, k: int|
            #![trigger used_effects(m.functions[j].body, Seq::empty())[k]]
            i <= j < m.functions.len() && 0 <= k < used_effects(
                m.functions[j].body,
                Seq::empty(),
            ).len() ==> allowed(
                m,
                m.functions[j],
                used_effects(m.functions[j].body, Seq::empty())[k],
            ),
    decreases left(m.functions.len(), i),
{
    if i < m.functions.len() {
        let f = m.functions[i];
        let used = used_effects(f.body, Seq::empty());
        let next = fn_diags(m, f, used, 0, acc);
        lemma_fn_diags_grow(m, f, used, 0, acc);
        lemma_effect_diags_grow(m, i + 1, next);
    }
}

/// Effect soundness: where the effects pass reports nothing, every effect
/// that a function's body uses is declared by one of the function's effect
/// sets.
pub proof fn lemma_effect_soundness(m: ModuleView, j: int, k: int)
    requires
        check_effects_spec(m).len() == 0,
        0 <= j < m.functions.len(),
        0 <= k < used_effects(m.functions[j].body, Seq::empty()).len(),
    ensures
        allowed(m, m.functions[j], used_effects(m.functions[j].body, Seq::empty())[k]),
{
    lemma_effect_diags_grow(m, 0, Seq::empty());
}


fn same_effect(a: &Effect, kind: EffectKind, target: &str) -> (r: bool)
    ensures
        r == (a@ == EffectView { kind, target: target@ }),
{
    let same_kind = match (a.kind, kind) {
        (EffectKind::Reads, EffectKind::Reads) => true,
        (EffectKind::Writes, EffectKind::Writes) => true,
        (EffectKind::Sends, EffectKind::Sends) => true,
        _ => false,
    };
    same_kind && str_eq(a.target.as_str(), target)
}

/// Whether `effects` holds the pair of `kind` and `target`.
fn holds_effect(effects: &Vec<Effect>, kind: EffectKind, target: &str) -> (r: bool)
    ensures
        r == has_effect(
            effects_view(effects@),
            EffectView { kind, target: target@ },
            effects@.len() as int,
        ),
{
    let ghost u = EffectView { kind, target: target@ };
    let ghost vs = effects_view(effects@);
    let mut i: usize = effects.len();
    while i > 0
        invariant
            i <= effects.len(),
            has_effect(vs, u, effects@.len() as int) == has_effect(vs, u, i as int),
        decreases i,
    {
        if same_effect(&effects[i - 1], kind, target) {
            return true;
        }
        i -= 1;
    }
    false
}

/// Adds the pair of `kind` and `target` unless `effects` holds it already.
fn note_effect(effects: &mut Vec<Effect>, kind: EffectKind, target: &str)
    ensures
        effects_view(final(effects)@) == add_effect(
            effects_view(old(effects)@),
            EffectView { kind, target: target@ },
        ),
{
    if !holds_effect(effects, kind, target) {
        effects.push(Effect { kind, target: owned(target) });
    }
}

/// The store that the first argument names, if it is a reference.
fn first_ref(args: &Vec<Expr>) -> (r: Option<&str>)
    ensures
        match r {
            Some(t) => args@.len() > 0 && exprs_view(args@)[0] is Ref && exprs_view(
                args@,
            )[0]->Ref_0 == t@,
            None => !(args@.len() > 0 && exprs_view(args@)[0] is Ref),
        },
{
    if args.len() > 0 {
        match &args[0] {
            Expr::Ref(target, _) => Some(target.as_str()),
            _ => None,
        }
    } else {
        None
    }
}

fn collect_effects_inner(expr: &Expr, effects: &mut Vec<Effect>)
    ensures
        effects_view(final(effects)@) == used_effects(expr@, effects_view(old(effects)@)),
    decreases expr,
{
    match expr {
        Expr::Call { name, args, .. } => {
            if let Some(target) = first_ref(args) {
                if str_eq(name.as_str(), "query") || str_eq(name.as_str(), "get") || str_eq(
                    name.as_str(),
                    "lookup",
                ) {
                    note_effect(effects, EffectKind::Reads, target);
                } else if str_ends_with_char(name.as_str(), '!') {
                    note_effect(effects, EffectKind::Writes, target);
                }
            }
            let ghost vs = exprs_view(args@);
            let ghost start = effects_view(effects@);
            let mut i: usize = 0;
            while i < args.len()
                invariant
                    used_in_exprs(vs, i as int, effects_view(effects@)) == used_in_exprs(
                        vs,
                        0,
                        start,
                    ),
                decreases args.len() - i,
            {
                collect_effects_inner(&args[i], effects);
                i += 1;
            }
        },
        Expr::Let { bindings, body, .. } => {
            collect_in_pairs(bindings, effects);
            collect_effects_inner(body, effects);
        },
        Expr::Match { expr: scrutinee, arms, .. } => {
            collect_effects_inner(scrutinee, effects);
            let ghost vs = arms_view(arms@);
            let ghost start = effects_view(effects@);
            let mut i: usize = 0;
            while i < arms.len()
                invariant
                    used_in_arms(vs, i as int, effects_view(effects@)) == used_in_arms(vs, 0, start),
                decreases arms.len() - i,
            {
                collect_effects_inner(&arms[i].body, effects);
                i += 1;
            }
        },
        Expr::If { cond, then_branch, else_branch, .. } => {
            collect_effects_inner(cond, effects);
            collect_effects_inner(then_branch, effects);
            collect_effects_inner(else_branch, effects);
        },
        Expr::FieldAccess { expr: inner, .. } => {
            collect_effects_inner(inner, effects);
        },
        Expr::Success(inner, _) => {
            collect_effects_inner(inner, effects);
        },
        Expr::Failure { payload, .. } => {
            collect_effects_inner(payload, effects);
        },
        Expr::MapLit(entries, _) => {
            collect_in_pairs(entries, effects);
        },
        _ => {},
    }
}

fn collect_in_pairs(pairs: &Vec<(String, Expr)>, effects: &mut Vec<Effect>)
    ensures
        effects_view(final(effects)@) == used_in_pairs(
            bindings_view(pairs@),
            0,
            effects_view(old(effects)@),
        ),
    decreases pairs,
{
    let ghost vs = bindings_view(pairs@);
    let mut i: usize = 0;
    while i < pairs.len()
        invariant
            used_in_pairs(vs, i as int, effects_view(effects@)) == used_in_pairs(
                vs,
                0,
                effects_view(old(effects)@),
            ),
        decreases pairs.len() - i,
    {
        collect_effects_inner(&pairs[i].1, effects);
        i += 1;
    }
}

/// The distinct effects that `expr` uses, in the order in which a walk of
/// `expr` first meets them.
fn collect_used_effects(expr: &Expr) -> (effects: Vec<Effect>)
    ensures
        effects_view(effects@) == used_effects(expr@, Seq::empty()),
{
    let mut effects: Vec<Effect> = Vec::new();
    collect_effects_inner(expr, &mut effects);
    effects
}

/// The effects of the last effect set named `name`.
fn find_set<'a>(sets: &'a Vec<EffectSetDef>, name: &str) -> (r: Option<&'a Vec<Effect>>)
    ensures
        match r {
            Some(e) => set_effects(effect_sets_view(sets@), name@, sets@.len() as int) == Some(
                effects_view(e@),
            ),
            None => set_effects(effect_sets_view(sets@), name@, sets@.len() as int).is_none(),
        },
{
    let ghost vs = effect_sets_view(sets@);
    let mut i: usize = sets.len();
    while i > 0
        invariant
            i <= sets.len(),
            set_effects(vs, name@, sets@.len() as int) == set_effects(vs, name@, i as int),
        decreases i,
    {
        if str_eq(sets[i - 1].name.as_str(), name) {
            return Some(&sets[i - 1].effects);
        }
        i -= 1;
    }
    None
}

/// Whether `func` declares the effect `u`.
fn is_allowed(module: &Module, func: &FnDef, u: &Effect) -> (r: bool)
    ensures
        r == allowed(module@, func@, u@),
{
    let ghost sets = effect_sets_view(module.effect_sets@);
    let ghost names = strs_view(func.effects@);
    let mut i: usize = func.effects.len();
    while i > 0
        invariant
            i <= func.effects.len(),
            allowed_by(sets, names, u@, func.effects@.len() as int) == allowed_by(
                sets,
                names,
                u@,
                i as int,
            ),
        decreases i,
    {
        if let Some(effects) = find_set(&module.effect_sets, func.effects[i - 1].as_str()) {
            if holds_effect(effects, u.kind, u.target.as_str()) {
                return true;
            }
        }
        i -= 1;
    }
    false
}

fn kind_name(kind: EffectKind) -> (s: &'static str)
    ensures
        s@ == kind_text(kind),
{
    match kind {
        EffectKind::Reads => "Reads",
        EffectKind::Writes => "Writes",
        EffectKind::Sends => "Sends",
    }
}

/// Checks that function bodies use only the effects that their effect sets
/// declare: one error, at the function's span, for each pair of kind and
/// target that a body uses and none of the function's effect sets holds.
pub fn check_effects(module: &Module) -> (diagnostics: Vec<Diagnostic>)
    ensures
        diags_view(diagnostics@) == check_effects_spec(module@),
{
    broadcast use crate::diagnostics::lemma_diags_view_push;

    let mut diagnostics: Vec<Diagnostic> = Vec::new();
    assert(diags_view(diagnostics@) =~= Seq::empty());
    let ghost m = module@;
    let mut i: usize = 0;
    while i < module.functions.len()
        invariant
            effect_diags(m, i as int, diags_view(diagnostics@)) == effect_diags(m, 0, Seq::empty()),
        decreases module.functions.len() - i,
    {
        let func = &module.functions[i];
        let used = collect_used_effects(&func.body);
        let ghost us = effects_view(used@);
        let ghost start = diags_view(diagnostics@);
        let mut k: usize = 0;
        while k < used.len()
            invariant
                fn_diags(m, func@, us, k as int, diags_view(diagnostics@)) == fn_diags(
                    m,
                    func@,
                    us,
                    0,
                    start,
                ),
            decreases used.len() - k,
        {
            if !is_allowed(module, func, &used[k]) {
                let mut msg = String::from_str("function '");
                msg.append(func.name.as_str());
                msg.append("' performs ");
                msg.append(kind_name(used[k].kind));
                msg.append(" on '");
                msg.append(used[k].target.as_str());
                msg.append("' but does not declare that effect");
                diagnostics.push(
                    Diagnostic::error(msg, Some(Span::new(func.span.start, func.span.end))),
                );
            }
            k += 1;
        }
        i += 1;
    }
    diagnostics
}

} // verus!
