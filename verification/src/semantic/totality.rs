//! Totality pass: a heuristic check of match exhaustiveness in functions
//! marked total. It raises warnings, never errors.

use vstd::prelude::*;
use vstd::string::StringExecFns;
use crate::ast::{Module, ModuleView, FnDef, FnDefView, Expr, ExprView, MatchArm, MatchArmView,
    Pattern, PatternView, exprs_view, bindings_view, arms_view, fndefs_view, strs_view};
use crate::diagnostics::{Diagnostic, DiagnosticView, diags_view, warning_view};
use crate::lexer::Span;
use crate::text::{debug_list, left, owned, push_debug_list, str_eq};

verus! {

broadcast use {crate::ast::group_ast_views};

/// Whether a pattern matches every value: a wildcard or a lone variable.
pub open spec fn catch_all(p: PatternView) -> bool {
    p is Wildcard || p is Var
}

/// The outermost constructor or keyword tag of a pattern.
pub open spec fn pattern_tag(p: PatternView) -> Option<Seq<char>> {
    match p {
        PatternView::Constructor { name, .. } => Some(name),
        PatternView::Keyword(kw, _) => Some(kw),
        _ => None,
    }
}

/// Whether one of the first `n` arms has a catch-all pattern.
pub open spec fn any_catch_all(arms: Seq<MatchArmView>, n: int) -> bool
    decreases n,
{
    if n <= 0 || n > arms.len() {
        false
    } else {
        catch_all(arms[n - 1].pattern) || any_catch_all(arms, n - 1)
    }
}

/// The tags of the arms from `i` on, appended to `acc`.
pub open spec fn tags_of(arms: Seq<MatchArmView>, i: int, acc: Seq<Seq<char>>) -> Seq<Seq<char>>
    decreases left(arms.len(), i),
{
    if 0 <= i < arms.len() {
        tags_of(
            arms,
            i + 1,
            match pattern_tag(arms[i].pattern) {
                Some(t) => acc.push(t),
                None => acc,
            },
        )
    } else {
        acc
    }
}

/// Whether one of the first `n` tags is `ok`.
pub open spec fn has_ok(tags: Seq<Seq<char>>, n: int) -> bool
    decreases n,
{
    if n <= 0 || n > tags.len() {
        false
    } else {
        tags[n - 1] == "ok"@ || has_ok(tags, n - 1)
    }
}

/// Whether one of the first `n` tags is other than `ok`.
pub open spec fn has_other(tags: Seq<Seq<char>>, n: int) -> bool
    decreases n,
{
    if n <= 0 || n > tags.len() {
        false
    } else {
        tags[n - 1] != "ok"@ || has_other(tags, n - 1)
    }
}

/// Whether a match with these arms draws a warning: no arm catches all, and
/// the tags of its arms do not hold both `ok` and a tag other than `ok`.
pub open spec fn suspicious(arms: Seq<MatchArmView>) -> bool {
    let tags = tags_of(arms, 0, Seq::empty());
    !any_catch_all(arms, arms.len() as int) && tags.len() > 0 && !(has_ok(tags, tags.len() as int)
        && has_other(tags, tags.len() as int))
}

/// The warning for a suspicious match in the function `fn_name`.
pub open spec fn match_warning(fn_name: Seq<char>, arms: Seq<MatchArmView>, span: Span) -> DiagnosticView {
    warning_view(
        debug_list(
            "match in '"@ + fn_name + "' may not be exhaustive: matched "@,
            tags_of(arms, 0, Seq::empty()),
        ),
        Some(span),
    )
}

/// The warnings for the matches in `e`, appended to `acc`: a match's own
/// warning first, then those of its scrutinee and of its arms' bodies.
pub open spec fn walk(e: ExprView, fn_name: Seq<char>, acc: Seq<DiagnosticView>) -> Seq<
    DiagnosticView,
>
    decreases e, 0nat,
{
    match e {
        ExprView::Match { expr, arms, span } => walk_arms(
            arms,
            0,
            fn_name,
            walk(
                *expr,
                fn_name,
                if suspicious(arms) {
                    acc.push(match_warning(fn_name, arms, span))
                } else {
                    acc
                },
            ),
        ),
        ExprView::Let { bindings, body, .. } => walk(
            *body,
            fn_name,
            walk_pairs(bindings, 0, fn_name, acc),
        ),
        ExprView::If { cond, then_branch, else_branch, .. } => walk(
            *else_branch,
            fn_name,
            walk(*then_branch, fn_name, walk(*cond, fn_name, acc)),
        ),
        ExprView::Call { args, .. } => walk_exprs(args, 0, fn_name, acc),
        ExprView::Success(inner, _) => walk(*inner, fn_name, acc),
        ExprView::Failure { payload, .. } => walk(*payload, fn_name, acc),
        ExprView::FieldAccess { expr, .. } => walk(*expr, fn_name, acc),
        ExprView::MapLit(entries, _) => walk_pairs(entries, 0, fn_name, acc),
        _ => acc,
    }
}

pub open spec fn walk_exprs(
    es: Seq<ExprView>,
    i: int,
    fn_name: Seq<char>,
    acc: Seq<DiagnosticView>,
) -> Seq<DiagnosticView>
    decreases es, left(es.len(), i),
{
    if 0 <= i < es.len() {
        walk_exprs(es, i + 1, fn_name, walk(es[i], fn_name, acc))
    } else {
        acc
    }
}

pub open spec fn walk_pairs(
    ps: Seq<(Seq<char>, ExprView)>,
    i: int,
    fn_name: Seq<char>,
    acc: Seq<DiagnosticView>,
) -> Seq<DiagnosticView>
    decreases ps, left(ps.len(), i),
{
    if 0 <= i < ps.len() {
        walk_pairs(ps, i + 1, fn_name, walk(ps[i].1, fn_name, acc))
    } else {
        acc
    }
}

pub open spec fn walk_arms(
    arms: Seq<MatchArmView>,
    i: int,
    fn_name: Seq<char>,
    acc: Seq<DiagnosticView>,
) -> Seq<DiagnosticView>
    decreases arms, left(arms.len(), i),
{
    if 0 <= i < arms.len() {
        walk_arms(arms, i + 1, fn_name, walk(arms[i].body, fn_name, acc))
    } else {
        acc
    }
}

/// The warnings of the functions from `i` on, appended to `acc`; only
/// functions marked total are looked at.
pub open spec fn totality_diags(fns: Seq<FnDefView>, i: int, acc: Seq<DiagnosticView>) -> Seq<
    DiagnosticView,
>
    decreases left(fns.len(), i),
{
    if 0 <= i < fns.len() {
        totality_diags(
            fns,
            i + 1,
            if fns[i].total {
                walk(fns[i].body, fns[i].name, acc)
            } else {
                acc
            },
        )
    } else {
        acc
    }
}

pub open spec fn check_totality_spec(m: ModuleView) -> Seq<DiagnosticView> {
    totality_diags(m.functions, 0, Seq::empty())
}

/// Whether every diagnostic is a warning.
pub open spec fn only_warnings(ds: Seq<DiagnosticView>) -> bool {
    forall|i: int| 0 <= i < ds.len() ==> (#[trigger] ds[i]).kind is Warning
}

fn is_catch_all(pattern: &Pattern) -> (r: bool)
    ensures
        r == catch_all(pattern@),
{
    match pattern {
        Pattern::Wildcard(_) => true,
        Pattern::Var(_, _) => true,
        _ => false,
    }
}

fn tag_of(pattern: &Pattern) -> (r: Option<&str>)
    ensures
        match r {
            Some(t) => pattern_tag(pattern@) == Some(t@),
            None => pattern_tag(pattern@).is_none(),
        },
{
    match pattern {
        Pattern::Constructor { name, .. } => Some(name.as_str()),
        Pattern::Keyword(kw, _) => Some(kw.as_str()),
        _ => None,
    }
}

/// The warning for the match with these arms, if it draws one.
fn check_arms(arms: &Vec<MatchArm>, span: &Span, fn_name: &str) -> (r: Option<Diagnostic>)
    ensures
        match r {
            Some(d) => suspicious(arms_view(arms@)) && d@ == match_warning(
                fn_name@,
                arms_view(arms@),
                *span,
            ),
            None => !suspicious(arms_view(arms@)),
        },
{
    let ghost vs = arms_view(arms@);
    let mut has_wildcard = false;
    let mut tags: Vec<String> = Vec::new();
    let mut i: usize = 0;
    while i < arms.len()
        invariant
            i <= arms.len(),
            has_wildcard == any_catch_all(vs, i as int),
            tags_of(vs, i as int, strs_view(tags@)) == tags_of(vs, 0, Seq::empty()),
        decreases arms.len() - i,
    {
        if is_catch_all(&arms[i].pattern) {
            has_wildcard = true;
        }
        if let Some(t) = tag_of(&arms[i].pattern) {
            tags.push(owned(t));
        }
        i += 1;
    }
    let ghost ts = strs_view(tags@);
    let mut ok = false;
    let mut other = false;
    let mut j: usize = 0;
    while j < tags.len()
        invariant
            j <= tags.len(),
            ok == has_ok(ts, j as int),
            other == has_other(ts, j as int),
        decreases tags.len() - j,
    {
        if str_eq(tags[j].as_str(), "ok") {
            ok = true;
        } else {
            other = true;
        }
        j += 1;
    }
    if has_wildcard || tags.len() == 0 || (ok && other) {
        return None;
    }
    let mut msg = String::from_str("match in '");
    msg.append(fn_name);
    msg.append("' may not be exhaustive: matched ");
    assert(strs_view(tags@) =~= Seq::new(tags@.len(), |i: int| tags@[i]@));
    push_debug_list(&mut msg, &tags);
    Some(Diagnostic::warning(msg, Some(Span::new(span.start, span.end))))
}

fn check_expr_totality(expr: &Expr, fn_name: &str, diagnostics: &mut Vec<Diagnostic>)
    ensures
        diags_view(final(diagnostics)@) == walk(expr@, fn_name@, diags_view(old(diagnostics)@)),
    decreases expr,
{
    broadcast use crate::diagnostics::lemma_diags_view_push;

    match expr {
        Expr::Match { expr: scrutinee, arms, span } => {
            if let Some(d) = check_arms(arms, span, fn_name) {
                diagnostics.push(d);
            }
            check_expr_totality(scrutinee, fn_name, diagnostics);
            let ghost vs = arms_view(arms@);
            let ghost start = diags_view(diagnostics@);
            let mut i: usize = 0;
            while i < arms.len()
                invariant
                    walk_arms(vs, i as int, fn_name@, diags_view(diagnostics@)) == walk_arms(
                        vs,
                        0,
                        fn_name@,
                        start,
                    ),
                decreases arms.len() - i,
            {
                check_expr_totality(&arms[i].body, fn_name, diagnostics);
                i += 1;
            }
        },
        Expr::Let { bindings, body, .. } => {
            check_pairs(bindings, fn_name, diagnostics);
            check_expr_totality(body, fn_name, diagnostics);
        },
        Expr::If { cond, then_branch, else_branch, .. } => {
            check_expr_totality(cond, fn_name, diagnostics);
            check_expr_totality(then_branch, fn_name, diagnostics);
            check_expr_totality(else_branch, fn_name, diagnostics);
        },
        Expr::Call { args, .. } => {
            let ghost vs = exprs_view(args@);
            let ghost start = diags_view(diagnostics@);
            let mut i: usize = 0;
            while i < args.len()
                invariant
                    walk_exprs(vs, i as int, fn_name@, diags_view(diagnostics@)) == walk_exprs(
                        vs,
                        0,
                        fn_name@,
                        start,
                    ),
                decreases args.len() - i,
            {
                check_expr_totality(&args[i], fn_name, diagnostics);
                i += 1;
            }
        },
        Expr::Success(inner, _) => {
            check_expr_totality(inner, fn_name, diagnostics);
        },
        Expr::Failure { payload, .. } => {
            check_expr_totality(payload, fn_name, diagnostics);
        },
        Expr::FieldAccess { expr: inner, .. } => {
            check_expr_totality(inner, fn_name, diagnostics);
        },
        Expr::MapLit(entries, _) => {
            check_pairs(entries, fn_name, diagnostics);
        },
        _ => {},
    }
}

fn check_pairs(pairs: &Vec<(String, Expr)>, fn_name: &str, diagnostics: &mut Vec<Diagnostic>)
    ensures
        diags_view(final(diagnostics)@) == walk_pairs(
            bindings_view(pairs@),
            0,
            fn_name@,
            diags_view(old(diagnostics)@),
        ),
    decreases pairs,
{
    let ghost vs = bindings_view(pairs@);
    let mut i: usize = 0;
    while i < pairs.len()
        invariant
            walk_pairs(vs, i as int, fn_name@, diags_view(diagnostics@)) == walk_pairs(
                vs,
                0,
                fn_name@,
                diags_view(old(diagnostics)@),
            ),
        decreases pairs.len() - i,
    {
        check_expr_totality(&pairs[i].1, fn_name, diagnostics);
        i += 1;
    }
}

/// Checks the matches of every function marked total: a match without a
/// catch-all arm draws a warning unless its arms hold both an `ok` tag and
/// a tag other than `ok`.
pub fn check_totality(module: &Module) -> (diagnostics: Vec<Diagnostic>)
    ensures
        diags_view(diagnostics@) == check_totality_spec(module@),
{
    let mut diagnostics: Vec<Diagnostic> = Vec::new();
    assert(diags_view(diagnostics@) =~= Seq::empty());
    let ghost fns = fndefs_view(module.functions@);
    let mut i: usize = 0;
    while i < module.functions.len()
        invariant
            totality_diags(fns, i as int, diags_view(diagnostics@)) == totality_diags(
                fns,
                0,
                Seq::empty(),
            ),
        decreases module.functions.len() - i,
    {
        let func = &module.functions[i];
        if func.total {
            check_expr_totality(&func.body, func.name.as_str(), &mut diagnostics);
        }
        i += 1;
    }
    diagnostics
}


proof fn lemma_walk_warnings(e: ExprView, fn_name: Seq<char>, acc: Seq<DiagnosticView>)
    requires
        only_warnings(acc),
    ensures
        only_warnings(walk(e, fn_name, acc)),
    decreases e, 0nat,
{
    match e {
        ExprView::Match { expr, arms, span } => {
            let first = if suspicious(arms) {
                acc.push(match_warning(fn_name, arms, span))
            } else {
                acc
            };
            lemma_walk_warnings(*expr, fn_name, first);
            lemma_walk_arms_warnings(arms, 0, fn_name, walk(*expr, fn_name, first));
        },
        ExprView::Let { bindings, body, .. } => {
            lemma_walk_pairs_warnings(bindings, 0, fn_name, acc);
            lemma_walk_warnings(*body, fn_name, walk_pairs(bindings, 0, fn_name, acc));
        },
        ExprView::If { cond, then_branch, else_branch, .. } => {
            lemma_walk_warnings(*cond, fn_name, acc);
            lemma_walk_warnings(*then_branch, fn_name, walk(*cond, fn_name, acc));
            lemma_walk_warnings(
                *else_branch,
                fn_name,
                walk(*then_branch, fn_name, walk(*cond, fn_name, acc)),
            );
        },
        ExprView::Call { args, .. } => {
            lemma_walk_exprs_warnings(args, 0, fn_name, acc);
        },
        ExprView::Success(inner, _) => {
            lemma_walk_warnings(*inner, fn_name, acc);
        },
        ExprView::Failure { payload, .. } => {
            lemma_walk_warnings(*payload, fn_name, acc);
        },
        ExprView::FieldAccess { expr, .. } => {
            lemma_walk_warnings(*expr, fn_name, acc);
        },
        ExprView::MapLit(entries, _) => {
            lemma_walk_pairs_warnings(entries, 0, fn_name, acc);
        },
        _ => {},
    }
}

proof fn lemma_walk_exprs_warnings(
    es: Seq<ExprView>,
    i: int,
    fn_name: Seq<char>,
    acc: Seq<DiagnosticView>,
)
    requires
        only_warnings(acc),
    ensures
        only_warnings(walk_exprs(es, i, fn_name, acc)),
    decreases es, left(es.len(), i),
{
    if 0 <= i < es.len() {
        lemma_walk_warnings(es[i], fn_name, acc);
        lemma_walk_exprs_warnings(es, i + 1, fn_name, walk(es[i], fn_name, acc));
    }
}

proof fn lemma_walk_pairs_warnings(
    ps: Seq<(Seq<char>, ExprView)>,
    i: int,
    fn_name: Seq<char>,
    acc: Seq<DiagnosticView>,
)
    requires
        only_warnings(acc),
    ensures
        only_warnings(walk_pairs(ps, i, fn_name, acc)),
    decreases ps, left(ps.len(), i),
{
    if 0 <= i < ps.len() {
        lemma_walk_warnings(ps[i].1, fn_name, acc);
        lemma_walk_pairs_warnings(ps, i + 1, fn_name, walk(ps[i].1, fn_name, acc));
    }
}

proof fn lemma_walk_arms_warnings(
    arms: Seq<MatchArmView>,
    i: int,
    fn_name: Seq<char>,
    acc: Seq<DiagnosticView>,
)
    requires
        only_warnings(acc),
    ensures
        only_warnings(walk_arms(arms, i, fn_name, acc)),
    decreases arms, left(arms.len(), i),
{
    if 0 <= i < arms.len() {
        lemma_walk_warnings(arms[i].body, fn_name, acc);
        lemma_walk_arms_warnings(arms, i + 1, fn_name, walk(arms[i].body, fn_name, acc));
    }
}

proof fn lemma_totality_diags_warnings(fns: Seq<FnDefView>, i: int, acc: Seq<DiagnosticView>)
    requires
        only_warnings(acc),
    ensures
        only_warnings(totality_diags(fns, i, acc)),
    decreases left(fns.len(), i),
{
    if 0 <= i < fns.len() {
        if fns[i].total {
            lemma_walk_warnings(fns[i].body, fns[i].name, acc);
        }
        lemma_totality_diags_warnings(
            fns,
            i + 1,
            if fns[i].total {
                walk(fns[i].body, fns[i].name, acc)
            } else {
                acc
            },
        );
    }
}

/// The totality pass raises warnings, never errors.
pub proof fn lemma_totality_only_warns(m: ModuleView)
    ensures
        only_warnings(check_totality_spec(m)),
{
    lemma_totality_diags_warnings(m.functions, 0, Seq::empty());
}

} // verus!
