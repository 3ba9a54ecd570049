//! Trees that fit a form, and when lowering a tree succeeds.
//!
//! A tree fits a form where it has the shape of the form, whatever its
//! spans are. The lemmas here tell what a tree that fits a form holds, and
//! give, for each kind of expression, pattern and type, what makes its
//! lowering succeed.

use vstd::prelude::*;
use crate::layout::{pairs, plain_map};
use crate::lower::{span_of, sym_of, kw_of, name_of, lower_expr_spec, lower_exprs,
    lower_map_entries, lower_access_spec, lower_let_spec, lower_bindings, lower_match_spec,
    lower_arms, lower_if_spec, lower_pattern_spec, lower_patterns, lower_type_spec,
    lower_type_fields};
use crate::parser::{AtomView, SExprKindView, SExprView};
use crate::ast::{ExprView, PatternView, MatchArmView, TypeView};
use crate::lexer::Span;
use crate::reading::{Form, to_shape, to_shapes, to_pair_shapes};
use crate::roundtrip::{shape, shapes, pair_shapes};

verus! {

/// Whether a tree has the shape of a form.
pub open spec fn fits(e: SExprView, f: Form) -> bool {
    shape(e) == to_shape(f)
}

/// Whether each tree has the shape of the form at its place.
pub open spec fn fit_all(items: Seq<SExprView>, fs: Seq<Form>) -> bool {
    items.len() == fs.len() && forall|k: int|
        0 <= k < fs.len() ==> fits(#[trigger] items[k], fs[k])
}

pub proof fn lemma_fits_atom(e: SExprView, a: AtomView)
    requires
        fits(e, Form::Atom(a)),
    ensures
        e.kind == SExprKindView::Atom(a),
{
}

pub proof fn lemma_fits_list(e: SExprView, fs: Seq<Form>)
    requires
        fits(e, Form::List(fs)),
    ensures
        e.kind is List,
        fit_all(e.kind->List_0, fs),
{
    let items = e.kind->List_0;
    assert(shapes(items) == to_shapes(fs));
    assert forall|k: int| 0 <= k < fs.len() implies fits(#[trigger] items[k], fs[k]) by {
        assert(shapes(items)[k] == shape(items[k]));
        assert(to_shapes(fs)[k] == to_shape(fs[k]));
    }
}

pub proof fn lemma_fits_vector(e: SExprView, fs: Seq<Form>)
    requires
        fits(e, Form::Vector(fs)),
    ensures
        e.kind is Vector,
        fit_all(e.kind->Vector_0, fs),
{
    let items = e.kind->Vector_0;
    assert(shapes(items) == to_shapes(fs));
    assert forall|k: int| 0 <= k < fs.len() implies fits(#[trigger] items[k], fs[k]) by {
        assert(shapes(items)[k] == shape(items[k]));
        assert(to_shapes(fs)[k] == to_shape(fs[k]));
    }
}

/// A tree that fits a map holds one entry for each entry of the map.
pub proof fn lemma_fits_entries(e: SExprView, fs: Seq<(Form, Form)>)
    requires
        fits(e, Form::Mapping(fs)) || fits(e, Form::Record(fs)),
    ensures
        e.kind is Mapping,
        e.kind->Mapping_0.len() == fs.len(),
        forall|k: int|
            0 <= k < fs.len() ==> fits((#[trigger] e.kind->Mapping_0[k]).0, fs[k].0) && fits(
                e.kind->Mapping_0[k].1,
                fs[k].1,
            ),
{
    let es = e.kind->Mapping_0;
    assert(pair_shapes(es) == to_pair_shapes(fs));
    assert forall|k: int| 0 <= k < fs.len() implies fits((#[trigger] es[k]).0, fs[k].0) && fits(
        es[k].1,
        fs[k].1,
    ) by {
        assert(pair_shapes(es)[k] == (shape(es[k].0), shape(es[k].1)));
        assert(to_pair_shapes(fs)[k] == (to_shape(fs[k].0), to_shape(fs[k].1)));
    }
}

/// A tree that fits a plain map holds the keys and values of the map in turn.
pub proof fn lemma_fits_map(e: SExprView, items: Seq<Form>)
    requires
        fits(e, plain_map(items)),
        items.len() % 2 == 0,
    ensures
        e.kind is Mapping,
        e.kind->Mapping_0.len() == items.len() / 2,
        forall|k: int|
            0 <= k < items.len() / 2 ==> fits((#[trigger] e.kind->Mapping_0[k]).0, items[2 * k])
                && fits(e.kind->Mapping_0[k].1, items[2 * k + 1]),
{
    lemma_fits_entries(e, pairs(items));
    let es = e.kind->Mapping_0;
    assert forall|k: int| 0 <= k < items.len() / 2 implies fits(
        (#[trigger] es[k]).0,
        items[2 * k],
    ) && fits(es[k].1, items[2 * k + 1]) by {
        assert(pairs(items)[k] == (items[2 * k], items[2 * k + 1]));
    }
}

// ---------------------------------------------------------------------------
// Expressions
// ---------------------------------------------------------------------------

/// Whether lowering a tree as an expression succeeds.
pub open spec fn expr_ok(e: SExprView) -> bool {
    lower_expr_spec(e) is Ok
}

/// Whether lowering a tree as a pattern succeeds.
pub open spec fn pattern_ok(e: SExprView) -> bool {
    lower_pattern_spec(e) is Ok
}

/// Whether lowering a tree as a type succeeds.
pub open spec fn type_ok(e: SExprView) -> bool {
    lower_type_spec(e) is Ok
}

/// Whether a head makes an expression something else than a call.
pub open spec fn special_head(h: Seq<char>) -> bool {
    h == "let"@ || h == "match"@ || h == "if"@ || h == "."@ || h == "ok"@ || h == "err"@
}

pub open spec fn plain_atom(a: AtomView) -> bool {
    a is Symbol || a is Keyword || a is StringLit || a is IntLit || a is BoolLit
}

pub proof fn lemma_atom_ok(e: SExprView, a: AtomView)
    requires
        e.kind == SExprKindView::Atom(a),
        plain_atom(a),
    ensures
        expr_ok(e),
{
}

pub open spec fn exprs_ok(items: Seq<SExprView>, i: int) -> bool {
    forall|k: int| i <= k < items.len() ==> expr_ok(#[trigger] items[k])
}

pub proof fn lemma_exprs_ok(items: Seq<SExprView>, i: int, acc: Seq<ExprView>)
    requires
        0 <= i,
        exprs_ok(items, i),
    ensures
        lower_exprs(items, i, acc) is Ok,
    decreases items.len() - i,
{
    if i < items.len() {
        assert(expr_ok(items[i]));
        lemma_exprs_ok(items, i + 1, acc.push(lower_expr_spec(items[i])->Ok_0));
    }
}

pub proof fn lemma_call_ok(e: SExprView, h: Seq<char>)
    requires
        e.kind is List,
        e.kind->List_0.len() > 0,
        sym_of(e.kind->List_0[0]) == Some(h),
        !special_head(h),
        exprs_ok(e.kind->List_0, 1),
    ensures
        expr_ok(e),
{
    lemma_exprs_ok(e.kind->List_0, 1, Seq::empty());
}

/// The heads of the special forms differ from one another.
pub proof fn lemma_heads()
    ensures
        "match"@ != "let"@,
        "if"@ != "let"@,
        "if"@ != "match"@,
        "."@ != "let"@,
        "."@ != "match"@,
        "."@ != "if"@,
        "ok"@ != "let"@,
        "ok"@ != "match"@,
        "ok"@ != "if"@,
        "ok"@ != "."@,
        "err"@ != "let"@,
        "err"@ != "match"@,
        "err"@ != "if"@,
        "err"@ != "."@,
        "err"@ != "ok"@,
{
    reveal_strlit("err");
    reveal_strlit("ok");
    reveal_strlit("let");
    reveal_strlit("match");
    reveal_strlit("if");
    reveal_strlit(".");
    assert("ok"@[0] != "if"@[0]);
    assert("err"@[0] != "let"@[0]);
    assert("ok"@.len() == 2);
    assert("if"@.len() == 2);
    assert("let"@.len() == 3);
    assert("err"@.len() == 3);
    assert("match"@.len() == 5);
    assert("."@.len() == 1);
}

pub proof fn lemma_ok_form(e: SExprView)
    requires
        e.kind is List,
        e.kind->List_0.len() > 0,
        sym_of(e.kind->List_0[0]) == Some("ok"@),
        e.kind->List_0.len() > 1 ==> expr_ok(e.kind->List_0[1]),
    ensures
        expr_ok(e),
{
    lemma_heads();
    reveal_strlit("ok");
    reveal_strlit("let");
    reveal_strlit("match");
    reveal_strlit("if");
    reveal_strlit(".");
}

pub proof fn lemma_err_form(e: SExprView)
    requires
        e.kind is List,
        e.kind->List_0.len() > 1,
        sym_of(e.kind->List_0[0]) == Some("err"@),
        kw_of(e.kind->List_0[1]) is Some,
        e.kind->List_0.len() > 2 ==> expr_ok(e.kind->List_0[2]),
    ensures
        expr_ok(e),
{
    lemma_heads();
    reveal_strlit("err");
    reveal_strlit("ok");
    reveal_strlit("let");
    reveal_strlit("match");
    reveal_strlit("if");
    reveal_strlit(".");
}

pub proof fn lemma_access_ok(e: SExprView)
    requires
        e.kind is List,
        e.kind->List_0.len() == 3,
        sym_of(e.kind->List_0[0]) == Some("."@),
        expr_ok(e.kind->List_0[1]),
        sym_of(e.kind->List_0[2]) is Some,
    ensures
        expr_ok(e),
{
    lemma_heads();
    reveal_strlit(".");
    reveal_strlit("let");
    reveal_strlit("match");
    reveal_strlit("if");
    let items = e.kind->List_0;
    assert(lower_access_spec(items, span_of(e)) is Ok);
    assert(lower_expr_spec(e) == lower_access_spec(items, span_of(e)));
}

pub proof fn lemma_if_ok(e: SExprView)
    requires
        e.kind is List,
        e.kind->List_0.len() == 4,
        sym_of(e.kind->List_0[0]) == Some("if"@),
        expr_ok(e.kind->List_0[1]),
        expr_ok(e.kind->List_0[2]),
        expr_ok(e.kind->List_0[3]),
    ensures
        expr_ok(e),
{
    lemma_heads();
    reveal_strlit("if");
    reveal_strlit("let");
    reveal_strlit("match");
    let items = e.kind->List_0;
    assert(lower_if_spec(items, span_of(e)) is Ok);
    assert(lower_expr_spec(e) == lower_if_spec(items, span_of(e)));
}

/// Whether the names and values from `j` on each lower.
pub open spec fn bindings_ok(pairs: Seq<SExprView>, j: int) -> bool {
    forall|k: int|
        j <= k && k + 1 < pairs.len() && (k - j) % 2 == 0 ==> sym_of(#[trigger] pairs[k]) is Some
            && expr_ok(pairs[k + 1])
}

proof fn lemma_bindings_ok(pairs: Seq<SExprView>, j: int, acc: Seq<(Seq<char>, ExprView)>)
    requires
        0 <= j,
        bindings_ok(pairs, j),
    ensures
        lower_bindings(pairs, j, acc) is Ok,
    decreases pairs.len() - j,
{
    if j + 1 < pairs.len() {
        assert(sym_of(pairs[j]) is Some && expr_ok(pairs[j + 1]));
        assert forall|k: int|
            j + 2 <= k && k + 1 < pairs.len() && (k - (j + 2)) % 2 == 0 implies sym_of(
            #[trigger] pairs[k],
        ) is Some && expr_ok(pairs[k + 1]) by {
            assert((k - j) % 2 == 0);
        }
        lemma_bindings_ok(
            pairs,
            j + 2,
            acc.push((sym_of(pairs[j])->Some_0, lower_expr_spec(pairs[j + 1])->Ok_0)),
        );
    }
}

pub proof fn lemma_let_ok(e: SExprView)
    requires
        e.kind is List,
        e.kind->List_0.len() >= 3,
        sym_of(e.kind->List_0[0]) == Some("let"@),
        e.kind->List_0[1].kind is Vector,
        bindings_ok(e.kind->List_0[1].kind->Vector_0, 0),
        expr_ok(e.kind->List_0[2]),
    ensures
        expr_ok(e),
{
    lemma_heads();
    lemma_bindings_ok(e.kind->List_0[1].kind->Vector_0, 0, Seq::empty());
    let items = e.kind->List_0;
    assert(lower_let_spec(items, span_of(e)) is Ok);
    assert(lower_expr_spec(e) == lower_let_spec(items, span_of(e)));
}

/// Whether the patterns and bodies from `j` on each lower.
pub open spec fn arms_ok(items: Seq<SExprView>, j: int) -> bool {
    forall|k: int|
        j <= k && k + 1 < items.len() && (k - j) % 2 == 0 ==> pattern_ok(#[trigger] items[k])
            && expr_ok(items[k + 1])
}

proof fn lemma_arms_ok(items: Seq<SExprView>, j: int, acc: Seq<MatchArmView>)
    requires
        0 <= j,
        arms_ok(items, j),
    ensures
        lower_arms(items, j, acc) is Ok,
    decreases items.len() - j,
{
    if j + 1 < items.len() {
        assert(pattern_ok(items[j]) && expr_ok(items[j + 1]));
        assert forall|k: int|
            j + 2 <= k && k + 1 < items.len() && (k - (j + 2)) % 2 == 0 implies pattern_ok(
            #[trigger] items[k],
        ) && expr_ok(items[k + 1]) by {
            assert((k - j) % 2 == 0);
        }
        lemma_arms_ok(
            items,
            j + 2,
            acc.push(
                MatchArmView {
                    pattern: lower_pattern_spec(items[j])->Ok_0,
                    body: lower_expr_spec(items[j + 1])->Ok_0,
                    span: Span { start: items[j].start as usize, end: items[j + 1].end as usize },
                },
            ),
        );
    }
}

pub proof fn lemma_match_ok(e: SExprView)
    requires
        e.kind is List,
        e.kind->List_0.len() >= 4,
        sym_of(e.kind->List_0[0]) == Some("match"@),
        expr_ok(e.kind->List_0[1]),
        arms_ok(e.kind->List_0, 2),
    ensures
        expr_ok(e),
{
    lemma_heads();
    reveal_strlit("match");
    reveal_strlit("let");
    lemma_arms_ok(e.kind->List_0, 2, Seq::empty());
    let items = e.kind->List_0;
    assert(lower_match_spec(items, span_of(e)) is Ok);
    assert(lower_expr_spec(e) == lower_match_spec(items, span_of(e)));
}

/// Whether each entry from `i` on has a name as its key and a value that
/// lowers.
pub open spec fn entries_ok(es: Seq<(SExprView, SExprView)>, i: int) -> bool {
    forall|k: int|
        i <= k < es.len() ==> name_of((#[trigger] es[k]).0) is Some && expr_ok(es[k].1)
}

proof fn lemma_entries_ok(
    es: Seq<(SExprView, SExprView)>,
    i: int,
    acc: Seq<(Seq<char>, ExprView)>,
)
    requires
        0 <= i,
        entries_ok(es, i),
    ensures
        lower_map_entries(es, i, acc) is Ok,
    decreases es.len() - i,
{
    if i < es.len() {
        assert(name_of(es[i].0) is Some && expr_ok(es[i].1));
        lemma_entries_ok(
            es,
            i + 1,
            acc.push((name_of(es[i].0)->Some_0, lower_expr_spec(es[i].1)->Ok_0)),
        );
    }
}

pub proof fn lemma_map_ok(e: SExprView)
    requires
        e.kind is Mapping,
        entries_ok(e.kind->Mapping_0, 0),
    ensures
        expr_ok(e),
{
    lemma_entries_ok(e.kind->Mapping_0, 0, Seq::empty());
}

// ---------------------------------------------------------------------------
// Patterns
// ---------------------------------------------------------------------------

pub proof fn lemma_pattern_atom(e: SExprView, a: AtomView)
    requires
        e.kind == SExprKindView::Atom(a),
        a is Symbol || a is Keyword,
    ensures
        pattern_ok(e),
{
}

pub open spec fn patterns_ok(items: Seq<SExprView>, i: int) -> bool {
    forall|k: int| i <= k < items.len() ==> pattern_ok(#[trigger] items[k])
}

proof fn lemma_patterns_ok(items: Seq<SExprView>, i: int, acc: Seq<PatternView>)
    requires
        0 <= i,
        patterns_ok(items, i),
    ensures
        lower_patterns(items, i, acc) is Ok,
    decreases items.len() - i,
{
    if i < items.len() {
        assert(pattern_ok(items[i]));
        lemma_patterns_ok(items, i + 1, acc.push(lower_pattern_spec(items[i])->Ok_0));
    }
}

pub proof fn lemma_pattern_ctor(e: SExprView)
    requires
        e.kind is List,
        e.kind->List_0.len() > 0,
        sym_of(e.kind->List_0[0]) is Some,
        patterns_ok(e.kind->List_0, 1),
    ensures
        pattern_ok(e),
{
    lemma_patterns_ok(e.kind->List_0, 1, Seq::empty());
}

// ---------------------------------------------------------------------------
// Types
// ---------------------------------------------------------------------------

pub proof fn lemma_type_named(e: SExprView)
    requires
        e.kind is Atom,
        e.kind->Atom_0 is Symbol,
    ensures
        type_ok(e),
{
}

/// Whether each entry from `i` on has a name as its key and a type as its
/// value.
pub open spec fn fields_ok(es: Seq<(SExprView, SExprView)>, i: int) -> bool {
    forall|k: int|
        i <= k < es.len() ==> name_of((#[trigger] es[k]).0) is Some && type_ok(es[k].1)
}

proof fn lemma_fields_ok(es: Seq<(SExprView, SExprView)>, i: int, acc: Seq<(Seq<char>, TypeView)>)
    requires
        0 <= i,
        fields_ok(es, i),
    ensures
        lower_type_fields(es, i, acc) is Ok,
    decreases es.len() - i,
{
    if i < es.len() {
        assert(name_of(es[i].0) is Some && type_ok(es[i].1));
        lemma_fields_ok(
            es,
            i + 1,
            acc.push((name_of(es[i].0)->Some_0, lower_type_spec(es[i].1)->Ok_0)),
        );
    }
}

pub proof fn lemma_type_map(e: SExprView)
    requires
        e.kind is Mapping,
        fields_ok(e.kind->Mapping_0, 0),
    ensures
        type_ok(e),
{
    lemma_fields_ok(e.kind->Mapping_0, 0, Seq::empty());
}

/// A list with a head that is neither `list` nor `union` is the name of a
/// type.
pub proof fn lemma_type_head(e: SExprView, h: Seq<char>)
    requires
        e.kind is List,
        e.kind->List_0.len() > 0,
        sym_of(e.kind->List_0[0]) == Some(h),
        h != "list"@,
        h != "union"@,
    ensures
        type_ok(e),
{
}

pub proof fn lemma_type_list(e: SExprView)
    requires
        e.kind is List,
        e.kind->List_0.len() > 1,
        sym_of(e.kind->List_0[0]) == Some("list"@),
        type_ok(e.kind->List_0[1]),
    ensures
        type_ok(e),
{
}

} // verus!
