//! Lowering the trees that fit the forms of a generated module: types.

use vstd::prelude::*;
use crate::fitting::{fits, lemma_fits_atom, lemma_fits_list, lemma_type_named};
use crate::generate::pct_emitter::type_text;
use crate::generate::segments::{field_open_inner, type_open_inner};
use crate::generate::spec_ast::{FieldSpecView, DomainTypeView};
use crate::generate::written::{field_items, fields_run, fi2, fi3, fi4, fi5, fi6, ti2, type_items,
    inv_run, rules_text};
use crate::layout::{sym, kw};
use crate::lower::{kw_of, head_of, lower_field_spec, lower_type_def_spec};
use crate::parser::{AtomView, SExprKindView, SExprView};
use crate::ast::TypeDefView;
use crate::reading::Form;

verus! {

/// A form of a list whose first item is the symbol `h`.
pub open spec fn headed(f: Form, h: Seq<char>) -> bool {
    f is List && f->List_0.len() > 0 && f->List_0[0] == sym(h)
}

/// A tree that fits a list with a symbol at its head has that head.
pub proof fn lemma_headed(e: SExprView, f: Form, h: Seq<char>)
    requires
        fits(e, f),
        headed(f, h),
    ensures
        head_of(e) == Some(h),
        kw_of(e) is None,
        e.kind is List,
{
    lemma_fits_list(e, f->List_0);
    lemma_fits_atom(e.kind->List_0[0], AtomView::Symbol(h));
}

/// The form of a field starts with `field`, the name and the type.
pub proof fn lemma_field_head(f: FieldSpecView, store: Seq<char>)
    ensures
        field_items(f, store).len() >= 3,
        field_items(f, store)[0] == sym("field"@),
        field_items(f, store)[1] == sym(f.name),
        field_items(f, store)[2] == sym(type_text(f.field_type)),
{
    let r1 = field_open_inner(f.name, type_text(f.field_type));
    assert(r1.len() == 3 && r1[0] == sym("field"@) && r1[1] == sym(f.name) && r1[2] == sym(
        type_text(f.field_type),
    ));
    let r2 = fi2(f);
    assert(r2.len() >= 3 && r2[0] == r1[0] && r2[1] == r1[1] && r2[2] == r1[2]);
    let r3 = fi3(f);
    assert(r3.len() >= 3 && r3[0] == r1[0] && r3[1] == r1[1] && r3[2] == r1[2]);
    let r4 = fi4(f);
    assert(r4.len() >= 3 && r4[0] == r1[0] && r4[1] == r1[1] && r4[2] == r1[2]);
    let r5 = fi5(f);
    assert(r5.len() >= 3 && r5[0] == r1[0] && r5[1] == r1[1] && r5[2] == r1[2]);
    let r6 = fi6(f);
    assert(r6.len() >= 3 && r6[0] == r1[0] && r6[1] == r1[1] && r6[2] == r1[2]);
}

/// A tree that fits the form of a field lowers to a field.
pub proof fn lemma_field_lowers(e: SExprView, f: FieldSpecView, store: Seq<char>)
    requires
        fits(e, Form::List(field_items(f, store))),
    ensures
        lower_field_spec(e) is Ok,
        head_of(e) == Some("field"@),
        kw_of(e) is None,
{
    lemma_field_head(f, store);
    let fs = field_items(f, store);
    lemma_fits_list(e, fs);
    let items = e.kind->List_0;
    lemma_fits_atom(items[0], AtomView::Symbol("field"@));
    lemma_fits_atom(items[1], AtomView::Symbol(f.name));
    lemma_fits_atom(items[2], AtomView::Symbol(type_text(f.field_type)));
    lemma_type_named(items[2]);
}

/// What the forms of the fields are, one by one.
pub proof fn lemma_fields_elems(a: Seq<Form>, fields: Seq<FieldSpecView>, i: int, store: Seq<char>)
    requires
        0 <= i <= fields.len(),
    ensures
        fields_run(a, fields, i, store).len() == a.len() + fields.len() - i,
        forall|k: int| 0 <= k < a.len() ==> fields_run(a, fields, i, store)[k] == a[k],
        forall|j: int|
            i <= j < fields.len() ==> #[trigger] fields_run(a, fields, i, store)[a.len() + j - i]
                == Form::List(field_items(fields[j], store)),
    decreases fields.len() - i,
{
    if i < fields.len() {
        let next = a.push(Form::List(field_items(fields[i], store)));
        lemma_fields_elems(next, fields, i + 1, store);
        let all = fields_run(a, fields, i, store);
        assert(all == fields_run(next, fields, i + 1, store));
        assert forall|k: int| 0 <= k < a.len() implies all[k] == a[k] by {
            assert(next[k] == a[k]);
        }
        assert forall|j: int| i <= j < fields.len() implies #[trigger] all[a.len() + j - i]
            == Form::List(field_items(fields[j], store)) by {
            if j == i {
                assert(all[a.len() as int] == next[a.len() as int]);
            } else {
                assert(all[next.len() + j - (i + 1)] == Form::List(field_items(fields[j], store)));
            }
        }
    }
}

/// Whether, from `i` on, each keyword has an item behind it and each field
/// lowers.
pub open spec fn type_part_ok(items: Seq<SExprView>, i: int) -> bool {
    forall|j: int|
        i <= j < items.len() ==> (kw_of(#[trigger] items[j]) is Some ==> j + 1 < items.len()) && (
        head_of(items[j]) == Some("field"@) ==> lower_field_spec(items[j]) is Ok)
}

proof fn lemma_type_part(items: Seq<SExprView>, i: int, acc: TypeDefView)
    requires
        0 <= i,
        type_part_ok(items, i),
    ensures
        crate::lower::type_items(items, i, acc) matches Ok(t) && t.name == acc.name,
    decreases items.len() - i,
{
    if i < items.len() {
        assert((kw_of(items[i]) is Some ==> i + 1 < items.len()) && (head_of(items[i]) == Some(
            "field"@,
        ) ==> lower_field_spec(items[i]) is Ok));
        match kw_of(items[i]) {
            Some(k) => {
                if k == "invariants"@ {
                    let next = match items[i + 1].kind {
                        SExprKindView::Vector(inv) => TypeDefView {
                            invariants: crate::lower::invariants_of(inv, 0, acc.invariants),
                            ..acc
                        },
                        _ => acc,
                    };
                    lemma_type_part(items, i + 2, next);
                } else {
                    lemma_type_part(
                        items,
                        i + 2,
                        TypeDefView {
                            extra_meta: crate::lower::with_extra(acc.extra_meta, k, items, i + 1),
                            ..acc
                        },
                    );
                }
            },
            None => {
                if head_of(items[i]) == Some("field"@) {
                    let f = lower_field_spec(items[i])->Ok_0;
                    lemma_type_part(items, i + 1, TypeDefView { fields: acc.fields.push(f), ..acc });
                } else {
                    lemma_type_part(items, i + 1, acc);
                }
            },
        }
    }
}

/// A tree that fits the form of a type lowers to a type.
pub proof fn lemma_type_lowers(e: SExprView, t: DomainTypeView, store: Seq<char>)
    requires
        fits(e, Form::List(type_items(t, store))),
    ensures
        lower_type_def_spec(e) matches Ok(lowered) && lowered.name == t.name,
        head_of(e) == Some("type"@),
        kw_of(e) is None,
{
    let fs = type_items(t, store);
    let head = ti2(t);
    let h = head.len() as int;
    lemma_fields_elems(head, t.fields, 0, store);
    lemma_fits_list(e, fs);
    let items = e.kind->List_0;
    let open = type_open_inner(t.name);
    assert(open.len() == 2 && open[0] == sym("type"@) && open[1] == sym(t.name));
    assert(head.len() >= 2 && head[0] == open[0] && head[1] == open[1]);
    assert(fs[0] == head[0]);
    assert(fs[1] == head[1]);
    lemma_fits_atom(items[0], AtomView::Symbol("type"@));
    lemma_fits_atom(items[1], AtomView::Symbol(t.name));
    assert forall|j: int| 2 <= j < items.len() implies (kw_of(#[trigger] items[j]) is Some ==> j + 1
        < items.len()) && (head_of(items[j]) == Some("field"@) ==> lower_field_spec(items[j])
        is Ok) by {
        if j < h {
            assert(fs[j] == head[j]);
            assert(!rules_text(t).1);
            assert(head.len() == 4);
            if j == 2 {
                assert(head[2] == kw("invariants"@));
                lemma_fits_atom(items[2], AtomView::Keyword("invariants"@));
            } else {
                assert(head[3] == Form::Vector(inv_run(Seq::empty(), t.fields, 0)));
                crate::fitting::lemma_fits_vector(items[3], inv_run(Seq::empty(), t.fields, 0));
            }
        } else {
            let k = j - h;
            assert(fs[h + k - 0] == Form::List(field_items(t.fields[k], store)));
            lemma_field_lowers(items[j], t.fields[k], store);
        }
    }
    lemma_type_part(
        items,
        2,
        TypeDefView {
            name: t.name,
            invariants: Seq::empty(),
            fields: Seq::empty(),
            extra_meta: Seq::empty(),
            span: crate::lower::span_of(e),
        },
    );
}

} // verus!
