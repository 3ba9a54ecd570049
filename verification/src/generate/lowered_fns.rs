//! Lowering the trees that fit the forms of a generated module: functions.

use vstd::prelude::*;
use crate::ast::{ProvenanceView, VariantView};
use crate::fitting::{fits, fit_all, type_ok, expr_ok, lemma_fits_atom, lemma_fits_list,
    lemma_fits_map, lemma_fits_entries, lemma_type_named, lemma_type_map, lemma_type_head,
    lemma_type_list};
use crate::generate::bodies::{idempotency_lowers, read_body_lowers, write_body_field_lowers,
    write_body_plain_lowers};
use crate::generate::pct_emitter::{type_text, slug, by_id, unique_field, store_name, primary_type};
use crate::generate::segments::{fn_open_inner, latency_run, idempotency_run, url_param_run,
    body_open_inner, input_entry_run, returns_open_inner, returns_open_inner2, ok_open_inner,
    err_open_inner, read_body_run, write_body_field_run, write_body_plain_run};
use crate::generate::spec_ast::{FieldSpecView, ConstraintView, SpecDocView, OutputSpecView,
    EndpointView};
use crate::generate::lowered::{headed, lemma_headed};
use crate::generate::written_doc::{fr2, fr3, fr6, fr7, fr8, fn_items};
use crate::generate::written_fns::{budgets_run, keys_run, callers_run, body_param_run, returns_run,
    variants_run, variant_run, entries_run, input_fields, is_input, with_http, payload_run,
    payload_field_of, by_id_payload, by_field_payload, errors_payload, duration_of};
use crate::layout::{sym, kw, quoted, plain_map};
use crate::lower::{FnParts, kw_of, bool_of, name_of, head_of, span_of, fn_keyword, fn_keyword_step,
    fn_form_step, no_fn_parts, lower_fn_spec, lower_param_spec, lower_returns_spec,
    lower_variant_spec, lower_variants, lower_provenance_spec, prov_entries};
use crate::parser::{AtomView, SExprKindView, SExprView};
use crate::reading::Form;
use crate::roundtrip::is_prefix;

verus! {

/// The keywords and heads of a function differ from one another.
pub proof fn lemma_fn_words()
    ensures
        "effects"@ != "provenance"@,
        "total"@ != "provenance"@,
        "total"@ != "effects"@,
        "latency-budget"@ != "provenance"@,
        "latency-budget"@ != "effects"@,
        "latency-budget"@ != "total"@,
        "called-by"@ != "provenance"@,
        "called-by"@ != "effects"@,
        "called-by"@ != "total"@,
        "called-by"@ != "latency-budget"@,
        "idempotency-key"@ != "provenance"@,
        "idempotency-key"@ != "effects"@,
        "idempotency-key"@ != "total"@,
        "idempotency-key"@ != "latency-budget"@,
        "idempotency-key"@ != "called-by"@,
        "returns"@ != "param"@,
        "let"@ != "param"@,
        "let"@ != "returns"@,
        "err"@ != "ok"@,
        "."@ != "list"@,
        "."@ != "union"@,
{
    reveal_strlit("provenance");
    reveal_strlit("effects");
    reveal_strlit("total");
    reveal_strlit("latency-budget");
    reveal_strlit("called-by");
    reveal_strlit("idempotency-key");
    reveal_strlit("returns");
    reveal_strlit("param");
    reveal_strlit("let");
    reveal_strlit("err");
    reveal_strlit("ok");
    reveal_strlit(".");
    reveal_strlit("list");
    reveal_strlit("union");
    assert("effects"@.len() == 7);
    assert("provenance"@.len() == 10);
    assert("total"@.len() == 5);
    assert("latency-budget"@.len() == 14);
    assert("called-by"@.len() == 9);
    assert("idempotency-key"@.len() == 15);
    assert("returns"@.len() == 7);
    assert("param"@.len() == 5);
    assert("let"@.len() == 3);
    assert("err"@.len() == 3);
    assert("ok"@.len() == 2);
    assert("."@.len() == 1);
    assert("list"@.len() == 4);
    assert("union"@.len() == 5);
}

pub proof fn lemma_prefix_chain<T>(a: Seq<T>, b: Seq<T>, c: Seq<T>)
    requires
        is_prefix(a, b),
        is_prefix(b, c),
    ensures
        is_prefix(a, c),
{
    assert forall|j: int| 0 <= j < a.len() implies #[trigger] c[j] == a[j] by {
        assert(b[j] == a[j]);
        assert(c[j] == b[j]);
    }
}

/// Whether the second parts keep what the first hold of the total flag,
/// the returns and the body.
pub open spec fn keeps(a: FnParts, b: FnParts) -> bool {
    b.total == a.total && (b.returns is Some) == (a.returns is Some) && (b.body is Some) == (
    a.body is Some)
}

// ---------------------------------------------------------------------------
// Keywords with their values
// ---------------------------------------------------------------------------

/// Lowering a keyword of a function with its value goes on behind the value.
pub proof fn lemma_low_pair(
    items: Seq<SExprView>,
    fs: Seq<Form>,
    r: Seq<Form>,
    k: Seq<char>,
    v: Form,
    acc: FnParts,
) -> (next: FnParts)
    requires
        fit_all(items, fs),
        is_prefix(r.push(kw(k)).push(v), fs),
        fn_keyword(k),
        k == "provenance"@ ==> lower_provenance_spec(items[r.len() as int + 1]) is Ok,
        k == "idempotency-key"@ ==> expr_ok(items[r.len() as int + 1]),
    ensures
        crate::lower::fn_items(items, r.len() as int, acc) == crate::lower::fn_items(
            items,
            r.len() as int + 2,
            next,
        ),
        is_prefix(r, fs),
        fits(items[r.len() as int + 1], v),
        k != "total"@ ==> keeps(acc, next),
        k == "total"@ ==> next.total == (bool_of(items[r.len() as int + 1]) == Some(true)) && (
        next.returns is Some) == (acc.returns is Some) && (next.body is Some) == (acc.body is Some),
{
    lemma_fn_words();
    let i = r.len() as int;
    let full = r.push(kw(k)).push(v);
    assert(full[i] == kw(k));
    assert(full[i + 1] == v);
    assert(fs[i] == full[i]);
    assert(fs[i + 1] == full[i + 1]);
    assert forall|j: int| 0 <= j < r.len() implies #[trigger] fs[j] == r[j] by {
        assert(full[j] == r[j]);
    }
    lemma_fits_atom(items[i], AtomView::Keyword(k));
    let step = fn_keyword_step(k, items[i + 1], acc);
    assert(step is Ok);
    step->Ok_0
}

proof fn lemma_prov_entries(
    entries: Seq<(SExprView, SExprView)>,
    i: int,
    acc: ProvenanceView,
)
    requires
        0 <= i,
        forall|k: int| i <= k < entries.len() ==> name_of((#[trigger] entries[k]).0) is Some,
    ensures
        prov_entries(entries, i, acc) is Ok,
    decreases entries.len() - i,
{
    if i < entries.len() {
        assert(name_of(entries[i].0) is Some);
        let value = entries[i].1;
        let k = name_of(entries[i].0)->Some_0;
        let next = if k == "req"@ {
            ProvenanceView { req: crate::lower::str_of(value), ..acc }
        } else if k == "author"@ {
            ProvenanceView { author: crate::lower::str_of(value), ..acc }
        } else if k == "created"@ {
            ProvenanceView { created: crate::lower::str_of(value), ..acc }
        } else if k == "test"@ {
            match value.kind {
                SExprKindView::Vector(items) => ProvenanceView {
                    test: crate::lower::strings_of(items, 0, acc.test),
                    ..acc
                },
                _ => acc,
            }
        } else {
            ProvenanceView { extra: acc.extra.push((k, crate::lower::meta_of(value))), ..acc }
        };
        lemma_prov_entries(entries, i + 1, next);
    }
}

/// Whether each key of a record is a symbol.
pub open spec fn named_keys(fs: Seq<(Form, Form)>) -> bool {
    forall|k: int|
        0 <= k < fs.len() ==> (#[trigger] fs[k]).0 is Atom && fs[k].0->Atom_0 is Symbol
}

/// A tree that fits a record with symbols as keys lowers to a provenance.
pub proof fn lemma_prov_lowers(e: SExprView, fs: Seq<(Form, Form)>)
    requires
        fits(e, Form::Record(fs)),
        named_keys(fs),
    ensures
        lower_provenance_spec(e) is Ok,
{
    lemma_fits_entries(e, fs);
    let es = e.kind->Mapping_0;
    assert forall|k: int| 0 <= k < es.len() implies name_of((#[trigger] es[k]).0) is Some by {
        assert(fs[k].0 is Atom && fs[k].0->Atom_0 is Symbol);
        lemma_fits_atom(es[k].0, fs[k].0->Atom_0);
    }
    lemma_prov_entries(
        es,
        0,
        ProvenanceView {
            req: None,
            author: None,
            created: None,
            test: Seq::empty(),
            extra: Seq::empty(),
            span: span_of(e),
        },
    );
}

// ---------------------------------------------------------------------------
// Latency budgets and idempotency keys
// ---------------------------------------------------------------------------

pub proof fn lemma_budgets_extend(r: Seq<Form>, cs: Seq<ConstraintView>, i: int)
    requires
        0 <= i <= cs.len(),
    ensures
        is_prefix(r, budgets_run(r, cs, i)),
    decreases cs.len() - i,
{
    if i < cs.len() {
        let next = match cs[i] {
            ConstraintView::MaxResponseTime(t) => latency_run(r, duration_of(t).0, duration_of(t).1),
            _ => r,
        };
        lemma_budgets_extend(next, cs, i + 1);
        assert(is_prefix(r, next));
        lemma_prefix_chain(r, next, budgets_run(next, cs, i + 1));
    }
}

pub proof fn lemma_low_budgets(
    items: Seq<SExprView>,
    fs: Seq<Form>,
    r: Seq<Form>,
    cs: Seq<ConstraintView>,
    i: int,
    acc: FnParts,
) -> (next: FnParts)
    requires
        0 <= i <= cs.len(),
        fit_all(items, fs),
        is_prefix(budgets_run(r, cs, i), fs),
    ensures
        crate::lower::fn_items(items, r.len() as int, acc) == crate::lower::fn_items(
            items,
            budgets_run(r, cs, i).len() as int,
            next,
        ),
        keeps(acc, next),
        is_prefix(r, fs),
    decreases cs.len() - i,
{
    lemma_fn_words();
    if i < cs.len() {
        if let ConstraintView::MaxResponseTime(t) = cs[i] {
            let d = duration_of(t);
            let after = latency_run(r, d.0, d.1);
            lemma_budgets_extend(after, cs, i + 1);
            lemma_prefix_chain(after, budgets_run(after, cs, i + 1), fs);
            let mid = lemma_low_pair(
                items,
                fs,
                r,
                "latency-budget"@,
                Form::Atom(AtomView::DurationLit(d.0 as u64, d.1)),
                acc,
            );
            lemma_low_budgets(items, fs, after, cs, i + 1, mid)
        } else {
            lemma_low_budgets(items, fs, r, cs, i + 1, acc)
        }
    } else {
        acc
    }
}

pub proof fn lemma_keys_extend(r: Seq<Form>, cs: Seq<ConstraintView>, i: int)
    requires
        0 <= i <= cs.len(),
    ensures
        is_prefix(r, keys_run(r, cs, i)),
    decreases cs.len() - i,
{
    if i < cs.len() {
        let next = match cs[i] {
            ConstraintView::Idempotent(field) => idempotency_run(r, field),
            _ => r,
        };
        lemma_keys_extend(next, cs, i + 1);
        assert(is_prefix(r, next));
        lemma_prefix_chain(r, next, keys_run(next, cs, i + 1));
    }
}

pub proof fn lemma_low_keys(
    items: Seq<SExprView>,
    fs: Seq<Form>,
    r: Seq<Form>,
    cs: Seq<ConstraintView>,
    i: int,
    acc: FnParts,
) -> (next: FnParts)
    requires
        0 <= i <= cs.len(),
        fit_all(items, fs),
        is_prefix(keys_run(r, cs, i), fs),
    ensures
        crate::lower::fn_items(items, r.len() as int, acc) == crate::lower::fn_items(
            items,
            keys_run(r, cs, i).len() as int,
            next,
        ),
        keeps(acc, next),
        is_prefix(r, fs),
    decreases cs.len() - i,
{
    lemma_fn_words();
    if i < cs.len() {
        if let ConstraintView::Idempotent(field) = cs[i] {
            let after = idempotency_run(r, field);
            lemma_keys_extend(after, cs, i + 1);
            lemma_prefix_chain(after, keys_run(after, cs, i + 1), fs);
            let n = r.len() as int;
            assert(after[n + 1] == fs[n + 1]);
            assert(fits(items[n + 1], after[n + 1]));
            idempotency_lowers(items[n + 1], field);
            let mid = lemma_low_pair(items, fs, r, "idempotency-key"@, after[n + 1], acc);
            lemma_low_keys(items, fs, after, cs, i + 1, mid)
        } else {
            lemma_low_keys(items, fs, r, cs, i + 1, acc)
        }
    } else {
        acc
    }
}

// ---------------------------------------------------------------------------
// Forms of a function
// ---------------------------------------------------------------------------

/// Lowering a form of a function goes on behind the form.
pub proof fn lemma_low_form(
    items: Seq<SExprView>,
    fs: Seq<Form>,
    r: Seq<Form>,
    f: Form,
    h: Seq<char>,
    acc: FnParts,
) -> (next: FnParts)
    requires
        fit_all(items, fs),
        is_prefix(r.push(f), fs),
        headed(f, h),
        fits(items[r.len() as int], f) ==> fn_form_step(h, items[r.len() as int], acc) is Ok,
    ensures
        crate::lower::fn_items(items, r.len() as int, acc) == crate::lower::fn_items(
            items,
            r.len() as int + 1,
            next,
        ),
        next == fn_form_step(h, items[r.len() as int], acc)->Ok_0,
        is_prefix(r, fs),
{
    let i = r.len() as int;
    let full = r.push(f);
    assert(full[i] == f);
    assert(fs[i] == full[i]);
    assert forall|j: int| 0 <= j < r.len() implies #[trigger] fs[j] == r[j] by {
        assert(full[j] == r[j]);
    }
    lemma_headed(items[i], f, h);
    fn_form_step(h, items[i], acc)->Ok_0
}

/// The form of the parameter of a function that reads by identifier.
pub open spec fn url_param_form() -> Form {
    url_param_run(Seq::empty())[0]
}

/// A tree that fits the parameter of a function that reads by identifier
/// lowers to a parameter.
pub proof fn lemma_url_param_lowers(e: SExprView)
    requires
        fits(e, url_param_form()),
    ensures
        lower_param_spec(e) is Ok,
{
    let fs = url_param_form()->List_0;
    lemma_fits_list(e, fs);
    let items = e.kind->List_0;
    lemma_fits_atom(items[1], AtomView::Symbol("id"@));
    lemma_fits_atom(items[2], AtomView::Symbol("UUID"@));
    lemma_type_named(items[2]);
}

/// Whether a run holds keywords and symbols in turn.
pub open spec fn keyed(r: Seq<Form>) -> bool {
    &&& r.len() % 2 == 0
    &&& forall|k: int|
        0 <= k < r.len() ==> (#[trigger] r[k]) is Atom && (k % 2 == 0 ==> r[k]->Atom_0 is Keyword)
            && (k % 2 == 1 ==> r[k]->Atom_0 is Symbol)
}

proof fn lemma_entries_keyed(r: Seq<Form>, fields: Seq<FieldSpecView>, i: int)
    requires
        0 <= i <= fields.len(),
        keyed(r),
    ensures
        keyed(entries_run(r, fields, i)),
    decreases fields.len() - i,
{
    if i < fields.len() {
        let f = fields[i];
        if is_input(f) {
            let next = input_entry_run(r, f.name, type_text(f.field_type));
            assert forall|k: int| 0 <= k < next.len() implies (#[trigger] next[k]) is Atom && (k % 2
                == 0 ==> next[k]->Atom_0 is Keyword) && (k % 2 == 1 ==> next[k]->Atom_0 is Symbol) by {
                if k < r.len() {
                    assert(next[k] == r[k]);
                }
            }
            lemma_entries_keyed(next, fields, i + 1);
        } else {
            lemma_entries_keyed(r, fields, i + 1);
        }
    }
}

/// The form of the parameter of a function that takes a body.
pub open spec fn body_param_form(d: SpecDocView) -> Form {
    body_param_run(Seq::empty(), d)[0]
}

/// A tree that fits the parameter of a function that takes a body lowers to
/// a parameter.
pub proof fn lemma_body_param_lowers(e: SExprView, d: SpecDocView)
    requires
        fits(e, body_param_form(d)),
    ensures
        lower_param_spec(e) is Ok,
        headed(body_param_form(d), "param"@),
{
    let entries = entries_run(Seq::empty(), input_fields(d), 0);
    let head = body_open_inner().push(plain_map(entries));
    let fs = body_param_form(d)->List_0;
    assert(fs[0] == head[0]);
    assert(fs[1] == head[1]);
    assert(fs[2] == head[2]);
    lemma_fits_list(e, fs);
    let items = e.kind->List_0;
    lemma_fits_atom(items[1], AtomView::Symbol("input"@));
    assert(keyed(Seq::<Form>::empty()));
    lemma_entries_keyed(Seq::empty(), input_fields(d), 0);
    lemma_fits_map(items[2], entries);
    let es = items[2].kind->Mapping_0;
    assert forall|k: int| 0 <= k < es.len() implies name_of((#[trigger] es[k]).0) is Some && type_ok(
        es[k].1,
    ) by {
        assert(entries[2 * k] is Atom && entries[2 * k]->Atom_0 is Keyword);
        assert(entries[2 * k + 1] is Atom && entries[2 * k + 1]->Atom_0 is Symbol);
        lemma_fits_atom(es[k].0, entries[2 * k]->Atom_0);
        lemma_fits_atom(es[k].1, entries[2 * k + 1]->Atom_0);
        lemma_type_named(es[k].1);
    }
    lemma_type_map(items[2]);
}

// ---------------------------------------------------------------------------
// Returns
// ---------------------------------------------------------------------------

/// The form of the variant for an output.
pub open spec fn variant_form(o: OutputSpecView, primary: Seq<char>) -> Form {
    variant_run(Seq::empty(), o, primary)[0]
}

pub proof fn lemma_variant_push(a: Seq<Form>, o: OutputSpecView, primary: Seq<char>)
    ensures
        variant_run(a, o, primary) == a.push(variant_form(o, primary)),
        variant_form(o, primary) is List,
{
}

proof fn lemma_payload_lowers(e: SExprView, r: Seq<Form>, tag: Seq<char>)
    requires
        fits(e, payload_run(r, tag)[r.len() as int]),
    ensures
        type_ok(e),
        kw_of(e) is None,
{
    lemma_fn_words();
    if by_id_payload(tag) {
        let inner = Seq::<Form>::empty().push(kw("id"@)).push(sym("id"@));
        lemma_fits_map(e, inner);
        let es = e.kind->Mapping_0;
        assert forall|k: int| 0 <= k < es.len() implies name_of((#[trigger] es[k]).0) is Some
            && type_ok(es[k].1) by {
            lemma_fits_atom(es[k].0, AtomView::Keyword("id"@));
            lemma_fits_atom(es[k].1, AtomView::Symbol("id"@));
            lemma_type_named(es[k].1);
        }
        lemma_type_map(e);
    } else if by_field_payload(tag) {
        let field = payload_field_of(tag);
        let access = Seq::<Form>::empty().push(sym("."@)).push(sym("input"@)).push(sym(field));
        let inner = Seq::<Form>::empty().push(kw(field)).push(Form::List(access));
        lemma_fits_map(e, inner);
        let es = e.kind->Mapping_0;
        assert forall|k: int| 0 <= k < es.len() implies name_of((#[trigger] es[k]).0) is Some
            && type_ok(es[k].1) by {
            lemma_fits_atom(es[k].0, AtomView::Keyword(field));
            lemma_fits_list(es[k].1, access);
            lemma_fits_atom(es[k].1.kind->List_0[0], AtomView::Symbol("."@));
            lemma_type_head(es[k].1, "."@);
        }
        lemma_type_map(e);
    } else if errors_payload(tag) {
        let inner = Seq::<Form>::empty().push(sym("list"@)).push(sym("ValidationError"@));
        lemma_fits_list(e, inner);
        let items = e.kind->List_0;
        lemma_fits_atom(items[0], AtomView::Symbol("list"@));
        lemma_fits_atom(items[1], AtomView::Symbol("ValidationError"@));
        lemma_type_named(items[1]);
        lemma_type_list(e);
    } else {
        lemma_fits_map(e, Seq::<Form>::empty());
        lemma_type_map(e);
    }
}

/// A tree that fits the form of a variant lowers to a variant.
pub proof fn lemma_variant_lowers(e: SExprView, o: OutputSpecView, primary: Seq<char>)
    requires
        fits(e, variant_form(o, primary)),
    ensures
        lower_variant_spec(e) is Ok,
{
    lemma_fn_words();
    let fs = variant_form(o, primary)->List_0;
    lemma_fits_list(e, fs);
    let items = e.kind->List_0;
    if o.is_success {
        let head = ok_open_inner(primary);
        let mid = with_http(head, o.http_status);
        assert(mid[0] == head[0] && mid[1] == head[1]);
        assert(fs[0] == mid[0] && fs[1] == mid[1]);
        lemma_fits_atom(items[0], AtomView::Symbol("ok"@));
        lemma_fits_atom(items[1], AtomView::Symbol(primary));
        lemma_type_named(items[1]);
    } else {
        let tag = slug(o.label);
        let head = err_open_inner(tag);
        let mid = payload_run(head, tag);
        assert(mid.len() == 3 && mid[0] == head[0] && mid[1] == head[1]);
        let all = with_http(mid, o.http_status);
        assert(all[0] == mid[0] && all[1] == mid[1] && all[2] == mid[2]);
        lemma_fits_atom(items[0], AtomView::Symbol("err"@));
        lemma_fits_atom(items[1], AtomView::Keyword(tag));
        lemma_payload_lowers(items[2], head, tag);
    }
}

/// What the forms of the variants are, one by one.
pub proof fn lemma_variants_elems(
    a: Seq<Form>,
    outputs: Seq<OutputSpecView>,
    i: int,
    primary: Seq<char>,
)
    requires
        0 <= i <= outputs.len(),
    ensures
        variants_run(a, outputs, i, primary).len() == a.len() + outputs.len() - i,
        forall|k: int| 0 <= k < a.len() ==> variants_run(a, outputs, i, primary)[k] == a[k],
        forall|j: int|
            i <= j < outputs.len() ==> #[trigger] variants_run(a, outputs, i, primary)[a.len() + j
                - i] == variant_form(outputs[j], primary),
    decreases outputs.len() - i,
{
    if i < outputs.len() {
        lemma_variant_push(a, outputs[i], primary);
        let next = a.push(variant_form(outputs[i], primary));
        lemma_variants_elems(next, outputs, i + 1, primary);
        let all = variants_run(a, outputs, i, primary);
        assert(all == variants_run(next, outputs, i + 1, primary));
        assert forall|k: int| 0 <= k < a.len() implies all[k] == a[k] by {
            assert(next[k] == a[k]);
        }
        assert forall|j: int| i <= j < outputs.len() implies #[trigger] all[a.len() + j - i]
            == variant_form(outputs[j], primary) by {
            if j == i {
                assert(all[a.len() as int] == next[a.len() as int]);
            } else {
                assert(all[next.len() + j - (i + 1)] == variant_form(outputs[j], primary));
            }
        }
    }
}

proof fn lemma_variants_ok(items: Seq<SExprView>, i: int, acc: Seq<VariantView>)
    requires
        0 <= i,
        forall|k: int| i <= k < items.len() ==> lower_variant_spec(#[trigger] items[k]) is Ok,
    ensures
        lower_variants(items, i, acc) is Ok,
    decreases items.len() - i,
{
    if i < items.len() {
        assert(lower_variant_spec(items[i]) is Ok);
        lemma_variants_ok(items, i + 1, acc.push(lower_variant_spec(items[i])->Ok_0));
    }
}

/// The form of the returns of an endpoint.
pub open spec fn returns_form(ep: EndpointView, primary: Seq<char>) -> Form {
    returns_run(Seq::empty(), ep, primary)[0]
}

/// A tree that fits the form of the returns lowers to the returns.
pub proof fn lemma_returns_lowers(e: SExprView, ep: EndpointView, primary: Seq<char>)
    requires
        fits(e, returns_form(ep, primary)),
    ensures
        lower_returns_spec(e) is Ok,
        headed(returns_form(ep, primary), "returns"@),
{
    let union = variants_run(returns_open_inner2(), ep.outputs, 0, primary);
    let fs = returns_open_inner().push(Form::List(union));
    assert(returns_form(ep, primary) == Form::List(fs));
    lemma_fits_list(e, fs);
    let items = e.kind->List_0;
    lemma_variants_elems(returns_open_inner2(), ep.outputs, 0, primary);
    lemma_fits_list(items[1], union);
    let us = items[1].kind->List_0;
    assert(union[0] == returns_open_inner2()[0]);
    lemma_fits_atom(us[0], AtomView::Symbol("union"@));
    assert forall|k: int| 1 <= k < us.len() implies lower_variant_spec(#[trigger] us[k]) is Ok by {
        let j = k - 1;
        assert(union[1 + j - 0] == variant_form(ep.outputs[j], primary));
        lemma_variant_lowers(us[k], ep.outputs[j], primary);
    }
    lemma_variants_ok(us, 1, Seq::empty());
}

// ---------------------------------------------------------------------------
// Functions
// ---------------------------------------------------------------------------

/// The form of the body of the function of an endpoint.
pub open spec fn body_form(ep: EndpointView, d: SpecDocView) -> Form {
    if by_id(ep) {
        read_body_run(Seq::empty(), store_name(d))[0]
    } else {
        match unique_field(ep.outputs, 0) {
            Some(f) => write_body_field_run(Seq::empty(), store_name(d), primary_type(d), f)[0],
            None => write_body_plain_run(Seq::empty(), store_name(d), primary_type(d))[0],
        }
    }
}

proof fn lemma_body_lowers(e: SExprView, ep: EndpointView, d: SpecDocView)
    requires
        fits(e, body_form(ep, d)),
    ensures
        expr_ok(e),
        headed(body_form(ep, d), "let"@),
{
    if by_id(ep) {
        read_body_lowers(e, store_name(d));
    } else {
        match unique_field(ep.outputs, 0) {
            Some(f) => {
                write_body_field_lowers(e, store_name(d), primary_type(d), f);
            },
            None => {
                write_body_plain_lowers(e, store_name(d), primary_type(d));
            },
        }
    }
}

/// The form of the parameter of the function of an endpoint.
pub open spec fn param_form(ep: EndpointView, d: SpecDocView) -> Form {
    if by_id(ep) {
        url_param_form()
    } else {
        body_param_form(d)
    }
}

/// A tree that fits the form of the function of an endpoint lowers to a
/// function, which is total where `total` is set.
pub proof fn lemma_fn_lowers(e: SExprView, ep: EndpointView, d: SpecDocView, total: bool)
    requires
        fits(e, Form::List(fn_items(ep, d, total))),
    ensures
        lower_fn_spec(e) matches Ok(f) && f.total == total && f.name == ep.name,
        head_of(e) == Some("fn"@),
        kw_of(e) is None,
{
    lemma_fn_words();
    let fs = fn_items(ep, d, total);
    lemma_fits_list(e, fs);
    let items = e.kind->List_0;
    let cs = ep.constraints;
    let r0 = Seq::<Form>::empty().push(sym("fn"@)).push(sym(ep.name));
    let prov = Seq::<(Form, Form)>::empty().push((sym("req"@), quoted(d.spec_id)));
    let ra = r0.push(kw("provenance"@)).push(Form::Record(prov));
    let r1 = fn_open_inner(ep.name, d.spec_id);
    assert(r1 == ra.push(kw("effects"@)));
    let r2 = fr2(ep, d);
    let r3 = fr3(ep, d, total);
    let r4 = budgets_run(r3, cs, 0);
    let r5 = keys_run(r4, cs, 0);
    let r6 = fr6(ep, d, total);
    let r7 = fr7(ep, d, total);
    let r8 = fr8(ep, d, total);
    // each stage starts the next one
    assert(r7 == r6.push(param_form(ep, d)));
    assert(r8 == r7.push(returns_form(ep, primary_type(d))));
    assert(fs == r8.push(body_form(ep, d)));
    assert(is_prefix(r8, fs));
    assert(is_prefix(r7, r8));
    lemma_prefix_chain(r7, r8, fs);
    assert(is_prefix(r6, r7));
    lemma_prefix_chain(r6, r7, fs);
    assert(is_prefix(r5, r6));
    lemma_prefix_chain(r5, r6, fs);
    lemma_keys_extend(r4, cs, 0);
    lemma_prefix_chain(r4, r5, fs);
    lemma_budgets_extend(r3, cs, 0);
    lemma_prefix_chain(r3, r4, fs);
    assert(is_prefix(r2, r3));
    lemma_prefix_chain(r2, r3, fs);
    assert(is_prefix(ra, r2));
    lemma_prefix_chain(ra, r2, fs);
    assert(fs[0] == ra[0]);
    assert(fs[1] == ra[1]);
    assert(fs[3] == ra[3]);
    lemma_fits_atom(items[0], AtomView::Symbol("fn"@));
    lemma_fits_atom(items[1], AtomView::Symbol(ep.name));
    // the keywords
    assert(prov[0] == (sym("req"@), quoted(d.spec_id)));
    lemma_prov_lowers(items[3], prov);
    let a0 = no_fn_parts();
    let a1 = lemma_low_pair(items, fs, r0, "provenance"@, Form::Record(prov), a0);
    let effects = r2[5];
    assert(r2 == ra.push(kw("effects"@)).push(effects));
    let a2 = lemma_low_pair(items, fs, ra, "effects"@, effects, a1);
    let a3 = if total {
        let flag = Form::Atom(AtomView::BoolLit(true));
        assert(r3 == r2.push(kw("total"@)).push(flag));
        let next = lemma_low_pair(items, fs, r2, "total"@, flag, a2);
        lemma_fits_atom(items[r2.len() as int + 1], AtomView::BoolLit(true));
        next
    } else {
        a2
    };
    assert(a3.total == total);
    let a4 = lemma_low_budgets(items, fs, r3, cs, 0, a3);
    let a5 = lemma_low_keys(items, fs, r4, cs, 0, a4);
    let a6 = if d.traceability.known_dependencies.len() > 0 {
        let callers = Form::Vector(callers_run(Seq::empty(), d.traceability.known_dependencies, 0));
        assert(r6 == r5.push(kw("called-by"@)).push(callers));
        lemma_low_pair(items, fs, r5, "called-by"@, callers, a5)
    } else {
        a5
    };
    // the forms
    let n6 = r6.len() as int;
    assert(fs[n6] == r7[n6]);
    if by_id(ep) {
        lemma_url_param_lowers(items[n6]);
    } else {
        lemma_body_param_lowers(items[n6], d);
    }
    let a7 = lemma_low_form(items, fs, r6, param_form(ep, d), "param"@, a6);
    let n7 = r7.len() as int;
    assert(fs[n7] == r8[n7]);
    lemma_returns_lowers(items[n7], ep, primary_type(d));
    let a8 = lemma_low_form(items, fs, r7, returns_form(ep, primary_type(d)), "returns"@, a7);
    let n8 = r8.len() as int;
    lemma_body_lowers(items[n8], ep, d);
    let a9 = lemma_low_form(items, fs, r8, body_form(ep, d), "let"@, a8);
    assert(crate::lower::fn_items(items, fs.len() as int, a9) == Ok::<FnParts, Seq<char>>(a9));
    assert(crate::lower::fn_items(items, 2, a0) == Ok::<FnParts, Seq<char>>(a9));
}

} // verus!
