//! The form that the text of a generated module holds.

use vstd::prelude::*;
use crate::generate::pct_emitter::{slug, module_name, created, latency_lines, idempotency_lines,
    called_by_line, url_param, body_param, returns_form, read_body, write_body, unique_field,
    endpoint_fn, endpoint_fns, fn_effects, fn_writes, fn_read_only, by_id, store_name,
    primary_type, type_forms, effect_sets, all_total, emit_spec};
use crate::generate::segments::{header_inner, header_at, url_param_run, url_param_cut,
    url_param_at, read_body_run, read_body_cut, read_body_at, write_body_field_run,
    write_body_field_cut, write_body_field_at, write_body_plain_run, write_body_plain_cut,
    write_body_plain_at, fn_open_inner, fn_open_cut, fn_open_at, effects_write_run,
    effects_write_cut, effects_write_at, effects_read_run, effects_read_cut, effects_read_at,
    effects_none_run, effects_none_cut, effects_none_at, total_run, total_cut, total_at};
use crate::generate::spec_ast::{SpecDocView, EndpointView};
use crate::generate::written::{plain_types, plain_fields, plain_type, types_run, sets_run,
    lemma_types, lemma_types_cut, lemma_sets, lemma_sets_cut, lemma_break};
use crate::generate::written_fns::{plain_constraints, plain_outputs, plain_deps, budgets_run,
    keys_run, called_run, body_param_run, returns_run, input_fields, lemma_budgets,
    lemma_budgets_cut, lemma_keys, lemma_keys_cut, lemma_called, lemma_called_cut,
    lemma_body_param, lemma_body_param_cut, lemma_returns, lemma_returns_cut};
use crate::layout::{lands, lemma_holds_split, lemma_blank_char, lemma_blank_join,
    lemma_lands_blank, lemma_lands_start, step_list};
use crate::lexer::{skip_trivia, spec_is_symbol_start};
use crate::reading::{Form, read_end, items_end};
use crate::text::left;
use crate::words::{holds, blank, all_cont, symbol_text, keyword_text, string_text, lemma_blank_tail};

verus! {

// ---------------------------------------------------------------------------
// Functions
// ---------------------------------------------------------------------------

/// Whether each word of an endpoint is lexed as one token.
pub open spec fn plain_endpoint(ep: EndpointView) -> bool {
    &&& symbol_text(ep.name)
    &&& plain_constraints(ep.constraints)
    &&& plain_outputs(ep.outputs)
    &&& (!by_id(ep) ==> (unique_field(ep.outputs, 0) matches Some(f) ==> symbol_text(f)))
}

pub open spec fn plain_endpoints(eps: Seq<EndpointView>) -> bool {
    forall|i: int| 0 <= i < eps.len() ==> plain_endpoint(#[trigger] eps[i])
}

pub open spec fn en1(acc: Seq<char>, ep: EndpointView, d: SpecDocView) -> Seq<char> {
    acc + "\n"@ + "\n"@ + "  (fn "@ + ep.name + "\n"@ + "    :provenance {req: \""@ + d.spec_id
        + "\"}"@ + "\n"@ + "    :effects    "@
}

pub open spec fn en2(acc: Seq<char>, ep: EndpointView, d: SpecDocView) -> Seq<char> {
    en1(acc, ep, d) + fn_effects(ep) + "\n"@
}

pub open spec fn en3(acc: Seq<char>, ep: EndpointView, d: SpecDocView, total: bool) -> Seq<char> {
    if total {
        en2(acc, ep, d) + "    :total      true"@ + "\n"@
    } else {
        en2(acc, ep, d)
    }
}

pub open spec fn en4(acc: Seq<char>, ep: EndpointView, d: SpecDocView, total: bool) -> Seq<char> {
    latency_lines(en3(acc, ep, d, total), ep.constraints, 0)
}

pub open spec fn en5(acc: Seq<char>, ep: EndpointView, d: SpecDocView, total: bool) -> Seq<char> {
    idempotency_lines(en4(acc, ep, d, total), ep.constraints, 0)
}

pub open spec fn en6(acc: Seq<char>, ep: EndpointView, d: SpecDocView, total: bool) -> Seq<char> {
    called_by_line(en5(acc, ep, d, total), d)
}

pub open spec fn en7(acc: Seq<char>, ep: EndpointView, d: SpecDocView, total: bool) -> Seq<char> {
    if by_id(ep) {
        url_param(en6(acc, ep, d, total))
    } else {
        body_param(en6(acc, ep, d, total), d)
    }
}

pub open spec fn en_returns(acc: Seq<char>, ep: EndpointView, d: SpecDocView, total: bool) -> Seq<
    char,
> {
    returns_form(en7(acc, ep, d, total) + "\n"@, ep, primary_type(d))
}

pub open spec fn en8(acc: Seq<char>, ep: EndpointView, d: SpecDocView, total: bool) -> Seq<char> {
    en_returns(acc, ep, d, total) + "\n"@ + "\n"@
}

pub open spec fn en9(acc: Seq<char>, ep: EndpointView, d: SpecDocView, total: bool) -> Seq<char> {
    if by_id(ep) {
        read_body(en8(acc, ep, d, total), store_name(d))
    } else {
        write_body(en8(acc, ep, d, total), store_name(d), primary_type(d), ep)
    }
}

pub open spec fn fr2(ep: EndpointView, d: SpecDocView) -> Seq<Form> {
    let r = fn_open_inner(ep.name, d.spec_id);
    if fn_writes(ep) {
        effects_write_run(r)
    } else if fn_read_only(ep) {
        effects_read_run(r)
    } else {
        effects_none_run(r)
    }
}

pub open spec fn fr3(ep: EndpointView, d: SpecDocView, total: bool) -> Seq<Form> {
    if total {
        total_run(fr2(ep, d))
    } else {
        fr2(ep, d)
    }
}

pub open spec fn fr6(ep: EndpointView, d: SpecDocView, total: bool) -> Seq<Form> {
    called_run(keys_run(budgets_run(fr3(ep, d, total), ep.constraints, 0), ep.constraints, 0), d)
}

pub open spec fn fr7(ep: EndpointView, d: SpecDocView, total: bool) -> Seq<Form> {
    if by_id(ep) {
        url_param_run(fr6(ep, d, total))
    } else {
        body_param_run(fr6(ep, d, total), d)
    }
}

pub open spec fn fr8(ep: EndpointView, d: SpecDocView, total: bool) -> Seq<Form> {
    returns_run(fr7(ep, d, total), ep, primary_type(d))
}

/// The items of the form of the function of an endpoint.
pub open spec fn fn_items(ep: EndpointView, d: SpecDocView, total: bool) -> Seq<Form> {
    let r = fr8(ep, d, total);
    if by_id(ep) {
        read_body_run(r, store_name(d))
    } else {
        match unique_field(ep.outputs, 0) {
            Some(f) => write_body_field_run(r, store_name(d), primary_type(d), f),
            None => write_body_plain_run(r, store_name(d), primary_type(d)),
        }
    }
}

proof fn lemma_dup_keyword(f: Seq<char>)
    requires
        keyword_text(f),
    ensures
        keyword_text("duplicate-"@ + f),
{
    let u = "duplicate-"@;
    let w = u + f;
    reveal_strlit("duplicate-");
    assert(w[0] == u[0]);
    assert forall|j: int| 0 <= j < w.len() implies crate::lexer::spec_is_symbol_cont(
        #[trigger] w[j],
    ) by {
        if j < u.len() {
            assert(w[j] == u[j]);
        } else {
            assert(w[j] == f[j - u.len()]);
        }
    }
}

proof fn lemma_fn_parts(
    src: Seq<char>,
    x: int,
    acc: Seq<char>,
    ep: EndpointView,
    d: SpecDocView,
    total: bool,
)
    requires
        holds(src, x, endpoint_fn(acc, ep, d, total)),
        plain_constraints(ep.constraints),
    ensures
        holds(src, x, acc),
        holds(src, x, en1(acc, ep, d)),
        holds(src, x, en1(acc, ep, d) + fn_effects(ep)),
        blank(src, x + (en1(acc, ep, d) + fn_effects(ep)).len(), 1),
        en2(acc, ep, d).len() == (en1(acc, ep, d) + fn_effects(ep)).len() + 1,
        holds(src, x, en2(acc, ep, d)),
        holds(src, x, en3(acc, ep, d, total)),
        holds(src, x, en4(acc, ep, d, total)),
        holds(src, x, en5(acc, ep, d, total)),
        holds(src, x, en6(acc, ep, d, total)),
        holds(src, x, en7(acc, ep, d, total)),
        blank(src, x + en7(acc, ep, d, total).len(), 1),
        (en7(acc, ep, d, total) + "\n"@).len() == en7(acc, ep, d, total).len() + 1,
        holds(src, x, en_returns(acc, ep, d, total)),
        blank(src, x + en_returns(acc, ep, d, total).len(), 2),
        en8(acc, ep, d, total).len() == en_returns(acc, ep, d, total).len() + 2,
        holds(src, x, en8(acc, ep, d, total)),
        holds(src, x, en9(acc, ep, d, total)),
        x + en9(acc, ep, d, total).len() < src.len(),
        src[x + en9(acc, ep, d, total).len()] == ')',
        endpoint_fn(acc, ep, d, total).len() == en9(acc, ep, d, total).len() + 1,
{
    let s9 = en9(acc, ep, d, total);
    let s8 = en8(acc, ep, d, total);
    let rt = en_returns(acc, ep, d, total);
    let s7 = en7(acc, ep, d, total);
    let s6 = en6(acc, ep, d, total);
    assert(endpoint_fn(acc, ep, d, total) == s9 + ")"@);
    lemma_holds_split(src, x, s9, ")"@);
    lemma_break(src, x + s9.len(), ")"@);
    reveal_strlit(")");
    if by_id(ep) {
        read_body_cut(src, x, s8, store_name(d));
    } else {
        match unique_field(ep.outputs, 0) {
            Some(f) => {
                write_body_field_cut(src, x, s8, store_name(d), primary_type(d), f);
            },
            None => {
                write_body_plain_cut(src, x, s8, store_name(d), primary_type(d));
            },
        }
    }
    lemma_holds_split(src, x, rt + "\n"@, "\n"@);
    lemma_blank_char(src, x + (rt + "\n"@).len(), "\n"@);
    lemma_holds_split(src, x, rt, "\n"@);
    lemma_blank_char(src, x + rt.len(), "\n"@);
    lemma_blank_join(src, x + rt.len(), 1, 1);
    lemma_returns_cut(src, x, s7 + "\n"@, ep, primary_type(d));
    lemma_holds_split(src, x, s7, "\n"@);
    lemma_blank_char(src, x + s7.len(), "\n"@);
    if by_id(ep) {
        url_param_cut(src, x, s6);
    } else {
        lemma_body_param_cut(src, x, s6, d);
    }
    lemma_called_cut(src, x, en5(acc, ep, d, total), d);
    lemma_keys_cut(src, x, en4(acc, ep, d, total), ep.constraints, 0);
    lemma_budgets_cut(src, x, en3(acc, ep, d, total), ep.constraints, 0);
    if total {
        total_cut(src, x, en2(acc, ep, d));
    }
    let s1 = en1(acc, ep, d);
    lemma_holds_split(src, x, s1 + fn_effects(ep), "\n"@);
    lemma_blank_char(src, x + (s1 + fn_effects(ep)).len(), "\n"@);
    if fn_writes(ep) {
        effects_write_cut(src, x, s1);
    } else if fn_read_only(ep) {
        effects_read_cut(src, x, s1);
    } else {
        effects_none_cut(src, x, s1);
    }
    fn_open_cut(src, x, acc, ep.name, d.spec_id);
}

pub proof fn lemma_fn_cut(
    src: Seq<char>,
    x: int,
    acc: Seq<char>,
    ep: EndpointView,
    d: SpecDocView,
    total: bool,
)
    requires
        holds(src, x, endpoint_fn(acc, ep, d, total)),
        plain_constraints(ep.constraints),
    ensures
        holds(src, x, acc),
{
    lemma_fn_parts(src, x, acc, ep, d, total);
}

/// Whether the words of a document that every function uses are each
/// lexed as one token.
pub open spec fn plain_base(d: SpecDocView) -> bool {
    &&& string_text(d.spec_id)
    &&& symbol_text(store_name(d))
    &&& symbol_text(primary_type(d))
    &&& plain_fields(input_fields(d))
    &&& plain_deps(d.traceability.known_dependencies)
}

/// The text of a function holds the form of the function.
pub proof fn lemma_fn(
    src: Seq<char>,
    p: int,
    a: Seq<Form>,
    x: int,
    acc: Seq<char>,
    ep: EndpointView,
    d: SpecDocView,
    total: bool,
)
    requires
        holds(src, x, endpoint_fn(acc, ep, d, total)),
        lands(src, p, a, x + acc.len()),
        plain_endpoint(ep),
        plain_base(d),
    ensures
        lands(
            src,
            p,
            a.push(Form::List(fn_items(ep, d, total))),
            x + endpoint_fn(acc, ep, d, total).len(),
        ),
{
    lemma_fn_parts(src, x, acc, ep, d, total);
    let b = x + acc.len();
    let q = b + 5;
    let s1 = en1(acc, ep, d);
    let store = store_name(d);
    let primary = primary_type(d);
    fn_open_at(src, p, a, x, acc, ep.name, d.spec_id);
    let r1 = fn_open_inner(ep.name, d.spec_id);
    if fn_writes(ep) {
        effects_write_at(src, q, r1, x, s1);
    } else if fn_read_only(ep) {
        effects_read_at(src, q, r1, x, s1);
    } else {
        effects_none_at(src, q, r1, x, s1);
    }
    lemma_lands_blank(src, q, fr2(ep, d), x + (s1 + fn_effects(ep)).len(), 1);
    if total {
        total_at(src, q, fr2(ep, d), x, en2(acc, ep, d));
    }
    let r3 = fr3(ep, d, total);
    lemma_budgets(src, q, r3, x, en3(acc, ep, d, total), ep.constraints, 0);
    let r4 = budgets_run(r3, ep.constraints, 0);
    lemma_keys(src, q, r4, x, en4(acc, ep, d, total), ep.constraints, 0);
    let r5 = keys_run(r4, ep.constraints, 0);
    lemma_called(src, q, r5, x, en5(acc, ep, d, total), d);
    let r6 = fr6(ep, d, total);
    let s6 = en6(acc, ep, d, total);
    if by_id(ep) {
        url_param_at(src, q, r6, x, s6);
    } else {
        lemma_body_param(src, q, r6, x, s6, d);
    }
    let r7 = fr7(ep, d, total);
    let s7 = en7(acc, ep, d, total);
    lemma_lands_blank(src, q, r7, x + s7.len(), 1);
    lemma_returns(src, q, r7, x, s7 + "\n"@, ep, primary);
    let r8 = fr8(ep, d, total);
    let rt = en_returns(acc, ep, d, total);
    lemma_lands_blank(src, q, r8, x + rt.len(), 2);
    let s8 = en8(acc, ep, d, total);
    if by_id(ep) {
        read_body_at(src, q, r8, x, s8, store);
    } else {
        match unique_field(ep.outputs, 0) {
            Some(f) => {
                lemma_dup_keyword(f);
                write_body_field_at(src, q, r8, x, s8, store, primary, f);
            },
            None => {
                write_body_plain_at(src, q, r8, x, s8, store, primary);
            },
        }
    }
    step_list(src, p, a, b, 4, fn_items(ep, d, total), x + en9(acc, ep, d, total).len());
}

/// `a` followed by the forms of the functions of the endpoints from `i` on.
pub open spec fn fns_run(a: Seq<Form>, d: SpecDocView, i: int, total: bool) -> Seq<Form>
    decreases left(d.endpoints.len(), i),
{
    if 0 <= i < d.endpoints.len() {
        fns_run(a.push(Form::List(fn_items(d.endpoints[i], d, total))), d, i + 1, total)
    } else {
        a
    }
}

pub proof fn lemma_fns_cut(src: Seq<char>, x: int, acc: Seq<char>, d: SpecDocView, i: int, total: bool)
    requires
        0 <= i <= d.endpoints.len(),
        holds(src, x, endpoint_fns(acc, d, i, total)),
        plain_endpoints(d.endpoints),
    ensures
        holds(src, x, acc),
    decreases d.endpoints.len() - i,
{
    if i < d.endpoints.len() {
        let ep = d.endpoints[i];
        assert(plain_endpoint(ep));
        lemma_fns_cut(src, x, endpoint_fn(acc, ep, d, total), d, i + 1, total);
        lemma_fn_cut(src, x, acc, ep, d, total);
    }
}

/// The text of the functions holds the forms of the functions.
pub proof fn lemma_fns(
    src: Seq<char>,
    p: int,
    a: Seq<Form>,
    x: int,
    acc: Seq<char>,
    d: SpecDocView,
    i: int,
    total: bool,
)
    requires
        0 <= i <= d.endpoints.len(),
        holds(src, x, endpoint_fns(acc, d, i, total)),
        lands(src, p, a, x + acc.len()),
        plain_endpoints(d.endpoints),
        plain_base(d),
    ensures
        lands(src, p, fns_run(a, d, i, total), x + endpoint_fns(acc, d, i, total).len()),
    decreases d.endpoints.len() - i,
{
    if i < d.endpoints.len() {
        let ep = d.endpoints[i];
        assert(plain_endpoint(ep));
        let s = endpoint_fn(acc, ep, d, total);
        lemma_fns_cut(src, x, s, d, i + 1, total);
        lemma_fn(src, p, a, x, acc, ep, d, total);
        lemma_fns(src, p, a.push(Form::List(fn_items(ep, d, total))), x, s, d, i + 1, total);
    }
}

// ---------------------------------------------------------------------------
// The module
// ---------------------------------------------------------------------------

/// Whether each word that the emitter takes from a document is lexed as one
/// token of the kind that the emitter means: names as symbols, tags and
/// formats as keywords, the identifier of the specification as a string,
/// lengths as integers and response times as durations.
pub open spec fn plain_doc(d: SpecDocView) -> bool {
    &&& symbol_text(slug(d.title))
    &&& string_text(d.spec_id)
    &&& (d.domain_types.len() > 0 ==> symbol_text(store_name(d)))
    &&& plain_types(d.domain_types)
    &&& plain_deps(d.traceability.known_dependencies)
    &&& plain_endpoints(d.endpoints)
}

pub open spec fn doc_total(d: SpecDocView) -> bool {
    all_total(d.quality, d.quality.len() as int)
}

/// The items of the module form of a document.
pub open spec fn doc_items(d: SpecDocView) -> Seq<Form> {
    fns_run(
        sets_run(
            types_run(header_inner(slug(d.title), d.spec_id), d.domain_types, 0, store_name(d)),
            d,
        ),
        d,
        0,
        doc_total(d),
    )
}

/// The module form of a document.
pub open spec fn doc_form(d: SpecDocView) -> Form {
    Form::List(doc_items(d))
}

pub open spec fn dc0(d: SpecDocView) -> Seq<char> {
    Seq::<char>::empty() + "(module "@ + module_name(d) + "\n"@ + "  :provenance {req: \""@
        + d.spec_id + "\", author: \"agent:pact-generate\", created: \""@ + created() + "\"}"@
        + "\n"@ + "  :version 1"@ + "\n"@
}

pub open spec fn dc1(d: SpecDocView) -> Seq<char> {
    type_forms(dc0(d), d.domain_types, 0, store_name(d))
}

pub open spec fn dc2(d: SpecDocView) -> Seq<char> {
    effect_sets(dc1(d), d)
}

pub open spec fn dc3(d: SpecDocView) -> Seq<char> {
    endpoint_fns(dc2(d), d, 0, doc_total(d))
}

proof fn lemma_plain_base(d: SpecDocView)
    requires
        plain_doc(d),
    ensures
        plain_base(d),
        string_text(created()),
{
    reveal_strlit("2026-01-01T00:00:00Z");
    reveal_strlit("true");
    reveal_strlit("false");
    if d.domain_types.len() > 0 {
        assert(plain_type(d.domain_types[0]));
    } else {
        let s = "data-store"@;
        reveal_strlit("data-store");
        assert(s[0] == 'd');
        assert(spec_is_symbol_start(s[0]));
        assert(all_cont(s));
        let e = "Entity"@;
        reveal_strlit("Entity");
        assert(e[0] == 'E');
        assert(spec_is_symbol_start(e[0]));
        assert(all_cont(e));
    }
}

/// A text stands in itself.
proof fn lemma_holds_self(src: Seq<char>)
    ensures
        holds(src, 0, src),
{
    reveal(holds);
}

/// Where one form lands at the end of the text, the text holds the form and
/// nothing behind it but blanks.
proof fn lemma_lands_whole(src: Seq<char>, f: Form)
    requires
        lands(src, 0, Seq::<Form>::empty().push(f), src.len() as int),
    ensures
        read_end(src, 0, f) >= 0,
        skip_trivia(src, read_end(src, 0, f), false) >= src.len(),
{
    reveal(lands);
    let one = Seq::<Form>::empty().push(f);
    assert(one[0] == f);
    let e = read_end(src, 0, f);
    assert(items_end(src, e, one, 1) == e);
    assert(items_end(src, 0, one, 0) == e);
    lemma_blank_tail(src, e, src.len() - e);
}

/// The text of the module of a plain document holds the module form of the
/// document, and nothing behind it but a line feed.
pub proof fn lemma_doc_written(d: SpecDocView)
    requires
        plain_doc(d),
    ensures
        read_end(emit_spec(d), 0, doc_form(d)) >= 0,
        skip_trivia(emit_spec(d), read_end(emit_spec(d), 0, doc_form(d)), false) >= emit_spec(
            d,
        ).len(),
{
    let src = emit_spec(d);
    let s3 = dc3(d);
    let none = Seq::<Form>::empty();
    let head = header_inner(slug(d.title), d.spec_id);
    let store = store_name(d);
    lemma_plain_base(d);
    assert(src == s3 + ")"@ + "\n"@);
    lemma_holds_self(src);
    lemma_holds_split(src, 0, s3 + ")"@, "\n"@);
    lemma_blank_char(src, (s3 + ")"@).len() as int, "\n"@);
    lemma_holds_split(src, 0, s3, ")"@);
    lemma_break(src, s3.len() as int, ")"@);
    reveal_strlit(")");
    lemma_fns_cut(src, 0, dc2(d), d, 0, doc_total(d));
    lemma_sets_cut(src, 0, dc1(d), d);
    lemma_types_cut(src, 0, dc0(d), d.domain_types, 0, store);
    lemma_lands_start(src, 0);
    header_at(src, 0, none, 0, Seq::<char>::empty(), slug(d.title), d.spec_id);
    lemma_types(src, 1, head, 0, dc0(d), d.domain_types, 0, store);
    let r1 = types_run(head, d.domain_types, 0, store);
    lemma_sets(src, 1, r1, 0, dc1(d), d);
    lemma_fns(src, 1, sets_run(r1, d), 0, dc2(d), d, 0, doc_total(d));
    step_list(src, 0, none, 0, 0, doc_items(d), s3.len() as int);
    lemma_lands_blank(src, 0, none.push(doc_form(d)), s3.len() as int + 1, 1);
    lemma_lands_whole(src, doc_form(d));
}

} // verus!
