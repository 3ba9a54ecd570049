//! The forms that the text of a generated function holds.

use vstd::prelude::*;
use crate::generate::pct_emitter::{type_text, latency_lines, idempotency_lines, callers,
    called_by_line, input_entries, body_param, slug, http_text, tag_payload, variant_form,
    variant_forms, returns_form};
use crate::generate::segments::{latency_run, latency_cut, latency_at, idempotency_run,
    idempotency_cut, idempotency_at, called_open_run, called_open_cut, called_open_at, caller_run,
    caller_cut, caller_at, body_open_inner, body_open_cut, body_open_at, input_entry_run,
    input_entry_cut, input_entry_at, body_rest_run, body_rest_cut, body_rest_at, ok_open_inner,
    ok_open_cut, ok_open_at, http_run, http_cut, http_at, serialize_run, serialize_cut,
    serialize_at, err_open_inner, err_open_cut, err_open_at, payload_id_run, payload_id_cut,
    payload_id_at, payload_field_run, payload_field_cut, payload_field_at, payload_errors_run,
    payload_errors_cut, payload_errors_at, payload_none_run, payload_none_cut, payload_none_at,
    returns_open_inner, returns_open_inner2, returns_open_cut, returns_open_at};
use crate::generate::spec_ast::{FieldSpecView, ConstraintView, SpecDocView, OutputSpecView,
    EndpointView};
use crate::generate::written::{plain_fields, lemma_break};
use crate::layout::{lands, plain_map, lemma_holds_split, lemma_blank_char, lemma_lands_blank,
    step_list, step_vector, step_map};
use crate::strings::{contains, starts_with};
use crate::lexer::{DurationUnit, cont_at};
use crate::reading::Form;
use crate::text::{dec, left};
use crate::words::{holds, blank, all_cont, symbol_text, keyword_text};
use crate::lexer::spec_is_symbol_start;

verus! {

// ---------------------------------------------------------------------------
// Latency budgets and idempotency keys
// ---------------------------------------------------------------------------

/// Whether `t` is the text of the duration of `v` units `u`.
pub open spec fn is_duration(t: Seq<char>, v: nat, u: DurationUnit) -> bool {
    t == dec(v) + u.suffix() && v <= u64::MAX
}

/// Whether `t` is the text of a duration.
pub open spec fn duration_text(t: Seq<char>) -> bool {
    exists|d: (nat, DurationUnit)| is_duration(t, d.0, d.1)
}

/// The duration that `t` is the text of.
pub open spec fn duration_of(t: Seq<char>) -> (nat, DurationUnit) {
    choose|d: (nat, DurationUnit)| is_duration(t, d.0, d.1)
}

/// Whether each word of a constraint is lexed as one token.
pub open spec fn plain_constraint(c: ConstraintView) -> bool {
    match c {
        ConstraintView::MaxResponseTime(t) => duration_text(t),
        ConstraintView::Idempotent(field) => symbol_text(field),
        _ => true,
    }
}

pub open spec fn plain_constraints(cs: Seq<ConstraintView>) -> bool {
    forall|i: int| 0 <= i < cs.len() ==> plain_constraint(#[trigger] cs[i])
}

/// `r` followed by the forms of the latency budgets from `i` on.
pub open spec fn budgets_run(r: Seq<Form>, cs: Seq<ConstraintView>, i: int) -> Seq<Form>
    decreases left(cs.len(), i),
{
    if 0 <= i < cs.len() {
        budgets_run(
            match cs[i] {
                ConstraintView::MaxResponseTime(t) => latency_run(r, duration_of(t).0, duration_of(t).1),
                _ => r,
            },
            cs,
            i + 1,
        )
    } else {
        r
    }
}

pub open spec fn budget_text(acc: Seq<char>, c: ConstraintView) -> Seq<char> {
    match c {
        ConstraintView::MaxResponseTime(t) => acc + "    :latency-budget "@ + t + "\n"@,
        _ => acc,
    }
}

pub proof fn lemma_budgets_cut(src: Seq<char>, x: int, acc: Seq<char>, cs: Seq<ConstraintView>, i: int)
    requires
        0 <= i <= cs.len(),
        holds(src, x, latency_lines(acc, cs, i)),
        plain_constraints(cs),
    ensures
        holds(src, x, acc),
    decreases cs.len() - i,
{
    if i < cs.len() {
        let next = budget_text(acc, cs[i]);
        assert(latency_lines(acc, cs, i) == latency_lines(next, cs, i + 1));
        lemma_budgets_cut(src, x, next, cs, i + 1);
        if let ConstraintView::MaxResponseTime(t) = cs[i] {
            assert(plain_constraint(cs[i]));
            let d = duration_of(t);
            latency_cut(src, x, acc, d.0, d.1);
        }
    }
}

/// The text of the latency budgets holds their forms.
pub proof fn lemma_budgets(
    src: Seq<char>,
    p: int,
    r: Seq<Form>,
    x: int,
    acc: Seq<char>,
    cs: Seq<ConstraintView>,
    i: int,
)
    requires
        0 <= i <= cs.len(),
        holds(src, x, latency_lines(acc, cs, i)),
        lands(src, p, r, x + acc.len()),
        plain_constraints(cs),
    ensures
        lands(src, p, budgets_run(r, cs, i), x + latency_lines(acc, cs, i).len()),
    decreases cs.len() - i,
{
    if i < cs.len() {
        let next = budget_text(acc, cs[i]);
        assert(latency_lines(acc, cs, i) == latency_lines(next, cs, i + 1));
        lemma_budgets_cut(src, x, next, cs, i + 1);
        if let ConstraintView::MaxResponseTime(t) = cs[i] {
            assert(plain_constraint(cs[i]));
            let d = duration_of(t);
            latency_at(src, p, r, x, acc, d.0, d.1);
            lemma_budgets(src, p, latency_run(r, d.0, d.1), x, next, cs, i + 1);
        } else {
            lemma_budgets(src, p, r, x, next, cs, i + 1);
        }
    }
}

/// `r` followed by the forms of the idempotency keys from `i` on.
pub open spec fn keys_run(r: Seq<Form>, cs: Seq<ConstraintView>, i: int) -> Seq<Form>
    decreases left(cs.len(), i),
{
    if 0 <= i < cs.len() {
        keys_run(
            match cs[i] {
                ConstraintView::Idempotent(field) => idempotency_run(r, field),
                _ => r,
            },
            cs,
            i + 1,
        )
    } else {
        r
    }
}

pub open spec fn key_text(acc: Seq<char>, c: ConstraintView) -> Seq<char> {
    match c {
        ConstraintView::Idempotent(field) => acc + "    :idempotency-key (hash (. input "@ + field
            + "))"@ + "\n"@,
        _ => acc,
    }
}

pub proof fn lemma_keys_cut(src: Seq<char>, x: int, acc: Seq<char>, cs: Seq<ConstraintView>, i: int)
    requires
        0 <= i <= cs.len(),
        holds(src, x, idempotency_lines(acc, cs, i)),
    ensures
        holds(src, x, acc),
    decreases cs.len() - i,
{
    if i < cs.len() {
        let next = key_text(acc, cs[i]);
        assert(idempotency_lines(acc, cs, i) == idempotency_lines(next, cs, i + 1));
        lemma_keys_cut(src, x, next, cs, i + 1);
        if let ConstraintView::Idempotent(field) = cs[i] {
            idempotency_cut(src, x, acc, field);
        }
    }
}

/// The text of the idempotency keys holds their forms.
pub proof fn lemma_keys(
    src: Seq<char>,
    p: int,
    r: Seq<Form>,
    x: int,
    acc: Seq<char>,
    cs: Seq<ConstraintView>,
    i: int,
)
    requires
        0 <= i <= cs.len(),
        holds(src, x, idempotency_lines(acc, cs, i)),
        lands(src, p, r, x + acc.len()),
        plain_constraints(cs),
    ensures
        lands(src, p, keys_run(r, cs, i), x + idempotency_lines(acc, cs, i).len()),
    decreases cs.len() - i,
{
    if i < cs.len() {
        let next = key_text(acc, cs[i]);
        assert(idempotency_lines(acc, cs, i) == idempotency_lines(next, cs, i + 1));
        lemma_keys_cut(src, x, next, cs, i + 1);
        if let ConstraintView::Idempotent(field) = cs[i] {
            assert(plain_constraint(cs[i]));
            idempotency_at(src, p, r, x, acc, field);
            lemma_keys(src, p, idempotency_run(r, field), x, next, cs, i + 1);
        } else {
            lemma_keys(src, p, r, x, next, cs, i + 1);
        }
    }
}

// ---------------------------------------------------------------------------
// Callers
// ---------------------------------------------------------------------------

/// Whether each dependency, with the name of its handler, is lexed as one
/// symbol.
pub open spec fn plain_deps(deps: Seq<Seq<char>>) -> bool {
    forall|i: int| 0 <= i < deps.len() ==> symbol_text(#[trigger] deps[i] + "/handle-request"@)
}

/// `r` followed by the forms of the callers from `i` on.
pub open spec fn callers_run(r: Seq<Form>, deps: Seq<Seq<char>>, i: int) -> Seq<Form>
    decreases left(deps.len(), i),
{
    if 0 <= i < deps.len() {
        callers_run(caller_run(r, deps[i]), deps, i + 1)
    } else {
        r
    }
}

pub open spec fn caller_sep(acc: Seq<char>, i: int) -> Seq<char> {
    if i > 0 {
        acc + " "@
    } else {
        acc
    }
}

pub proof fn lemma_callers_cut(src: Seq<char>, x: int, acc: Seq<char>, deps: Seq<Seq<char>>, i: int)
    requires
        0 <= i <= deps.len(),
        holds(src, x, callers(acc, deps, i)),
    ensures
        holds(src, x, acc),
        0 < i < deps.len() ==> !cont_at(src, x + acc.len()) && blank(src, x + acc.len(), 1),
        i >= deps.len() ==> callers(acc, deps, i) == acc,
    decreases deps.len() - i,
{
    if i < deps.len() {
        let sep = caller_sep(acc, i);
        let next = sep + deps[i] + "/handle-request"@;
        assert(callers(acc, deps, i) == callers(next, deps, i + 1));
        lemma_callers_cut(src, x, next, deps, i + 1);
        caller_cut(src, x, sep, deps[i]);
        if i > 0 {
            lemma_holds_split(src, x, acc, " "@);
            lemma_break(src, x + acc.len(), " "@);
            lemma_blank_char(src, x + acc.len(), " "@);
        }
    }
}

/// The text of the callers holds their forms.
pub proof fn lemma_callers(
    src: Seq<char>,
    p: int,
    r: Seq<Form>,
    x: int,
    acc: Seq<char>,
    deps: Seq<Seq<char>>,
    i: int,
)
    requires
        0 <= i <= deps.len(),
        holds(src, x, callers(acc, deps, i)),
        lands(src, p, r, x + acc.len()),
        plain_deps(deps),
        !cont_at(src, x + callers(acc, deps, i).len()),
    ensures
        lands(src, p, callers_run(r, deps, i), x + callers(acc, deps, i).len()),
    decreases deps.len() - i,
{
    if i < deps.len() {
        let sep = caller_sep(acc, i);
        let next = sep + deps[i] + "/handle-request"@;
        assert(callers(acc, deps, i) == callers(next, deps, i + 1));
        lemma_callers_cut(src, x, next, deps, i + 1);
        lemma_callers_cut(src, x, acc, deps, i);
        caller_cut(src, x, sep, deps[i]);
        if i > 0 {
            lemma_holds_split(src, x, acc, " "@);
            lemma_blank_char(src, x + acc.len(), " "@);
            lemma_lands_blank(src, p, r, x + acc.len(), 1);
        }
        caller_at(src, p, r, x, sep, deps[i]);
        lemma_callers(src, p, caller_run(r, deps[i]), x, next, deps, i + 1);
    }
}

/// `r` followed by the forms of the line of callers of a document.
pub open spec fn called_run(r: Seq<Form>, d: SpecDocView) -> Seq<Form> {
    if d.traceability.known_dependencies.len() > 0 {
        called_open_run(r).push(
            Form::Vector(callers_run(Seq::empty(), d.traceability.known_dependencies, 0)),
        )
    } else {
        r
    }
}

proof fn lemma_called_parts(src: Seq<char>, x: int, acc: Seq<char>, d: SpecDocView)
    requires
        holds(src, x, called_by_line(acc, d)),
    ensures
        holds(src, x, acc),
        d.traceability.known_dependencies.len() > 0 ==> {
            let open = acc + "    :called-by  ["@;
            let all = callers(open, d.traceability.known_dependencies, 0);
            &&& holds(src, x, open)
            &&& holds(src, x, all)
            &&& open.len() == acc.len() + 17
            &&& x + all.len() < src.len()
            &&& src[x + all.len()] == ']'
            &&& !cont_at(src, x + all.len())
            &&& blank(src, x + all.len() + 1, 1)
            &&& called_by_line(acc, d).len() == all.len() + 2
        },
{
    let deps = d.traceability.known_dependencies;
    if deps.len() > 0 {
        let open = acc + "    :called-by  ["@;
        let all = callers(open, deps, 0);
        lemma_holds_split(src, x, all + "]"@, "\n"@);
        lemma_blank_char(src, x + (all + "]"@).len(), "\n"@);
        lemma_holds_split(src, x, all, "]"@);
        lemma_break(src, x + all.len(), "]"@);
        reveal_strlit("]");
        lemma_callers_cut(src, x, open, deps, 0);
        called_open_cut(src, x, acc);
    }
}

pub proof fn lemma_called_cut(src: Seq<char>, x: int, acc: Seq<char>, d: SpecDocView)
    requires
        holds(src, x, called_by_line(acc, d)),
    ensures
        holds(src, x, acc),
{
    lemma_called_parts(src, x, acc, d);
}

/// The text of the line of callers holds its forms.
pub proof fn lemma_called(src: Seq<char>, p: int, r: Seq<Form>, x: int, acc: Seq<char>, d: SpecDocView)
    requires
        holds(src, x, called_by_line(acc, d)),
        lands(src, p, r, x + acc.len()),
        plain_deps(d.traceability.known_dependencies),
    ensures
        lands(src, p, called_run(r, d), x + called_by_line(acc, d).len()),
{
    lemma_called_parts(src, x, acc, d);
    let deps = d.traceability.known_dependencies;
    if deps.len() > 0 {
        let open = acc + "    :called-by  ["@;
        let all = callers(open, deps, 0);
        called_open_at(src, p, r, x, acc);
        let start = x + acc.len() + 17;
        lemma_callers(src, start, Seq::empty(), x, open, deps, 0);
        step_vector(
            src,
            p,
            called_open_run(r),
            x + acc.len() + 14,
            2,
            callers_run(Seq::empty(), deps, 0),
            x + all.len(),
        );
        lemma_lands_blank(src, p, called_run(r, d), x + all.len() + 1, 1);
    }
}

// ---------------------------------------------------------------------------
// Parameters
// ---------------------------------------------------------------------------

/// Whether a field is part of the input of a function that takes a body.
pub open spec fn is_input(f: FieldSpecView) -> bool {
    !f.auto_generated && !f.immutable
}

/// `r` followed by the keys and types of the input fields from `i` on.
pub open spec fn entries_run(r: Seq<Form>, fields: Seq<FieldSpecView>, i: int) -> Seq<Form>
    decreases left(fields.len(), i),
{
    if 0 <= i < fields.len() {
        entries_run(
            if is_input(fields[i]) {
                input_entry_run(r, fields[i].name, type_text(fields[i].field_type))
            } else {
                r
            },
            fields,
            i + 1,
        )
    } else {
        r
    }
}

pub open spec fn entry_sep(acc: Seq<char>, first: bool) -> Seq<char> {
    if first {
        acc
    } else {
        acc + " "@
    }
}

pub open spec fn entry_text(acc: Seq<char>, f: FieldSpecView, first: bool) -> Seq<char> {
    entry_sep(acc, first) + ":"@ + f.name + " "@ + type_text(f.field_type)
}

pub proof fn lemma_entries_cut(
    src: Seq<char>,
    x: int,
    acc: Seq<char>,
    fields: Seq<FieldSpecView>,
    i: int,
    first: bool,
)
    requires
        0 <= i <= fields.len(),
        holds(src, x, input_entries(acc, fields, i, first)),
    ensures
        holds(src, x, acc),
        !first ==> input_entries(acc, fields, i, first) == acc || !cont_at(src, x + acc.len()),
    decreases fields.len() - i,
{
    if i < fields.len() {
        let f = fields[i];
        if is_input(f) {
            let next = entry_text(acc, f, first);
            assert(input_entries(acc, fields, i, first) == input_entries(next, fields, i + 1, false));
            lemma_entries_cut(src, x, next, fields, i + 1, false);
            input_entry_cut(src, x, entry_sep(acc, first), f.name, type_text(f.field_type));
            if !first {
                lemma_holds_split(src, x, acc, " "@);
                lemma_break(src, x + acc.len(), " "@);
            }
        } else {
            lemma_entries_cut(src, x, acc, fields, i + 1, first);
        }
    }
}

pub proof fn lemma_entries_even(r: Seq<Form>, fields: Seq<FieldSpecView>, i: int)
    requires
        0 <= i <= fields.len(),
    ensures
        entries_run(r, fields, i).len() % 2 == r.len() % 2,
    decreases fields.len() - i,
{
    if i < fields.len() {
        let f = fields[i];
        if is_input(f) {
            lemma_entries_even(input_entry_run(r, f.name, type_text(f.field_type)), fields, i + 1);
        } else {
            lemma_entries_even(r, fields, i + 1);
        }
    }
}

/// The text of the input fields holds their keys and types.
pub proof fn lemma_entries(
    src: Seq<char>,
    p: int,
    r: Seq<Form>,
    x: int,
    acc: Seq<char>,
    fields: Seq<FieldSpecView>,
    i: int,
    first: bool,
)
    requires
        0 <= i <= fields.len(),
        holds(src, x, input_entries(acc, fields, i, first)),
        lands(src, p, r, x + acc.len()),
        plain_fields(fields),
        !cont_at(src, x + input_entries(acc, fields, i, first).len()),
    ensures
        lands(src, p, entries_run(r, fields, i), x + input_entries(acc, fields, i, first).len()),
    decreases fields.len() - i,
{
    if i < fields.len() {
        let f = fields[i];
        if is_input(f) {
            let next = entry_text(acc, f, first);
            let ty = type_text(f.field_type);
            assert(input_entries(acc, fields, i, first) == input_entries(next, fields, i + 1, false));
            lemma_entries_cut(src, x, next, fields, i + 1, false);
            input_entry_cut(src, x, entry_sep(acc, first), f.name, ty);
            if !first {
                lemma_holds_split(src, x, acc, " "@);
                lemma_blank_char(src, x + acc.len(), " "@);
                lemma_lands_blank(src, p, r, x + acc.len(), 1);
            }
            assert(plain_fields(fields) ==> symbol_text(f.name) && symbol_text(ty));
            input_entry_at(src, p, r, x, entry_sep(acc, first), f.name, ty);
            lemma_entries(src, p, input_entry_run(r, f.name, ty), x, next, fields, i + 1, false);
        } else {
            lemma_entries(src, p, r, x, acc, fields, i + 1, first);
        }
    }
}

/// The fields of the first type of a document, from which the input of a
/// function that takes a body is made.
pub open spec fn input_fields(d: SpecDocView) -> Seq<FieldSpecView> {
    if d.domain_types.len() > 0 {
        d.domain_types[0].fields
    } else {
        Seq::empty()
    }
}

pub open spec fn bp1(acc: Seq<char>) -> Seq<char> {
    acc + "    (param input "@ + "{"@
}

pub open spec fn bp2(acc: Seq<char>, d: SpecDocView) -> Seq<char> {
    input_entries(bp1(acc), input_fields(d), 0, true)
}

/// `r` followed by the form of the parameter of a function that takes a body.
pub open spec fn body_param_run(r: Seq<Form>, d: SpecDocView) -> Seq<Form> {
    body_rest_run(
        r,
        body_open_inner().push(plain_map(entries_run(Seq::empty(), input_fields(d), 0))),
    )
}

proof fn lemma_body_param_parts(src: Seq<char>, x: int, acc: Seq<char>, d: SpecDocView)
    requires
        holds(src, x, body_param(acc, d)),
    ensures
        holds(src, x, acc),
        holds(src, x, bp1(acc)),
        holds(src, x, bp2(acc, d)),
        bp1(acc).len() == acc.len() + 18,
        x + bp2(acc, d).len() < src.len(),
        src[x + bp2(acc, d).len()] == '}',
        !cont_at(src, x + bp2(acc, d).len()),
        (bp2(acc, d) + "}"@).len() == bp2(acc, d).len() + 1,
        body_param(acc, d) == bp2(acc, d) + "}"@ + "\n"@ + "      :source http-body"@ + "\n"@
            + "      :content-type :json"@ + "\n"@ + "      :validated-at boundary)"@,
{
    let s2 = bp2(acc, d);
    assert(input_entries(bp1(acc), Seq::<FieldSpecView>::empty(), 0, true) == bp1(acc));
    body_rest_cut(src, x, s2 + "}"@);
    lemma_holds_split(src, x, s2, "}"@);
    lemma_break(src, x + s2.len(), "}"@);
    reveal_strlit("}");
    lemma_entries_cut(src, x, bp1(acc), input_fields(d), 0, true);
    body_open_cut(src, x, acc);
}

pub proof fn lemma_body_param_cut(src: Seq<char>, x: int, acc: Seq<char>, d: SpecDocView)
    requires
        holds(src, x, body_param(acc, d)),
    ensures
        holds(src, x, acc),
{
    lemma_body_param_parts(src, x, acc, d);
}

/// The text of the parameter of a function that takes a body holds its form.
pub proof fn lemma_body_param(
    src: Seq<char>,
    p: int,
    r: Seq<Form>,
    x: int,
    acc: Seq<char>,
    d: SpecDocView,
)
    requires
        holds(src, x, body_param(acc, d)),
        lands(src, p, r, x + acc.len()),
        plain_fields(input_fields(d)),
    ensures
        lands(src, p, body_param_run(r, d), x + body_param(acc, d).len()),
{
    lemma_body_param_parts(src, x, acc, d);
    let s2 = bp2(acc, d);
    let b = x + acc.len();
    body_open_at(src, p, r, x, acc);
    lemma_entries(src, b + 18, Seq::empty(), x, bp1(acc), input_fields(d), 0, true);
    lemma_entries_even(Seq::empty(), input_fields(d), 0);
    let entries = entries_run(Seq::empty(), input_fields(d), 0);
    step_map(src, b + 5, body_open_inner(), b + 16, 1, entries, x + s2.len());
    body_rest_at(
        src,
        b + 5,
        body_open_inner().push(plain_map(entries)),
        x,
        s2 + "}"@,
        p,
        r,
        b,
        4,
    );
}

// ---------------------------------------------------------------------------
// Variants
// ---------------------------------------------------------------------------

/// `r`, followed by the status of a variant where it has one.
pub open spec fn with_http(r: Seq<Form>, status: Option<u16>) -> Seq<Form> {
    match status {
        Some(n) => http_run(r, n as nat),
        None => r,
    }
}

proof fn lemma_http_cut(src: Seq<char>, x: int, acc: Seq<char>, status: Option<u16>)
    requires
        holds(src, x, http_text(acc, status)),
    ensures
        holds(src, x, acc),
        status is Some ==> !cont_at(src, x + acc.len()),
        status is None ==> http_text(acc, status) == acc,
{
    if let Some(n) = status {
        http_cut(src, x, acc, n as nat);
    }
}

proof fn lemma_http(src: Seq<char>, p: int, r: Seq<Form>, x: int, acc: Seq<char>, status: Option<u16>)
    requires
        holds(src, x, http_text(acc, status)),
        lands(src, p, r, x + acc.len()),
        !cont_at(src, x + http_text(acc, status).len()),
    ensures
        lands(src, p, with_http(r, status), x + http_text(acc, status).len()),
{
    if let Some(n) = status {
        http_at(src, p, r, x, acc, n as nat);
    }
}

pub open spec fn by_id_payload(tag: Seq<char>) -> bool {
    contains(tag, "not-found"@) || contains(tag, "invalid"@)
}

pub open spec fn by_field_payload(tag: Seq<char>) -> bool {
    !by_id_payload(tag) && contains(tag, "duplicate"@)
}

pub open spec fn errors_payload(tag: Seq<char>) -> bool {
    !by_id_payload(tag) && !contains(tag, "duplicate"@) && contains(tag, "validation"@)
}

/// The field that the payload of a failure names.
pub open spec fn payload_field_of(tag: Seq<char>) -> Seq<char> {
    if starts_with(tag, "duplicate-"@) {
        tag.subrange(10, tag.len() as int)
    } else {
        "field"@
    }
}

/// `r` followed by the payload of the failure with the tag `tag`.
pub open spec fn payload_run(r: Seq<Form>, tag: Seq<char>) -> Seq<Form> {
    if by_id_payload(tag) {
        payload_id_run(r)
    } else if by_field_payload(tag) {
        payload_field_run(r, payload_field_of(tag))
    } else if errors_payload(tag) {
        payload_errors_run(r)
    } else {
        payload_none_run(r)
    }
}

/// Whether each word of an output is lexed as one token.
pub open spec fn plain_output(o: OutputSpecView) -> bool {
    o.is_success || (keyword_text(slug(o.label)) && (by_field_payload(slug(o.label))
        && starts_with(slug(o.label), "duplicate-"@) ==> symbol_text(
        payload_field_of(slug(o.label)),
    )))
}

pub open spec fn plain_outputs(outputs: Seq<OutputSpecView>) -> bool {
    forall|i: int| 0 <= i < outputs.len() ==> plain_output(#[trigger] outputs[i])
}

proof fn lemma_word_field()
    ensures
        symbol_text("field"@),
{
    let w = "field"@;
    reveal_strlit("field");
    reveal_strlit("true");
    reveal_strlit("false");
    assert(w[0] == 'f');
    assert(w[1] == 'i');
    assert(w[2] == 'e');
    assert(w[3] == 'l');
    assert(w[4] == 'd');
    assert(spec_is_symbol_start(w[0]));
    assert(all_cont(w));
    assert(w[1] != "false"@[1]);
}

proof fn lemma_payload_cut(src: Seq<char>, x: int, acc: Seq<char>, tag: Seq<char>)
    requires
        holds(src, x, tag_payload(acc, tag)),
    ensures
        holds(src, x, acc),
{
    if by_id_payload(tag) {
        payload_id_cut(src, x, acc);
    } else if by_field_payload(tag) {
        payload_field_cut(src, x, acc, payload_field_of(tag));
    } else if errors_payload(tag) {
        payload_errors_cut(src, x, acc);
    } else {
        payload_none_cut(src, x, acc);
    }
}

proof fn lemma_payload(src: Seq<char>, p: int, r: Seq<Form>, x: int, acc: Seq<char>, tag: Seq<char>)
    requires
        holds(src, x, tag_payload(acc, tag)),
        lands(src, p, r, x + acc.len()),
        by_field_payload(tag) && starts_with(tag, "duplicate-"@) ==> symbol_text(payload_field_of(tag)),
    ensures
        lands(src, p, payload_run(r, tag), x + tag_payload(acc, tag).len()),
{
    if by_id_payload(tag) {
        payload_id_at(src, p, r, x, acc);
    } else if by_field_payload(tag) {
        lemma_word_field();
        payload_field_at(src, p, r, x, acc, payload_field_of(tag));
    } else if errors_payload(tag) {
        payload_errors_at(src, p, r, x, acc);
    } else {
        payload_none_at(src, p, r, x, acc);
    }
}

pub open spec fn ok1(acc: Seq<char>, primary: Seq<char>) -> Seq<char> {
    acc + "\n"@ + "      (ok   "@ + primary
}

pub open spec fn er1(acc: Seq<char>, tag: Seq<char>) -> Seq<char> {
    acc + "\n"@ + "      (err  :"@ + tag + " "@
}

/// `a` followed by the form of the variant for an output.
pub open spec fn variant_run(a: Seq<Form>, o: OutputSpecView, primary: Seq<char>) -> Seq<Form> {
    if o.is_success {
        serialize_run(a, with_http(ok_open_inner(primary), o.http_status))
    } else {
        a.push(
            Form::List(
                with_http(payload_run(err_open_inner(slug(o.label)), slug(o.label)), o.http_status),
            ),
        )
    }
}

proof fn lemma_variant_parts(src: Seq<char>, x: int, acc: Seq<char>, o: OutputSpecView, primary: Seq<char>)
    requires
        holds(src, x, variant_form(acc, o, primary)),
    ensures
        holds(src, x, acc),
        !cont_at(src, x + acc.len()),
        o.is_success ==> holds(src, x, ok1(acc, primary)) && holds(
            src,
            x,
            http_text(ok1(acc, primary), o.http_status),
        ) && !cont_at(src, x + ok1(acc, primary).len()) && !cont_at(
            src,
            x + http_text(ok1(acc, primary), o.http_status).len(),
        ),
        !o.is_success ==> {
            let tag = slug(o.label);
            let w1 = er1(acc, tag);
            let w2 = tag_payload(w1, tag);
            let w3 = http_text(w2, o.http_status);
            &&& holds(src, x, w1)
            &&& holds(src, x, w2)
            &&& holds(src, x, w3)
            &&& x + w3.len() < src.len()
            &&& src[x + w3.len()] == ')'
            &&& !cont_at(src, x + w3.len())
            &&& variant_form(acc, o, primary).len() == w3.len() + 1
        },
{
    if o.is_success {
        let v1 = ok1(acc, primary);
        let v2 = http_text(v1, o.http_status);
        serialize_cut(src, x, v2);
        lemma_http_cut(src, x, v1, o.http_status);
        ok_open_cut(src, x, acc, primary);
    } else {
        let tag = slug(o.label);
        let w1 = er1(acc, tag);
        let w2 = tag_payload(w1, tag);
        let w3 = http_text(w2, o.http_status);
        lemma_holds_split(src, x, w3, ")"@);
        lemma_break(src, x + w3.len(), ")"@);
        reveal_strlit(")");
        lemma_http_cut(src, x, w2, o.http_status);
        lemma_payload_cut(src, x, w1, tag);
        err_open_cut(src, x, acc, tag);
    }
}

/// The text of a variant holds the form of the variant.
pub proof fn lemma_variant(
    src: Seq<char>,
    p: int,
    a: Seq<Form>,
    x: int,
    acc: Seq<char>,
    o: OutputSpecView,
    primary: Seq<char>,
)
    requires
        holds(src, x, variant_form(acc, o, primary)),
        lands(src, p, a, x + acc.len()),
        plain_output(o),
        symbol_text(primary),
    ensures
        lands(src, p, variant_run(a, o, primary), x + variant_form(acc, o, primary).len()),
{
    lemma_variant_parts(src, x, acc, o, primary);
    let b = x + acc.len();
    if o.is_success {
        let v1 = ok1(acc, primary);
        let v2 = http_text(v1, o.http_status);
        ok_open_at(src, p, a, x, acc, primary);
        lemma_http(src, b + 8, ok_open_inner(primary), x, v1, o.http_status);
        serialize_at(src, b + 8, with_http(ok_open_inner(primary), o.http_status), x, v2, p, a, b, 7);
    } else {
        let tag = slug(o.label);
        let w1 = er1(acc, tag);
        let w2 = tag_payload(w1, tag);
        let w3 = http_text(w2, o.http_status);
        err_open_at(src, p, a, x, acc, tag);
        lemma_payload(src, b + 8, err_open_inner(tag), x, w1, tag);
        lemma_http(src, b + 8, payload_run(err_open_inner(tag), tag), x, w2, o.http_status);
        step_list(
            src,
            p,
            a,
            b,
            7,
            with_http(payload_run(err_open_inner(tag), tag), o.http_status),
            x + w3.len(),
        );
    }
}

/// `a` followed by the forms of the variants from `i` on.
pub open spec fn variants_run(a: Seq<Form>, outputs: Seq<OutputSpecView>, i: int, primary: Seq<char>) -> Seq<
    Form,
>
    decreases left(outputs.len(), i),
{
    if 0 <= i < outputs.len() {
        variants_run(variant_run(a, outputs[i], primary), outputs, i + 1, primary)
    } else {
        a
    }
}

pub proof fn lemma_variants_cut(
    src: Seq<char>,
    x: int,
    acc: Seq<char>,
    outputs: Seq<OutputSpecView>,
    i: int,
    primary: Seq<char>,
)
    requires
        0 <= i <= outputs.len(),
        holds(src, x, variant_forms(acc, outputs, i, primary)),
    ensures
        holds(src, x, acc),
        i < outputs.len() ==> !cont_at(src, x + acc.len()),
        i >= outputs.len() ==> variant_forms(acc, outputs, i, primary) == acc,
    decreases outputs.len() - i,
{
    if i < outputs.len() {
        let s = variant_form(acc, outputs[i], primary);
        lemma_variants_cut(src, x, s, outputs, i + 1, primary);
        lemma_variant_parts(src, x, acc, outputs[i], primary);
    }
}

/// The text of the variants holds the forms of the variants.
pub proof fn lemma_variants(
    src: Seq<char>,
    p: int,
    a: Seq<Form>,
    x: int,
    acc: Seq<char>,
    outputs: Seq<OutputSpecView>,
    i: int,
    primary: Seq<char>,
)
    requires
        0 <= i <= outputs.len(),
        holds(src, x, variant_forms(acc, outputs, i, primary)),
        lands(src, p, a, x + acc.len()),
        plain_outputs(outputs),
        symbol_text(primary),
    ensures
        lands(
            src,
            p,
            variants_run(a, outputs, i, primary),
            x + variant_forms(acc, outputs, i, primary).len(),
        ),
    decreases outputs.len() - i,
{
    if i < outputs.len() {
        let s = variant_form(acc, outputs[i], primary);
        lemma_variants_cut(src, x, s, outputs, i + 1, primary);
        lemma_variant(src, p, a, x, acc, outputs[i], primary);
        lemma_variants(src, p, variant_run(a, outputs[i], primary), x, s, outputs, i + 1, primary);
    }
}

// ---------------------------------------------------------------------------
// Returns
// ---------------------------------------------------------------------------

pub open spec fn rt1(acc: Seq<char>) -> Seq<char> {
    acc + "    (returns (union"@
}

pub open spec fn rt2(acc: Seq<char>, ep: EndpointView, primary: Seq<char>) -> Seq<char> {
    variant_forms(rt1(acc), ep.outputs, 0, primary)
}

/// `r` followed by the form of the returns of an endpoint.
pub open spec fn returns_run(r: Seq<Form>, ep: EndpointView, primary: Seq<char>) -> Seq<Form> {
    r.push(
        Form::List(
            returns_open_inner().push(
                Form::List(variants_run(returns_open_inner2(), ep.outputs, 0, primary)),
            ),
        ),
    )
}

/// Two closing parentheses that stand in the text.
proof fn lemma_two_close(src: Seq<char>, b: int)
    requires
        holds(src, b, "))"@),
    ensures
        0 <= b,
        b + 1 < src.len(),
        src[b] == ')',
        src[b + 1] == ')',
        !cont_at(src, b),
        "))"@.len() == 2,
{
    reveal(holds);
    reveal_strlit("))");
    assert(src[b + 0] == "))"@[0]);
    assert(src[b + 1] == "))"@[1]);
}

proof fn lemma_returns_parts(src: Seq<char>, x: int, acc: Seq<char>, ep: EndpointView, primary: Seq<char>)
    requires
        holds(src, x, returns_form(acc, ep, primary)),
    ensures
        holds(src, x, acc),
        holds(src, x, rt1(acc)),
        holds(src, x, rt2(acc, ep, primary)),
        !cont_at(src, x + rt1(acc).len()),
        rt1(acc).len() == acc.len() + 19,
        x + rt2(acc, ep, primary).len() + 1 < src.len(),
        src[x + rt2(acc, ep, primary).len()] == ')',
        src[x + rt2(acc, ep, primary).len() + 1] == ')',
        returns_form(acc, ep, primary).len() == rt2(acc, ep, primary).len() + 2,
{
    let s2 = rt2(acc, ep, primary);
    lemma_holds_split(src, x, s2, "))"@);
    lemma_two_close(src, x + s2.len());
    lemma_variants_cut(src, x, rt1(acc), ep.outputs, 0, primary);
    returns_open_cut(src, x, acc);
}

pub proof fn lemma_returns_cut(src: Seq<char>, x: int, acc: Seq<char>, ep: EndpointView, primary: Seq<char>)
    requires
        holds(src, x, returns_form(acc, ep, primary)),
    ensures
        holds(src, x, acc),
{
    lemma_returns_parts(src, x, acc, ep, primary);
}

/// The text of the returns holds the form of the returns.
pub proof fn lemma_returns(
    src: Seq<char>,
    p: int,
    r: Seq<Form>,
    x: int,
    acc: Seq<char>,
    ep: EndpointView,
    primary: Seq<char>,
)
    requires
        holds(src, x, returns_form(acc, ep, primary)),
        lands(src, p, r, x + acc.len()),
        plain_outputs(ep.outputs),
        symbol_text(primary),
    ensures
        lands(src, p, returns_run(r, ep, primary), x + returns_form(acc, ep, primary).len()),
{
    lemma_returns_parts(src, x, acc, ep, primary);
    let b = x + acc.len();
    let s2 = rt2(acc, ep, primary);
    returns_open_at(src, p, r, x, acc);
    lemma_variants(src, b + 14, returns_open_inner2(), x, rt1(acc), ep.outputs, 0, primary);
    let inner = variants_run(returns_open_inner2(), ep.outputs, 0, primary);
    step_list(src, b + 5, returns_open_inner(), b + 12, 1, inner, x + s2.len());
    step_list(
        src,
        p,
        r,
        b,
        4,
        returns_open_inner().push(Form::List(inner)),
        x + s2.len() + 1,
    );
}

} // verus!
