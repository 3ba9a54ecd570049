//! The forms that the text of a generated module holds.
//!
//! For a document whose words are each lexed as one token (`plain_doc`),
//! the text that the emitter writes holds one module form, `doc_form`; the
//! lemmas here follow the emitter function by function.

use vstd::prelude::*;
use crate::generate::pct_emitter::{type_text, field_form, field_forms, invariants_text, type_form,
    type_forms, effect_sets, store_name, any_reads, any_writes};
use crate::generate::segments::{field_open_inner, field_open_cut, field_open_at,
    flag_immutable_run, flag_immutable_cut, flag_immutable_at, flag_generated_run,
    flag_generated_cut, flag_generated_at, min_len_run, min_len_cut, min_len_at, max_len_run,
    max_len_cut, max_len_at, format_run, format_cut, format_at, unique_run, unique_cut, unique_at,
    strlen_rule_run, strlen_rule_cut, strlen_rule_at, email_rule_run, email_rule_cut,
    email_rule_at, type_open_inner, type_open_cut, type_open_at, invariants_open_run,
    invariants_open_cut, invariants_open_at, read_set_run, read_set_cut, read_set_at,
    write_set_run, write_set_cut, write_set_at, respond_set_run, respond_set_cut, respond_set_at};
use crate::generate::spec_ast::{FieldSpecView, DomainTypeView, SpecDocView};
use crate::layout::{lands, lemma_holds_split, lemma_first_char, lemma_blank_char,
    lemma_lands_blank, step_list, step_vector};
use crate::lexer::cont_at;
use crate::reading::Form;
use crate::text::{dec, left};
use crate::words::{holds, blank, symbol_text, keyword_text};

verus! {

/// Whether each word of a field is lexed as one token.
pub open spec fn plain_field(f: FieldSpecView) -> bool {
    &&& symbol_text(f.name)
    &&& symbol_text(type_text(f.field_type))
    &&& (f.min_len matches Some(n) ==> n <= i64::MAX)
    &&& (f.max_len matches Some(n) ==> n <= i64::MAX)
    &&& (f.format matches Some(fmt) ==> keyword_text(fmt))
}

pub open spec fn plain_fields(fields: Seq<FieldSpecView>) -> bool {
    forall|i: int| 0 <= i < fields.len() ==> plain_field(#[trigger] fields[i])
}

/// A character that ends a word stands at `q`.
pub proof fn lemma_break(src: Seq<char>, q: int, l: Seq<char>)
    requires
        holds(src, q, l),
        l == ")"@ || l == "]"@ || l == "}"@ || l == "\n"@ || l == " "@,
    ensures
        !cont_at(src, q),
        0 <= q < src.len(),
        src[q] == l[0],
        l.len() == 1,
{
    reveal_strlit(")");
    reveal_strlit("]");
    reveal_strlit("}");
    reveal_strlit("\n");
    reveal_strlit(" ");
    lemma_first_char(src, q, l);
}

// ---------------------------------------------------------------------------
// Fields
// ---------------------------------------------------------------------------

pub open spec fn fs1(acc: Seq<char>, f: FieldSpecView) -> Seq<char> {
    acc + "    (field "@ + f.name + " "@ + type_text(f.field_type)
}

pub open spec fn fs2(acc: Seq<char>, f: FieldSpecView) -> Seq<char> {
    if f.immutable {
        fs1(acc, f) + " :immutable"@
    } else {
        fs1(acc, f)
    }
}

pub open spec fn fs3(acc: Seq<char>, f: FieldSpecView) -> Seq<char> {
    if f.auto_generated {
        fs2(acc, f) + " :generated"@
    } else {
        fs2(acc, f)
    }
}

pub open spec fn fs4(acc: Seq<char>, f: FieldSpecView) -> Seq<char> {
    match f.min_len {
        Some(n) => fs3(acc, f) + " :min-len "@ + dec(n as nat),
        None => fs3(acc, f),
    }
}

pub open spec fn fs5(acc: Seq<char>, f: FieldSpecView) -> Seq<char> {
    match f.max_len {
        Some(n) => fs4(acc, f) + " :max-len "@ + dec(n as nat),
        None => fs4(acc, f),
    }
}

pub open spec fn fs6(acc: Seq<char>, f: FieldSpecView) -> Seq<char> {
    match f.format {
        Some(fmt) => fs5(acc, f) + " :format :"@ + fmt,
        None => fs5(acc, f),
    }
}

pub open spec fn fs7(acc: Seq<char>, f: FieldSpecView, store: Seq<char>) -> Seq<char> {
    if f.unique {
        fs6(acc, f) + " :unique-within "@ + store
    } else {
        fs6(acc, f)
    }
}

pub open spec fn fi2(f: FieldSpecView) -> Seq<Form> {
    let r = field_open_inner(f.name, type_text(f.field_type));
    if f.immutable {
        flag_immutable_run(r)
    } else {
        r
    }
}

pub open spec fn fi3(f: FieldSpecView) -> Seq<Form> {
    if f.auto_generated {
        flag_generated_run(fi2(f))
    } else {
        fi2(f)
    }
}

pub open spec fn fi4(f: FieldSpecView) -> Seq<Form> {
    match f.min_len {
        Some(n) => min_len_run(fi3(f), n as nat),
        None => fi3(f),
    }
}

pub open spec fn fi5(f: FieldSpecView) -> Seq<Form> {
    match f.max_len {
        Some(n) => max_len_run(fi4(f), n as nat),
        None => fi4(f),
    }
}

pub open spec fn fi6(f: FieldSpecView) -> Seq<Form> {
    match f.format {
        Some(fmt) => format_run(fi5(f), fmt),
        None => fi5(f),
    }
}

/// The items of the form of a field.
pub open spec fn field_items(f: FieldSpecView, store: Seq<char>) -> Seq<Form> {
    if f.unique {
        unique_run(fi6(f), store)
    } else {
        fi6(f)
    }
}

/// Where the text of a field stands, the text before it stands, and its
/// parts stand one behind the other, each followed by a character that
/// ends a word.
proof fn lemma_field_parts(src: Seq<char>, x: int, acc: Seq<char>, f: FieldSpecView, store: Seq<char>)
    requires
        holds(src, x, field_form(acc, f, store)),
    ensures
        holds(src, x, acc),
        holds(src, x, fs1(acc, f)),
        holds(src, x, fs2(acc, f)),
        holds(src, x, fs3(acc, f)),
        holds(src, x, fs4(acc, f)),
        holds(src, x, fs5(acc, f)),
        holds(src, x, fs6(acc, f)),
        holds(src, x, fs7(acc, f, store)),
        !cont_at(src, x + fs1(acc, f).len()),
        !cont_at(src, x + fs2(acc, f).len()),
        !cont_at(src, x + fs3(acc, f).len()),
        !cont_at(src, x + fs4(acc, f).len()),
        !cont_at(src, x + fs5(acc, f).len()),
        !cont_at(src, x + fs6(acc, f).len()),
        !cont_at(src, x + fs7(acc, f, store).len()),
        x + fs7(acc, f, store).len() < src.len(),
        src[x + fs7(acc, f, store).len()] == ')',
        field_form(acc, f, store).len() == fs7(acc, f, store).len() + 1,
{
    let s7 = fs7(acc, f, store);
    assert(field_form(acc, f, store) == s7 + ")"@);
    lemma_holds_split(src, x, s7, ")"@);
    lemma_break(src, x + s7.len(), ")"@);
    reveal_strlit(")");
    if f.unique {
        unique_cut(src, x, fs6(acc, f), store);
    }
    if let Some(fmt) = f.format {
        format_cut(src, x, fs5(acc, f), fmt);
    }
    if let Some(n) = f.max_len {
        max_len_cut(src, x, fs4(acc, f), n as nat);
    }
    if let Some(n) = f.min_len {
        min_len_cut(src, x, fs3(acc, f), n as nat);
    }
    if f.auto_generated {
        flag_generated_cut(src, x, fs2(acc, f));
    }
    if f.immutable {
        flag_immutable_cut(src, x, fs1(acc, f));
    }
    field_open_cut(src, x, acc, f.name, type_text(f.field_type));
}

/// The text of a field holds the form of the field.
pub proof fn lemma_field(
    src: Seq<char>,
    p: int,
    a: Seq<Form>,
    x: int,
    acc: Seq<char>,
    f: FieldSpecView,
    store: Seq<char>,
)
    requires
        holds(src, x, field_form(acc, f, store)),
        lands(src, p, a, x + acc.len()),
        plain_field(f),
        symbol_text(store),
    ensures
        lands(
            src,
            p,
            a.push(Form::List(field_items(f, store))),
            x + field_form(acc, f, store).len(),
        ),
{
    lemma_field_parts(src, x, acc, f, store);
    field_open_at(src, p, a, x, acc, f.name, type_text(f.field_type));
    let q = x + acc.len() + 4 + 1;
    if f.immutable {
        flag_immutable_at(src, q, field_open_inner(f.name, type_text(f.field_type)), x, fs1(acc, f));
    }
    if f.auto_generated {
        flag_generated_at(src, q, fi2(f), x, fs2(acc, f));
    }
    if let Some(n) = f.min_len {
        min_len_at(src, q, fi3(f), x, fs3(acc, f), n as nat);
    }
    if let Some(n) = f.max_len {
        max_len_at(src, q, fi4(f), x, fs4(acc, f), n as nat);
    }
    if let Some(fmt) = f.format {
        format_at(src, q, fi5(f), x, fs5(acc, f), fmt);
    }
    if f.unique {
        unique_at(src, q, fi6(f), x, fs6(acc, f), store);
    }
    step_list(src, p, a, x + acc.len(), 4, field_items(f, store), x + fs7(acc, f, store).len());
}

/// `a` followed by the forms of the fields from `i` on.
pub open spec fn fields_run(a: Seq<Form>, fields: Seq<FieldSpecView>, i: int, store: Seq<char>) -> Seq<
    Form,
>
    decreases left(fields.len(), i),
{
    if 0 <= i < fields.len() {
        fields_run(a.push(Form::List(field_items(fields[i], store))), fields, i + 1, store)
    } else {
        a
    }
}

pub proof fn lemma_fields_cut(
    src: Seq<char>,
    x: int,
    acc: Seq<char>,
    fields: Seq<FieldSpecView>,
    i: int,
    store: Seq<char>,
)
    requires
        0 <= i <= fields.len(),
        holds(src, x, field_forms(acc, fields, i, store)),
    ensures
        holds(src, x, acc),
    decreases fields.len() - i,
{
    if i < fields.len() {
        let s = field_form(acc, fields[i], store);
        if i + 1 < fields.len() {
            lemma_fields_cut(src, x, s + "\n"@, fields, i + 1, store);
            lemma_holds_split(src, x, s, "\n"@);
        } else {
            lemma_fields_cut(src, x, s, fields, i + 1, store);
        }
        lemma_field_parts(src, x, acc, fields[i], store);
    }
}

/// The text of the fields holds the forms of the fields.
pub proof fn lemma_fields(
    src: Seq<char>,
    p: int,
    a: Seq<Form>,
    x: int,
    acc: Seq<char>,
    fields: Seq<FieldSpecView>,
    i: int,
    store: Seq<char>,
)
    requires
        0 <= i <= fields.len(),
        holds(src, x, field_forms(acc, fields, i, store)),
        lands(src, p, a, x + acc.len()),
        plain_fields(fields),
        symbol_text(store),
    ensures
        lands(src, p, fields_run(a, fields, i, store), x + field_forms(acc, fields, i, store).len()),
    decreases fields.len() - i,
{
    if i < fields.len() {
        let f = fields[i];
        let s = field_form(acc, f, store);
        let next = a.push(Form::List(field_items(f, store)));
        if i + 1 < fields.len() {
            lemma_fields_cut(src, x, s + "\n"@, fields, i + 1, store);
            lemma_holds_split(src, x, s, "\n"@);
            lemma_field(src, p, a, x, acc, f, store);
            lemma_blank_char(src, x + s.len(), "\n"@);
            lemma_lands_blank(src, p, next, x + s.len(), 1);
            lemma_fields(src, p, next, x, s + "\n"@, fields, i + 1, store);
        } else {
            lemma_fields_cut(src, x, s, fields, i + 1, store);
            lemma_field(src, p, a, x, acc, f, store);
            lemma_fields(src, p, next, x, s, fields, i + 1, store);
        }
    }
}

// ---------------------------------------------------------------------------
// Invariants
// ---------------------------------------------------------------------------

/// `acc`, with a space behind it where a rule was written before.
pub open spec fn rule_sep(acc: Seq<char>, first: bool) -> Seq<char> {
    if first {
        acc
    } else {
        acc + " "@
    }
}

pub open spec fn has_strlen(f: FieldSpecView) -> bool {
    f.min_len matches Some(n) && n > 0
}

pub open spec fn has_email(f: FieldSpecView) -> bool {
    f.format == Some("email"@)
}

pub open spec fn inv_a(acc: Seq<char>, f: FieldSpecView, first: bool) -> (Seq<char>, bool) {
    if has_strlen(f) {
        (rule_sep(acc, first) + "(> (strlen "@ + f.name + ") 0)"@, false)
    } else {
        (acc, first)
    }
}

pub open spec fn inv_b(acc: Seq<char>, f: FieldSpecView, first: bool) -> (Seq<char>, bool) {
    let a = inv_a(acc, f, first);
    if has_email(f) {
        (rule_sep(a.0, a.1) + "(matches "@ + f.name + " #/.+@.+\\..+/)"@, false)
    } else {
        a
    }
}

/// `a` followed by the rules of the fields from `i` on.
pub open spec fn inv_run(a: Seq<Form>, fields: Seq<FieldSpecView>, i: int) -> Seq<Form>
    decreases left(fields.len(), i),
{
    if 0 <= i < fields.len() {
        let f = fields[i];
        let a1 = if has_strlen(f) {
            strlen_rule_run(a, f.name)
        } else {
            a
        };
        let a2 = if has_email(f) {
            email_rule_run(a1, f.name)
        } else {
            a1
        };
        inv_run(a2, fields, i + 1)
    } else {
        a
    }
}

proof fn lemma_sep_cut(src: Seq<char>, x: int, acc: Seq<char>, first: bool)
    requires
        holds(src, x, rule_sep(acc, first)),
    ensures
        holds(src, x, acc),
        !first ==> blank(src, x + acc.len(), 1),
        rule_sep(acc, first).len() == acc.len() + if first { 0int } else { 1int },
{
    if !first {
        lemma_holds_split(src, x, acc, " "@);
        lemma_blank_char(src, x + acc.len(), " "@);
    }
}

pub proof fn lemma_rules_cut(
    src: Seq<char>,
    x: int,
    acc: Seq<char>,
    fields: Seq<FieldSpecView>,
    i: int,
    first: bool,
)
    requires
        0 <= i <= fields.len(),
        holds(src, x, invariants_text(acc, fields, i, first).0),
    ensures
        holds(src, x, acc),
    decreases fields.len() - i,
{
    if i < fields.len() {
        let f = fields[i];
        let a = inv_a(acc, f, first);
        let b = inv_b(acc, f, first);
        assert(invariants_text(acc, fields, i, first) == invariants_text(b.0, fields, i + 1, b.1));
        lemma_rules_cut(src, x, b.0, fields, i + 1, b.1);
        if has_email(f) {
            email_rule_cut(src, x, rule_sep(a.0, a.1), f.name);
            lemma_sep_cut(src, x, a.0, a.1);
        }
        if has_strlen(f) {
            strlen_rule_cut(src, x, rule_sep(acc, first), f.name);
            lemma_sep_cut(src, x, acc, first);
        }
    }
}

/// The text of the rules holds the forms of the rules.
pub proof fn lemma_rules(
    src: Seq<char>,
    p: int,
    r: Seq<Form>,
    x: int,
    acc: Seq<char>,
    fields: Seq<FieldSpecView>,
    i: int,
    first: bool,
)
    requires
        0 <= i <= fields.len(),
        holds(src, x, invariants_text(acc, fields, i, first).0),
        lands(src, p, r, x + acc.len()),
        plain_fields(fields),
    ensures
        lands(src, p, inv_run(r, fields, i), x + invariants_text(acc, fields, i, first).0.len()),
    decreases fields.len() - i,
{
    if i < fields.len() {
        let f = fields[i];
        let a = inv_a(acc, f, first);
        let b = inv_b(acc, f, first);
        assert(invariants_text(acc, fields, i, first) == invariants_text(b.0, fields, i + 1, b.1));
        lemma_rules_cut(src, x, b.0, fields, i + 1, b.1);
        if has_email(f) {
            email_rule_cut(src, x, rule_sep(a.0, a.1), f.name);
            lemma_sep_cut(src, x, a.0, a.1);
        }
        let r1 = if has_strlen(f) {
            strlen_rule_run(r, f.name)
        } else {
            r
        };
        if has_strlen(f) {
            strlen_rule_cut(src, x, rule_sep(acc, first), f.name);
            lemma_sep_cut(src, x, acc, first);
            if !first {
                lemma_lands_blank(src, p, r, x + acc.len(), 1);
            }
            strlen_rule_at(src, p, r, x, rule_sep(acc, first), f.name);
        }
        let r2 = if has_email(f) {
            email_rule_run(r1, f.name)
        } else {
            r1
        };
        if has_email(f) {
            if !a.1 {
                lemma_lands_blank(src, p, r1, x + a.0.len(), 1);
            }
            email_rule_at(src, p, r1, x, rule_sep(a.0, a.1), f.name);
        }
        lemma_rules(src, p, r2, x, b.0, fields, i + 1, b.1);
    }
}

// ---------------------------------------------------------------------------
// Types
// ---------------------------------------------------------------------------

pub open spec fn ts1(acc: Seq<char>, t: DomainTypeView) -> Seq<char> {
    acc + "\n"@ + "  (type "@ + t.name + "\n"@
}

pub open spec fn rules_text(t: DomainTypeView) -> (Seq<char>, bool) {
    invariants_text(Seq::empty(), t.fields, 0, true)
}

pub open spec fn ts2(acc: Seq<char>, t: DomainTypeView) -> Seq<char> {
    if rules_text(t).1 {
        ts1(acc, t)
    } else {
        ts1(acc, t) + "    :invariants ["@ + rules_text(t).0 + "]"@ + "\n"@
    }
}

pub open spec fn ti2(t: DomainTypeView) -> Seq<Form> {
    if rules_text(t).1 {
        type_open_inner(t.name)
    } else {
        invariants_open_run(type_open_inner(t.name)).push(
            Form::Vector(inv_run(Seq::empty(), t.fields, 0)),
        )
    }
}

/// The items of the form of a type.
pub open spec fn type_items(t: DomainTypeView, store: Seq<char>) -> Seq<Form> {
    fields_run(ti2(t), t.fields, 0, store)
}

/// Whether each word of a type is lexed as one token.
pub open spec fn plain_type(t: DomainTypeView) -> bool {
    symbol_text(t.name) && plain_fields(t.fields)
}

pub open spec fn plain_types(types: Seq<DomainTypeView>) -> bool {
    forall|i: int| 0 <= i < types.len() ==> plain_type(#[trigger] types[i])
}

proof fn lemma_type_parts(src: Seq<char>, x: int, acc: Seq<char>, t: DomainTypeView, store: Seq<char>)
    requires
        holds(src, x, type_form(acc, t, store)),
    ensures
        holds(src, x, acc),
        holds(src, x, ts1(acc, t)),
        holds(src, x, ts2(acc, t)),
        holds(src, x, field_forms(ts2(acc, t), t.fields, 0, store)),
        !rules_text(t).1 ==> holds(src, x, ts1(acc, t) + "    :invariants ["@) && holds(
            src,
            x + (ts1(acc, t) + "    :invariants ["@).len(),
            rules_text(t).0,
        ) && holds(
            src,
            x + (ts1(acc, t) + "    :invariants ["@).len() + rules_text(t).0.len(),
            "]"@,
        ) && blank(
            src,
            x + (ts1(acc, t) + "    :invariants ["@).len() + rules_text(t).0.len() + 1,
            1,
        ) && ts2(acc, t).len() == (ts1(acc, t) + "    :invariants ["@).len() + rules_text(t).0.len()
            + 2 && (ts1(acc, t) + "    :invariants ["@).len() == ts1(acc, t).len() + 17 && x + (ts1(
            acc,
            t,
        ) + "    :invariants ["@).len() + rules_text(t).0.len() < src.len() && src[x + (ts1(acc, t)
            + "    :invariants ["@).len() + rules_text(t).0.len()] == ']',
        x + field_forms(ts2(acc, t), t.fields, 0, store).len() < src.len(),
        src[x + field_forms(ts2(acc, t), t.fields, 0, store).len()] == ')',
        type_form(acc, t, store).len() == field_forms(ts2(acc, t), t.fields, 0, store).len() + 1,
{
    let s1 = ts1(acc, t);
    let s2 = ts2(acc, t);
    let body = field_forms(s2, t.fields, 0, store);
    assert(type_form(acc, t, store) == body + ")"@);
    lemma_holds_split(src, x, body, ")"@);
    lemma_break(src, x + body.len(), ")"@);
    reveal_strlit(")");
    lemma_fields_cut(src, x, s2, t.fields, 0, store);
    if !rules_text(t).1 {
        let open = s1 + "    :invariants ["@;
        let inv = rules_text(t).0;
        lemma_holds_split(src, x, open + inv + "]"@, "\n"@);
        lemma_blank_char(src, x + (open + inv + "]"@).len(), "\n"@);
        lemma_holds_split(src, x, open + inv, "]"@);
        lemma_break(src, x + (open + inv).len(), "]"@);
        reveal_strlit("]");
        lemma_holds_split(src, x, open, inv);
        invariants_open_cut(src, x, s1);
    }
    type_open_cut(src, x, acc, t.name);
}

pub proof fn lemma_type_cut(src: Seq<char>, x: int, acc: Seq<char>, t: DomainTypeView, store: Seq<char>)
    requires
        holds(src, x, type_form(acc, t, store)),
    ensures
        holds(src, x, acc),
{
    lemma_type_parts(src, x, acc, t, store);
}

/// The text of a type holds the form of the type.
pub proof fn lemma_type(
    src: Seq<char>,
    p: int,
    a: Seq<Form>,
    x: int,
    acc: Seq<char>,
    t: DomainTypeView,
    store: Seq<char>,
)
    requires
        holds(src, x, type_form(acc, t, store)),
        lands(src, p, a, x + acc.len()),
        plain_type(t),
        symbol_text(store),
    ensures
        lands(src, p, a.push(Form::List(type_items(t, store))), x + type_form(acc, t, store).len()),
{
    lemma_type_parts(src, x, acc, t, store);
    let s1 = ts1(acc, t);
    let s2 = ts2(acc, t);
    type_open_at(src, p, a, x, acc, t.name);
    let q = x + acc.len() + 3 + 1;
    if !rules_text(t).1 {
        let open = s1 + "    :invariants ["@;
        let inv = rules_text(t).0;
        let head = invariants_open_run(type_open_inner(t.name));
        invariants_open_at(src, q, type_open_inner(t.name), x, s1);
        let start = x + open.len();
        lemma_rules(src, start, Seq::empty(), start, Seq::empty(), t.fields, 0, true);
        reveal_strlit("]");
        step_vector(
            src,
            q,
            head,
            x + s1.len() + 15,
            1,
            inv_run(Seq::empty(), t.fields, 0),
            start + inv.len(),
        );
        lemma_lands_blank(src, q, ti2(t), start + inv.len() + 1, 1);
    }
    lemma_fields(src, q, ti2(t), x, s2, t.fields, 0, store);
    step_list(
        src,
        p,
        a,
        x + acc.len(),
        3,
        type_items(t, store),
        x + field_forms(s2, t.fields, 0, store).len(),
    );
}

/// `a` followed by the forms of the types from `i` on.
pub open spec fn types_run(a: Seq<Form>, types: Seq<DomainTypeView>, i: int, store: Seq<char>) -> Seq<
    Form,
>
    decreases left(types.len(), i),
{
    if 0 <= i < types.len() {
        types_run(a.push(Form::List(type_items(types[i], store))), types, i + 1, store)
    } else {
        a
    }
}

pub proof fn lemma_types_cut(
    src: Seq<char>,
    x: int,
    acc: Seq<char>,
    types: Seq<DomainTypeView>,
    i: int,
    store: Seq<char>,
)
    requires
        0 <= i <= types.len(),
        holds(src, x, type_forms(acc, types, i, store)),
    ensures
        holds(src, x, acc),
    decreases types.len() - i,
{
    if i < types.len() {
        let s = type_form(acc, types[i], store);
        lemma_types_cut(src, x, s + "\n"@, types, i + 1, store);
        lemma_holds_split(src, x, s, "\n"@);
        lemma_type_cut(src, x, acc, types[i], store);
    }
}

/// The text of the types holds the forms of the types.
pub proof fn lemma_types(
    src: Seq<char>,
    p: int,
    a: Seq<Form>,
    x: int,
    acc: Seq<char>,
    types: Seq<DomainTypeView>,
    i: int,
    store: Seq<char>,
)
    requires
        0 <= i <= types.len(),
        holds(src, x, type_forms(acc, types, i, store)),
        lands(src, p, a, x + acc.len()),
        plain_types(types),
        symbol_text(store),
    ensures
        lands(src, p, types_run(a, types, i, store), x + type_forms(acc, types, i, store).len()),
    decreases types.len() - i,
{
    if i < types.len() {
        let t = types[i];
        let s = type_form(acc, t, store);
        let next = a.push(Form::List(type_items(t, store)));
        lemma_types_cut(src, x, s + "\n"@, types, i + 1, store);
        lemma_holds_split(src, x, s, "\n"@);
        lemma_type(src, p, a, x, acc, t, store);
        lemma_blank_char(src, x + s.len(), "\n"@);
        lemma_lands_blank(src, p, next, x + s.len(), 1);
        lemma_types(src, p, next, x, s + "\n"@, types, i + 1, store);
    }
}

// ---------------------------------------------------------------------------
// Effect sets
// ---------------------------------------------------------------------------

pub open spec fn doc_reads(d: SpecDocView) -> bool {
    any_reads(d.endpoints, d.endpoints.len() as int)
}

pub open spec fn doc_writes(d: SpecDocView) -> bool {
    any_writes(d.endpoints, d.endpoints.len() as int)
}

pub open spec fn es1(acc: Seq<char>, d: SpecDocView) -> Seq<char> {
    if doc_reads(d) {
        acc + "\n"@ + "  (effect-set db-read    [:reads  "@ + store_name(d) + "])"@
    } else {
        acc
    }
}

pub open spec fn es2(acc: Seq<char>, d: SpecDocView) -> Seq<char> {
    if doc_writes(d) {
        es1(acc, d) + "\n"@ + "  (effect-set db-write   [:writes "@ + store_name(d) + " :reads "@
            + store_name(d) + "])"@
    } else {
        es1(acc, d)
    }
}

pub open spec fn ei1(a: Seq<Form>, d: SpecDocView) -> Seq<Form> {
    if doc_reads(d) {
        read_set_run(a, store_name(d))
    } else {
        a
    }
}

pub open spec fn ei2(a: Seq<Form>, d: SpecDocView) -> Seq<Form> {
    if doc_writes(d) {
        write_set_run(ei1(a, d), store_name(d))
    } else {
        ei1(a, d)
    }
}

/// `a` followed by the forms of the effect sets of a document.
pub open spec fn sets_run(a: Seq<Form>, d: SpecDocView) -> Seq<Form> {
    if doc_reads(d) || doc_writes(d) {
        respond_set_run(ei2(a, d))
    } else {
        ei2(a, d)
    }
}

proof fn lemma_sets_parts(src: Seq<char>, x: int, acc: Seq<char>, d: SpecDocView)
    requires
        holds(src, x, effect_sets(acc, d)),
    ensures
        holds(src, x, acc),
        holds(src, x, es1(acc, d)),
        holds(src, x, es2(acc, d)),
{
    if doc_reads(d) || doc_writes(d) {
        respond_set_cut(src, x, es2(acc, d));
    }
    if doc_writes(d) {
        write_set_cut(src, x, es1(acc, d), store_name(d));
    }
    if doc_reads(d) {
        read_set_cut(src, x, acc, store_name(d));
    }
}

pub proof fn lemma_sets_cut(src: Seq<char>, x: int, acc: Seq<char>, d: SpecDocView)
    requires
        holds(src, x, effect_sets(acc, d)),
    ensures
        holds(src, x, acc),
{
    lemma_sets_parts(src, x, acc, d);
}

/// The text of the effect sets holds their forms.
pub proof fn lemma_sets(src: Seq<char>, p: int, a: Seq<Form>, x: int, acc: Seq<char>, d: SpecDocView)
    requires
        holds(src, x, effect_sets(acc, d)),
        lands(src, p, a, x + acc.len()),
        symbol_text(store_name(d)),
    ensures
        lands(src, p, sets_run(a, d), x + effect_sets(acc, d).len()),
{
    lemma_sets_parts(src, x, acc, d);
    if doc_reads(d) {
        read_set_at(src, p, a, x, acc, store_name(d));
    }
    if doc_writes(d) {
        write_set_at(src, p, ei1(a, d), x, es1(acc, d), store_name(d));
    }
    if doc_reads(d) || doc_writes(d) {
        respond_set_at(src, p, ei2(a, d), x, es2(acc, d));
    }
}

} // verus!
