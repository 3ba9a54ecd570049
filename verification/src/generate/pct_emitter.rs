//! Spec emitter: writes a typed specification document as source text of
//! the spec language, one module per document.

use vstd::prelude::*;
use vstd::string::{StringExecFns, StrSliceExecFns};
use crate::ast::strs_view;
use crate::generate::spec_ast::{SpecDoc, SpecDocView, DomainType, DomainTypeView, FieldSpec,
    FieldSpecView, FieldType, FieldTypeView, Endpoint, EndpointView, InputSpec, InputSpecView,
    InputSource, OutputSpec, OutputSpecView, Constraint, ConstraintView, QualityRule,
    QualityRuleView, Traceability, TraceabilityView, field_specs_view, domain_types_view,
    outputs_view, constraints_view, endpoints_view, quality_view};
use crate::strings::{contains, find_from, find_sub, has_prefix, has_sub, slice_chars, starts_with};
use crate::text::{alphanumeric, chars_of, dec, is_alphanumeric, left, lower_text, owned, push_u64,
    str_eq, str_lower, string_from, string_of, u64_text};

verus! {

broadcast use {crate::generate::spec_ast::group_spec_views, crate::ast::group_ast_views};

/// The characters of `s` from `i` on as part of a slug, appended to `acc`:
/// a space becomes `-`; of the rest, letters, numbers and `-` are kept.
pub open spec fn slug_from(s: Seq<char>, i: int, acc: Seq<char>) -> Seq<char>
    decreases left(s.len(), i),
{
    if 0 <= i < s.len() {
        slug_from(
            s,
            i + 1,
            if s[i] == ' ' || s[i] == '-' {
                acc.push('-')
            } else if alphanumeric(s[i]) {
                acc.push(s[i])
            } else {
                acc
            },
        )
    } else {
        acc
    }
}

/// The slug of a text: lower case, spaces as `-`, and nothing but letters,
/// numbers and `-`.
pub open spec fn slug(s: Seq<char>) -> Seq<char> {
    slug_from(lower_text(s), 0, Seq::empty())
}

/// The slug of a text.
pub fn slugify(s: &str) -> (r: String)
    ensures
        r@ == slug(s@),
{
    let lower = str_lower(s);
    let chars = chars_of(lower.as_str());
    let mut r = String::new();
    let mut i: usize = 0;
    while i < chars.len()
        invariant
            i <= chars.len(),
            slug_from(chars@, i as int, r@) == slug_from(chars@, 0, Seq::empty()),
        decreases chars.len() - i,
    {
        let c = chars[i];
        if c == ' ' || c == '-' {
            r.push('-');
        } else if is_alphanumeric(c) {
            r.push(c);
        }
        i += 1;
    }
    r
}

/// The name of the module: the slug of the title.
pub open spec fn module_name(d: SpecDocView) -> Seq<char> {
    slug(d.title)
}

/// The name of the store: the lowercase name of the first domain type
/// followed by `-store`.
pub open spec fn store_name(d: SpecDocView) -> Seq<char> {
    if d.domain_types.len() > 0 {
        lower_text(d.domain_types[0].name) + "-store"@
    } else {
        "data-store"@
    }
}

/// The name of the primary type: that of the first domain type.
pub open spec fn primary_type(d: SpecDocView) -> Seq<char> {
    if d.domain_types.len() > 0 {
        d.domain_types[0].name
    } else {
        "Entity"@
    }
}

/// The name of a field type in the spec language.
pub open spec fn type_text(t: FieldTypeView) -> Seq<char> {
    match t {
        FieldTypeView::StringType => "String"@,
        FieldTypeView::UuidType => "UUID"@,
        FieldTypeView::IntType => "Int"@,
        FieldTypeView::BoolType => "Bool"@,
        FieldTypeView::Unknown(s) => if s.len() == 0 {
            "String"@
        } else {
            s
        },
    }
}

fn type_name_of(t: &FieldType) -> (r: &str)
    ensures
        r@ == type_text(t@),
{
    match t {
        FieldType::StringType => "String",
        FieldType::UuidType => "UUID",
        FieldType::IntType => "Int",
        FieldType::BoolType => "Bool",
        FieldType::Unknown(s) => {
            if s.as_str().unicode_len() == 0 {
                "String"
            } else {
                s.as_str()
            }
        },
    }
}

/// One field form, with the keywords of its properties.
pub open spec fn field_form(acc: Seq<char>, f: FieldSpecView, store: Seq<char>) -> Seq<char> {
    let s = acc + "    (field "@ + f.name + " "@ + type_text(f.field_type);
    let s = if f.immutable {
        s + " :immutable"@
    } else {
        s
    };
    let s = if f.auto_generated {
        s + " :generated"@
    } else {
        s
    };
    let s = match f.min_len {
        Some(n) => s + " :min-len "@ + dec(n as nat),
        None => s,
    };
    let s = match f.max_len {
        Some(n) => s + " :max-len "@ + dec(n as nat),
        None => s,
    };
    let s = match f.format {
        Some(fmt) => s + " :format :"@ + fmt,
        None => s,
    };
    let s = if f.unique {
        s + " :unique-within "@ + store
    } else {
        s
    };
    s + ")"@
}

fn emit_field(out: &mut String, field: &FieldSpec, store: &str)
    ensures
        final(out)@ == field_form(old(out)@, field@, store@),
{
    out.append("    (field ");
    out.append(field.name.as_str());
    out.append(" ");
    out.append(type_name_of(&field.field_type));
    if field.immutable {
        out.append(" :immutable");
    }
    if field.auto_generated {
        out.append(" :generated");
    }
    if let Some(n) = field.min_len {
        out.append(" :min-len ");
        push_u64(out, n as u64);
    }
    if let Some(n) = field.max_len {
        out.append(" :max-len ");
        push_u64(out, n as u64);
    }
    if let Some(fmt) = &field.format {
        out.append(" :format :");
        out.append(fmt.as_str());
    }
    if field.unique {
        out.append(" :unique-within ");
        out.append(store);
    }
    out.append(")");
}

/// The field forms from `i` on, one per line.
pub open spec fn field_forms(acc: Seq<char>, fields: Seq<FieldSpecView>, i: int, store: Seq<char>) -> Seq<
    char,
>
    decreases left(fields.len(), i),
{
    if 0 <= i < fields.len() {
        let s = field_form(acc, fields[i], store);
        field_forms(
            if i + 1 < fields.len() {
                s + "\n"@
            } else {
                s
            },
            fields,
            i + 1,
            store,
        )
    } else {
        acc
    }
}

/// The invariants of the fields from `i` on, separated by one space: a
/// field with a least length above zero is never empty, and a field in
/// email format matches the email pattern. `first` tells that none was
/// written yet.
pub open spec fn invariants_text(acc: Seq<char>, fields: Seq<FieldSpecView>, i: int, first: bool) -> (
    Seq<char>,
    bool,
)
    decreases left(fields.len(), i),
{
    if 0 <= i < fields.len() {
        let f = fields[i];
        let a = if f.min_len matches Some(n) && n > 0 {
            (
                (if first {
                    acc
                } else {
                    acc + " "@
                }) + "(> (strlen "@ + f.name + ") 0)"@,
                false,
            )
        } else {
            (acc, first)
        };
        let b = if f.format == Some("email"@) {
            (
                (if a.1 {
                    a.0
                } else {
                    a.0 + " "@
                }) + "(matches "@ + f.name + " #/.+@.+\\..+/)"@,
                false,
            )
        } else {
            a
        };
        invariants_text(b.0, fields, i + 1, b.1)
    } else {
        (acc, first)
    }
}

/// One type form: its invariants, then its fields.
pub open spec fn type_form(acc: Seq<char>, t: DomainTypeView, store: Seq<char>) -> Seq<char> {
    let s = acc + "\n"@ + "  (type "@ + t.name + "\n"@;
    let inv = invariants_text(Seq::empty(), t.fields, 0, true);
    let s = if inv.1 {
        s
    } else {
        s + "    :invariants ["@ + inv.0 + "]"@ + "\n"@
    };
    field_forms(s, t.fields, 0, store) + ")"@
}

fn build_invariants(fields: &Vec<FieldSpec>) -> (r: (String, bool))
    ensures
        (r.0@, r.1) == invariants_text(Seq::empty(), field_specs_view(fields@), 0, true),
{
    let ghost vs = field_specs_view(fields@);
    let mut text = String::new();
    let mut first = true;
    let mut i: usize = 0;
    while i < fields.len()
        invariant
            i <= fields.len(),
            invariants_text(text@, vs, i as int, first) == invariants_text(
                Seq::empty(),
                vs,
                0,
                true,
            ),
        decreases fields.len() - i,
    {
        let field = &fields[i];
        let positive = match field.min_len {
            Some(n) => n > 0,
            None => false,
        };
        if positive {
            if !first {
                text.append(" ");
            }
            text.append("(> (strlen ");
            text.append(field.name.as_str());
            text.append(") 0)");
            first = false;
        }
        let email = match &field.format {
            Some(fmt) => str_eq(fmt.as_str(), "email"),
            None => false,
        };
        if email {
            if !first {
                text.append(" ");
            }
            text.append("(matches ");
            text.append(field.name.as_str());
            text.append(" #/.+@.+\\..+/)");
            first = false;
        }
        i += 1;
    }
    (text, first)
}

fn emit_type_def(out: &mut String, dt: &DomainType, store: &str)
    ensures
        final(out)@ == type_form(old(out)@, dt@, store@),
{
    out.append("\n");
    out.append("  (type ");
    out.append(dt.name.as_str());
    out.append("\n");
    let (inv, none) = build_invariants(&dt.fields);
    if !none {
        out.append("    :invariants [");
        out.append(inv.as_str());
        out.append("]");
        out.append("\n");
    }
    let ghost vs = field_specs_view(dt.fields@);
    let ghost start = out@;
    let mut i: usize = 0;
    while i < dt.fields.len()
        invariant
            i <= dt.fields.len(),
            field_forms(out@, vs, i as int, store@) == field_forms(start, vs, 0, store@),
        decreases dt.fields.len() - i,
    {
        emit_field(out, &dt.fields[i], store);
        if i + 1 < dt.fields.len() {
            out.append("\n");
        }
        i += 1;
    }
    out.append(")");
}

/// Whether one of the first `n` constraints says read-only or write.
pub open spec fn has_access(cs: Seq<ConstraintView>, n: int) -> bool
    decreases n,
{
    if n <= 0 || n > cs.len() {
        false
    } else {
        cs[n - 1] is ReadOnly || cs[n - 1] is Write || has_access(cs, n - 1)
    }
}

/// Whether one of the first `n` constraints is `c`, for a constraint
/// without text.
pub open spec fn has_constraint(cs: Seq<ConstraintView>, c: ConstraintView, n: int) -> bool
    decreases n,
{
    if n <= 0 || n > cs.len() {
        false
    } else {
        cs[n - 1] == c || has_constraint(cs, c, n - 1)
    }
}

/// Whether an endpoint reads: it says read-only, or it says nothing of
/// access and takes its input from the URL.
pub open spec fn reads(ep: EndpointView) -> bool {
    has_constraint(ep.constraints, ConstraintView::ReadOnly, ep.constraints.len() as int) || (
    !has_access(ep.constraints, ep.constraints.len() as int) && ep.input.source
        == InputSource::Url)
}

/// Whether an endpoint writes: it says write, or it says nothing of access
/// and takes its input from the body.
pub open spec fn writes(ep: EndpointView) -> bool {
    has_constraint(ep.constraints, ConstraintView::Write, ep.constraints.len() as int) || (
    !has_access(ep.constraints, ep.constraints.len() as int) && ep.input.source
        == InputSource::Body)
}

pub open spec fn any_reads(eps: Seq<EndpointView>, n: int) -> bool
    decreases n,
{
    if n <= 0 || n > eps.len() {
        false
    } else {
        reads(eps[n - 1]) || any_reads(eps, n - 1)
    }
}

pub open spec fn any_writes(eps: Seq<EndpointView>, n: int) -> bool
    decreases n,
{
    if n <= 0 || n > eps.len() {
        false
    } else {
        writes(eps[n - 1]) || any_writes(eps, n - 1)
    }
}

/// The effect sets of the module: `db-read` where an endpoint reads,
/// `db-write` where one writes, and `http-respond` where either holds.
pub open spec fn effect_sets(acc: Seq<char>, d: SpecDocView) -> Seq<char> {
    let store = store_name(d);
    let r = any_reads(d.endpoints, d.endpoints.len() as int);
    let w = any_writes(d.endpoints, d.endpoints.len() as int);
    let s = if r {
        acc + "\n"@ + "  (effect-set db-read    [:reads  "@ + store + "])"@
    } else {
        acc
    };
    let s = if w {
        s + "\n"@ + "  (effect-set db-write   [:writes "@ + store + " :reads "@ + store + "])"@
    } else {
        s
    };
    if r || w {
        s + "\n"@ + "  (effect-set http-respond [:sends http-response])"@
    } else {
        s
    }
}

fn constraint_flags(cs: &Vec<Constraint>) -> (r: (bool, bool))
    ensures
        r.0 == has_constraint(constraints_view(cs@), ConstraintView::ReadOnly, cs@.len() as int),
        r.1 == has_constraint(constraints_view(cs@), ConstraintView::Write, cs@.len() as int),
        (r.0 || r.1) == has_access(constraints_view(cs@), cs@.len() as int),
{
    let ghost vs = constraints_view(cs@);
    let mut ro = false;
    let mut wr = false;
    let mut i: usize = 0;
    while i < cs.len()
        invariant
            i <= cs.len(),
            ro == has_constraint(vs, ConstraintView::ReadOnly, i as int),
            wr == has_constraint(vs, ConstraintView::Write, i as int),
            (ro || wr) == has_access(vs, i as int),
        decreases cs.len() - i,
    {
        match &cs[i] {
            Constraint::ReadOnly => {
                ro = true;
            },
            Constraint::Write => {
                wr = true;
            },
            _ => {},
        }
        i += 1;
    }
    (ro, wr)
}

fn is_url(source: InputSource) -> (r: bool)
    ensures
        r == (source == InputSource::Url),
{
    match source {
        InputSource::Url => true,
        _ => false,
    }
}

fn is_body(source: InputSource) -> (r: bool)
    ensures
        r == (source == InputSource::Body),
{
    match source {
        InputSource::Body => true,
        _ => false,
    }
}

fn endpoint_reads(ep: &Endpoint) -> (r: bool)
    ensures
        r == reads(ep@),
{
    let (ro, wr) = constraint_flags(&ep.constraints);
    ro || (!(ro || wr) && is_url(ep.input.source))
}

fn endpoint_writes(ep: &Endpoint) -> (r: bool)
    ensures
        r == writes(ep@),
{
    let (ro, wr) = constraint_flags(&ep.constraints);
    wr || (!(ro || wr) && is_body(ep.input.source))
}

fn derive_store_name(spec: &SpecDoc) -> (r: String)
    ensures
        r@ == store_name(spec@),
{
    if spec.domain_types.len() > 0 {
        let mut r = str_lower(spec.domain_types[0].name.as_str());
        r.append("-store");
        r
    } else {
        owned("data-store")
    }
}

fn emit_effect_sets(out: &mut String, spec: &SpecDoc, store: &str)
    requires
        store@ == store_name(spec@),
    ensures
        final(out)@ == effect_sets(old(out)@, spec@),
{
    let ghost eps = endpoints_view(spec.endpoints@);
    let mut has_read = false;
    let mut has_write = false;
    let mut i: usize = 0;
    while i < spec.endpoints.len()
        invariant
            i <= spec.endpoints.len(),
            has_read == any_reads(eps, i as int),
            has_write == any_writes(eps, i as int),
        decreases spec.endpoints.len() - i,
    {
        if endpoint_reads(&spec.endpoints[i]) {
            has_read = true;
        }
        if endpoint_writes(&spec.endpoints[i]) {
            has_write = true;
        }
        i += 1;
    }
    if has_read {
        out.append("\n");
        out.append("  (effect-set db-read    [:reads  ");
        out.append(store);
        out.append("])");
    }
    if has_write {
        out.append("\n");
        out.append("  (effect-set db-write   [:writes ");
        out.append(store);
        out.append(" :reads ");
        out.append(store);
        out.append("])");
    }
    if has_read || has_write {
        out.append("\n");
        out.append("  (effect-set http-respond [:sends http-response])");
    }
}


/// Whether the function of an endpoint is read-only: it says so, or it
/// takes its input from the URL and does not say write.
pub open spec fn fn_read_only(ep: EndpointView) -> bool {
    has_constraint(ep.constraints, ConstraintView::ReadOnly, ep.constraints.len() as int) || (
    ep.input.source == InputSource::Url && !has_constraint(
        ep.constraints,
        ConstraintView::Write,
        ep.constraints.len() as int,
    ))
}

/// Whether the function of an endpoint writes: it says so, or it takes its
/// input from the body.
pub open spec fn fn_writes(ep: EndpointView) -> bool {
    has_constraint(ep.constraints, ConstraintView::Write, ep.constraints.len() as int)
        || ep.input.source == InputSource::Body
}

/// Whether the function of an endpoint takes the identifier from the URL
/// and reads by it.
pub open spec fn by_id(ep: EndpointView) -> bool {
    fn_read_only(ep) || ep.input.source == InputSource::Url
}

/// The effect sets that the function of an endpoint declares.
pub open spec fn fn_effects(ep: EndpointView) -> Seq<char> {
    if fn_writes(ep) {
        "[db-write http-respond]"@
    } else if fn_read_only(ep) {
        "[db-read http-respond]"@
    } else {
        "[http-respond]"@
    }
}

/// One latency line for each response-time constraint from `i` on.
pub open spec fn latency_lines(acc: Seq<char>, cs: Seq<ConstraintView>, i: int) -> Seq<char>
    decreases left(cs.len(), i),
{
    if 0 <= i < cs.len() {
        latency_lines(
            match cs[i] {
                ConstraintView::MaxResponseTime(t) => acc + "    :latency-budget "@ + t + "\n"@,
                _ => acc,
            },
            cs,
            i + 1,
        )
    } else {
        acc
    }
}

/// One idempotency line for each idempotency constraint from `i` on.
pub open spec fn idempotency_lines(acc: Seq<char>, cs: Seq<ConstraintView>, i: int) -> Seq<char>
    decreases left(cs.len(), i),
{
    if 0 <= i < cs.len() {
        idempotency_lines(
            match cs[i] {
                ConstraintView::Idempotent(field) => acc + "    :idempotency-key (hash (. input "@
                    + field + "))"@ + "\n"@,
                _ => acc,
            },
            cs,
            i + 1,
        )
    } else {
        acc
    }
}

/// The callers from `i` on, each as `dep/handle-request`, separated by one space.
pub open spec fn callers(acc: Seq<char>, deps: Seq<Seq<char>>, i: int) -> Seq<char>
    decreases left(deps.len(), i),
{
    if 0 <= i < deps.len() {
        let sep = if i > 0 {
            acc + " "@
        } else {
            acc
        };
        callers(sep + deps[i] + "/handle-request"@, deps, i + 1)
    } else {
        acc
    }
}

pub open spec fn called_by_line(acc: Seq<char>, d: SpecDocView) -> Seq<char> {
    if d.traceability.known_dependencies.len() > 0 {
        callers(acc + "    :called-by  ["@, d.traceability.known_dependencies, 0) + "]"@ + "\n"@
    } else {
        acc
    }
}

/// The parameter of a function that reads by identifier.
pub open spec fn url_param(acc: Seq<char>) -> Seq<char> {
    acc + "    (param id UUID"@ + "\n"@ + "      :source http-path-param"@ + "\n"@
        + "      :validated-at boundary)"@
}

/// The entries of the input map from `i` on: the fields that are neither
/// generated nor immutable, each as `:name Type`.
pub open spec fn input_entries(acc: Seq<char>, fields: Seq<FieldSpecView>, i: int, first: bool) -> Seq<
    char,
>
    decreases left(fields.len(), i),
{
    if 0 <= i < fields.len() {
        if !fields[i].auto_generated && !fields[i].immutable {
            let sep = if first {
                acc
            } else {
                acc + " "@
            };
            input_entries(
                sep + ":"@ + fields[i].name + " "@ + type_text(fields[i].field_type),
                fields,
                i + 1,
                false,
            )
        } else {
            input_entries(acc, fields, i + 1, first)
        }
    } else {
        acc
    }
}

/// The parameter of a function that takes its input from the body.
pub open spec fn body_param(acc: Seq<char>, d: SpecDocView) -> Seq<char> {
    let s = acc + "    (param input "@ + "{"@;
    let s = if d.domain_types.len() > 0 {
        input_entries(s, d.domain_types[0].fields, 0, true)
    } else {
        s
    };
    s + "}"@ + "\n"@ + "      :source http-body"@ + "\n"@ + "      :content-type :json"@ + "\n"@
        + "      :validated-at boundary)"@
}

/// The payload of an error variant, chosen by its tag.
pub open spec fn tag_payload(acc: Seq<char>, tag: Seq<char>) -> Seq<char> {
    if contains(tag, "not-found"@) || contains(tag, "invalid"@) {
        acc + "{:id id}"@
    } else if contains(tag, "duplicate"@) {
        let field = if starts_with(tag, "duplicate-"@) {
            tag.subrange(10, tag.len() as int)
        } else {
            "field"@
        };
        acc + "{:"@ + field + " (. input "@ + field + ")}"@
    } else if contains(tag, "validation"@) {
        acc + "(list ValidationError)"@
    } else {
        acc + "{}"@
    }
}

/// The status of a variant as ` :http N`, or nothing.
pub open spec fn http_text(acc: Seq<char>, status: Option<u16>) -> Seq<char> {
    match status {
        Some(n) => acc + " :http "@ + dec(n as nat),
        None => acc,
    }
}

/// One variant for an output: `ok` with the primary type for a success,
/// else `err` with the slug of the label as its tag.
pub open spec fn variant_form(acc: Seq<char>, o: OutputSpecView, primary: Seq<char>) -> Seq<char> {
    if o.is_success {
        http_text(acc + "\n"@ + "      (ok   "@ + primary, o.http_status) + "  :serialize :json)"@
    } else {
        http_text(
            tag_payload(acc + "\n"@ + "      (err  :"@ + slug(o.label) + " "@, slug(o.label)),
            o.http_status,
        ) + ")"@
    }
}

pub open spec fn variant_forms(acc: Seq<char>, outputs: Seq<OutputSpecView>, i: int, primary: Seq<char>) -> Seq<
    char,
>
    decreases left(outputs.len(), i),
{
    if 0 <= i < outputs.len() {
        variant_forms(variant_form(acc, outputs[i], primary), outputs, i + 1, primary)
    } else {
        acc
    }
}

/// The returns form of a function: one variant per output.
pub open spec fn returns_form(acc: Seq<char>, ep: EndpointView, primary: Seq<char>) -> Seq<char> {
    variant_forms(acc + "    (returns (union"@, ep.outputs, 0, primary) + "))"@
}

/// The body of a function that reads by identifier.
pub open spec fn read_body(acc: Seq<char>, store: Seq<char>) -> Seq<char> {
    acc + "    (let [validated-id (validate-uuid id)]"@ + "\n"@ + "      (match validated-id"@
        + "\n"@ + "        (err _)    (err :invalid-id {:id id})"@ + "\n"@
        + "        (ok  uuid) (match (query "@ + store + " {:id uuid})"@ + "\n"@
        + "          (none)   (err :not-found {:id uuid})"@ + "\n"@
        + "          (some u) (ok u))))"@
}

/// The characters of `s` from `i` on with each space as `-`.
pub open spec fn dashed_from(s: Seq<char>, i: int, acc: Seq<char>) -> Seq<char>
    decreases left(s.len(), i),
{
    if 0 <= i < s.len() {
        dashed_from(
            s,
            i + 1,
            if s[i] == ' ' {
                acc.push('-')
            } else {
                acc.push(s[i])
            },
        )
    } else {
        acc
    }
}

/// The field that the first output from `i` on names as duplicate: what
/// follows the first space of a label that starts with `duplicate`, in lower
/// case and with `-` for each space.
pub open spec fn unique_field(outputs: Seq<OutputSpecView>, i: int) -> Option<Seq<char>>
    decreases left(outputs.len(), i),
{
    if 0 <= i < outputs.len() {
        let label = outputs[i].label;
        match find_from(label, " "@, 0) {
            Some(k) => if starts_with(lower_text(label), "duplicate"@) {
                Some(
                    dashed_from(
                        lower_text(label.subrange(k + 1, label.len() as int)),
                        0,
                        Seq::empty(),
                    ),
                )
            } else {
                unique_field(outputs, i + 1)
            },
            None => unique_field(outputs, i + 1),
        }
    } else {
        None
    }
}

/// The body of a function that writes.
pub open spec fn write_body(acc: Seq<char>, store: Seq<char>, primary: Seq<char>, ep: EndpointView) -> Seq<
    char,
> {
    let s = acc + "    (let [errors (validate-against "@ + primary + " input)]"@ + "\n"@
        + "      (if (non-empty? errors)"@ + "\n"@ + "        (err :validation-failed errors)"@
        + "\n"@ + "        (match (insert! "@ + store + " (build "@ + primary + " input))"@ + "\n"@;
    let s = match unique_field(ep.outputs, 0) {
        Some(field) => s + "          (err :unique-violation) (err :duplicate-"@ + field + " {:"@
            + field + " (. input "@ + field + ")})"@,
        None => s + "          (err :unique-violation) (err :duplicate {:input input})"@,
    };
    s + "\n"@ + "          (ok entity)             (ok entity))))"@
}

/// One function for an endpoint.
pub open spec fn endpoint_fn(acc: Seq<char>, ep: EndpointView, d: SpecDocView, all_total: bool) -> Seq<
    char,
> {
    let store = store_name(d);
    let primary = primary_type(d);
    let s = acc + "\n"@ + "\n"@ + "  (fn "@ + ep.name + "\n"@ + "    :provenance {req: \""@
        + d.spec_id + "\"}"@ + "\n"@ + "    :effects    "@ + fn_effects(ep) + "\n"@;
    let s = if all_total {
        s + "    :total      true"@ + "\n"@
    } else {
        s
    };
    let s = latency_lines(s, ep.constraints, 0);
    let s = idempotency_lines(s, ep.constraints, 0);
    let s = called_by_line(s, d);
    let s = if by_id(ep) {
        url_param(s)
    } else {
        body_param(s, d)
    };
    let s = returns_form(s + "\n"@, ep, primary) + "\n"@ + "\n"@;
    let s = if by_id(ep) {
        read_body(s, store)
    } else {
        write_body(s, store, primary, ep)
    };
    s + ")"@
}

fn tag_to_payload(out: &mut String, tag: &str)
    ensures
        final(out)@ == tag_payload(old(out)@, tag@),
{
    let chars = chars_of(tag);
    let not_found = chars_of("not-found");
    let invalid = chars_of("invalid");
    let duplicate = chars_of("duplicate");
    let duplicate_dash = chars_of("duplicate-");
    let validation = chars_of("validation");
    if has_sub(&chars, &not_found) || has_sub(&chars, &invalid) {
        out.append("{:id id}");
    } else if has_sub(&chars, &duplicate) {
        proof {
            reveal_strlit("duplicate-");
        }
        let field = if has_prefix(&chars, &duplicate_dash) {
            string_from(&chars, 10, chars.len())
        } else {
            owned("field")
        };
        out.append("{:");
        out.append(field.as_str());
        out.append(" (. input ");
        out.append(field.as_str());
        out.append(")}");
    } else if has_sub(&chars, &validation) {
        out.append("(list ValidationError)");
    } else {
        out.append("{}");
    }
}

fn emit_http(out: &mut String, status: &Option<u16>)
    ensures
        final(out)@ == http_text(old(out)@, *status),
{
    if let Some(n) = status {
        out.append(" :http ");
        push_u64(out, *n as u64);
    }
}

fn emit_returns(out: &mut String, ep: &Endpoint, primary: &str)
    ensures
        final(out)@ == returns_form(old(out)@, ep@, primary@),
{
    out.append("    (returns (union");
    let ghost vs = outputs_view(ep.outputs@);
    let ghost start = out@;
    let mut i: usize = 0;
    while i < ep.outputs.len()
        invariant
            i <= ep.outputs.len(),
            variant_forms(out@, vs, i as int, primary@) == variant_forms(start, vs, 0, primary@),
        decreases ep.outputs.len() - i,
    {
        let output = &ep.outputs[i];
        if output.is_success {
            out.append("\n");
            out.append("      (ok   ");
            out.append(primary);
            emit_http(out, &output.http_status);
            out.append("  :serialize :json)");
        } else {
            let tag = slugify(output.label.as_str());
            out.append("\n");
            out.append("      (err  :");
            out.append(tag.as_str());
            out.append(" ");
            tag_to_payload(out, tag.as_str());
            emit_http(out, &output.http_status);
            out.append(")");
        }
        i += 1;
    }
    out.append("))");
}

fn find_unique_field(ep: &Endpoint) -> (r: Option<String>)
    ensures
        match r {
            Some(s) => unique_field(outputs_view(ep.outputs@), 0) == Some(s@),
            None => unique_field(outputs_view(ep.outputs@), 0).is_none(),
        },
{
    let ghost vs = outputs_view(ep.outputs@);
    let space = chars_of(" ");
    let duplicate = chars_of("duplicate");
    let mut i: usize = 0;
    while i < ep.outputs.len()
        invariant
            i <= ep.outputs.len(),
            unique_field(vs, i as int) == unique_field(vs, 0),
        decreases ep.outputs.len() - i,
    {
        let label = &ep.outputs[i].label;
        let chars = chars_of(label.as_str());
        if let Some(k) = find_sub(&chars, &space, 0) {
            proof {
                reveal_strlit(" ");
            }
            let lower = str_lower(label.as_str());
            let lower_chars = chars_of(lower.as_str());
            if has_prefix(&lower_chars, &duplicate) {
                let rest = string_from(&chars, k + 1, chars.len());
                let low = str_lower(rest.as_str());
                let low_chars = chars_of(low.as_str());
                let mut name = String::new();
                let mut j: usize = 0;
                while j < low_chars.len()
                    invariant
                        j <= low_chars.len(),
                        dashed_from(low_chars@, j as int, name@) == dashed_from(
                            low_chars@,
                            0,
                            Seq::empty(),
                        ),
                    decreases low_chars.len() - j,
                {
                    if low_chars[j] == ' ' {
                        name.push('-');
                    } else {
                        name.push(low_chars[j]);
                    }
                    j += 1;
                }
                return Some(name);
            }
        }
        i += 1;
    }
    None
}

fn emit_endpoint_fn(out: &mut String, ep: &Endpoint, spec: &SpecDoc, all_total: bool)
    ensures
        final(out)@ == endpoint_fn(old(out)@, ep@, spec@, all_total),
{
    let store = derive_store_name(spec);
    let primary: &str = if spec.domain_types.len() > 0 {
        spec.domain_types[0].name.as_str()
    } else {
        "Entity"
    };
    let (ro, wr) = constraint_flags(&ep.constraints);
    let is_read_only = ro || (is_url(ep.input.source) && !wr);
    let is_write = wr || is_body(ep.input.source);
    let id_param = is_read_only || is_url(ep.input.source);
    out.append("\n");
    out.append("\n");
    out.append("  (fn ");
    out.append(ep.name.as_str());
    out.append("\n");
    out.append("    :provenance {req: \"");
    out.append(spec.spec_id.as_str());
    out.append("\"}");
    out.append("\n");
    out.append("    :effects    ");
    if is_write {
        out.append("[db-write http-respond]");
    } else if is_read_only {
        out.append("[db-read http-respond]");
    } else {
        out.append("[http-respond]");
    }
    out.append("\n");
    if all_total {
        out.append("    :total      true");
        out.append("\n");
    }
    let ghost cs = constraints_view(ep.constraints@);
    let ghost start = out@;
    let mut i: usize = 0;
    while i < ep.constraints.len()
        invariant
            i <= ep.constraints.len(),
            latency_lines(out@, cs, i as int) == latency_lines(start, cs, 0),
        decreases ep.constraints.len() - i,
    {
        if let Constraint::MaxResponseTime(t) = &ep.constraints[i] {
            out.append("    :latency-budget ");
            out.append(t.as_str());
            out.append("\n");
        }
        i += 1;
    }
    let ghost start = out@;
    let mut i: usize = 0;
    while i < ep.constraints.len()
        invariant
            i <= ep.constraints.len(),
            idempotency_lines(out@, cs, i as int) == idempotency_lines(start, cs, 0),
        decreases ep.constraints.len() - i,
    {
        if let Constraint::Idempotent(field) = &ep.constraints[i] {
            out.append("    :idempotency-key (hash (. input ");
            out.append(field.as_str());
            out.append("))");
            out.append("\n");
        }
        i += 1;
    }
    let deps = &spec.traceability.known_dependencies;
    if deps.len() > 0 {
        out.append("    :called-by  [");
        let ghost ds = spec@.traceability.known_dependencies;
        let ghost start = out@;
        let mut i: usize = 0;
        while i < deps.len()
            invariant
                i <= deps.len(),
                callers(out@, ds, i as int) == callers(start, ds, 0),
            decreases deps.len() - i,
        {
            if i > 0 {
                out.append(" ");
            }
            out.append(deps[i].as_str());
            out.append("/handle-request");
            i += 1;
        }
        out.append("]");
        out.append("\n");
    }
    if id_param {
        out.append("    (param id UUID");
        out.append("\n");
        out.append("      :source http-path-param");
        out.append("\n");
        out.append("      :validated-at boundary)");
    } else {
        out.append("    (param input ");
        out.append("{");
        if spec.domain_types.len() > 0 {
            let fields = &spec.domain_types[0].fields;
            let ghost fs = field_specs_view(fields@);
            let ghost start = out@;
            let mut first = true;
            let mut i: usize = 0;
            while i < fields.len()
                invariant
                    i <= fields.len(),
                    input_entries(out@, fs, i as int, first) == input_entries(start, fs, 0, true),
                decreases fields.len() - i,
            {
                if !fields[i].auto_generated && !fields[i].immutable {
                    if !first {
                        out.append(" ");
                    }
                    out.append(":");
                    out.append(fields[i].name.as_str());
                    out.append(" ");
                    out.append(type_name_of(&fields[i].field_type));
                    first = false;
                }
                i += 1;
            }
        }
        out.append("}");
        out.append("\n");
        out.append("      :source http-body");
        out.append("\n");
        out.append("      :content-type :json");
        out.append("\n");
        out.append("      :validated-at boundary)");
    }
    out.append("\n");
    emit_returns(out, ep, primary);
    out.append("\n");
    out.append("\n");
    if id_param {
        out.append("    (let [validated-id (validate-uuid id)]");
        out.append("\n");
        out.append("      (match validated-id");
        out.append("\n");
        out.append("        (err _)    (err :invalid-id {:id id})");
        out.append("\n");
        out.append("        (ok  uuid) (match (query ");
        out.append(store.as_str());
        out.append(" {:id uuid})");
        out.append("\n");
        out.append("          (none)   (err :not-found {:id uuid})");
        out.append("\n");
        out.append("          (some u) (ok u))))");
    } else {
        out.append("    (let [errors (validate-against ");
        out.append(primary);
        out.append(" input)]");
        out.append("\n");
        out.append("      (if (non-empty? errors)");
        out.append("\n");
        out.append("        (err :validation-failed errors)");
        out.append("\n");
        out.append("        (match (insert! ");
        out.append(store.as_str());
        out.append(" (build ");
        out.append(primary);
        out.append(" input))");
        out.append("\n");
        match find_unique_field(ep) {
            Some(field) => {
                out.append("          (err :unique-violation) (err :duplicate-");
                out.append(field.as_str());
                out.append(" {:");
                out.append(field.as_str());
                out.append(" (. input ");
                out.append(field.as_str());
                out.append(")})");
            },
            None => {
                out.append("          (err :unique-violation) (err :duplicate {:input input})");
            },
        }
        out.append("\n");
        out.append("          (ok entity)             (ok entity))))");
    }
    out.append(")");
}

/// Whether one of the first `n` rules says that all functions are total.
pub open spec fn all_total(rules: Seq<QualityRuleView>, n: int) -> bool
    decreases n,
{
    if n <= 0 || n > rules.len() {
        false
    } else {
        rules[n - 1] is AllFunctionsTotal || all_total(rules, n - 1)
    }
}

pub open spec fn type_forms(acc: Seq<char>, types: Seq<DomainTypeView>, i: int, store: Seq<char>) -> Seq<
    char,
>
    decreases left(types.len(), i),
{
    if 0 <= i < types.len() {
        type_forms(type_form(acc, types[i], store) + "\n"@, types, i + 1, store)
    } else {
        acc
    }
}

pub open spec fn endpoint_fns(acc: Seq<char>, d: SpecDocView, i: int, total: bool) -> Seq<char>
    decreases left(d.endpoints.len(), i),
{
    if 0 <= i < d.endpoints.len() {
        endpoint_fns(endpoint_fn(acc, d.endpoints[i], d, total), d, i + 1, total)
    } else {
        acc
    }
}

/// The date that the emitter writes as the creation date.
pub open spec fn created() -> Seq<char> {
    "2026-01-01T00:00:00Z"@
}

/// The source text of the module for a document, appended to `acc`.
pub open spec fn emit_from(acc: Seq<char>, d: SpecDocView) -> Seq<char> {
    let s = acc + "(module "@ + module_name(d) + "\n"@ + "  :provenance {req: \""@ + d.spec_id
        + "\", author: \"agent:pact-generate\", created: \""@ + created() + "\"}"@ + "\n"@
        + "  :version 1"@ + "\n"@;
    let s = type_forms(s, d.domain_types, 0, store_name(d));
    let s = effect_sets(s, d);
    let s = endpoint_fns(s, d, 0, all_total(d.quality, d.quality.len() as int));
    s + ")"@ + "\n"@
}

/// The source text of the module for a document.
pub open spec fn emit_spec(d: SpecDocView) -> Seq<char> {
    emit_from(Seq::empty(), d)
}

fn current_date() -> (r: &'static str)
    ensures
        r@ == created(),
{
    "2026-01-01T00:00:00Z"
}

/// Writer of spec-language source text.
pub struct PctEmitter {
    output: String,
}

impl PctEmitter {
    /// The text written so far.
    pub closed spec fn text(&self) -> Seq<char> {
        self.output@
    }

    pub fn new() -> (e: PctEmitter)
        ensures
            e.text() == Seq::<char>::empty(),
    {
        PctEmitter { output: String::new() }
    }

    /// Derives the module name from the title of the document.
    pub fn derive_module_name(&self, title: &str) -> (r: String)
        ensures
            r@ == slug(title@),
    {
        slugify(title)
    }

    /// Appends the module for `spec` to the text written so far and
    /// returns the whole; for a fresh emitter that is `emit_spec(spec@)`.
    pub fn emit(self, spec: &SpecDoc) -> (r: String)
        ensures
            r@ == emit_from(self.text(), spec@),
    {
        let mut out = self.output;
        let name = slugify(spec.title.as_str());
        let store = derive_store_name(spec);
        let ghost d = spec@;
        out.append("(module ");
        out.append(name.as_str());
        out.append("\n");
        out.append("  :provenance {req: \"");
        out.append(spec.spec_id.as_str());
        out.append("\", author: \"agent:pact-generate\", created: \"");
        out.append(current_date());
        out.append("\"}");
        out.append("\n");
        out.append("  :version 1");
        out.append("\n");
        let ghost start = out@;
        let mut i: usize = 0;
        while i < spec.domain_types.len()
            invariant
                i <= spec.domain_types.len(),
                type_forms(out@, d.domain_types, i as int, store@) == type_forms(
                    start,
                    d.domain_types,
                    0,
                    store@,
                ),
            decreases spec.domain_types.len() - i,
        {
            emit_type_def(&mut out, &spec.domain_types[i], store.as_str());
            out.append("\n");
            i += 1;
        }
        emit_effect_sets(&mut out, spec, store.as_str());
        let mut total = false;
        let mut i: usize = 0;
        while i < spec.quality.len()
            invariant
                i <= spec.quality.len(),
                total == all_total(d.quality, i as int),
            decreases spec.quality.len() - i,
        {
            if let QualityRule::AllFunctionsTotal = &spec.quality[i] {
                total = true;
            }
            i += 1;
        }
        let ghost start = out@;
        let mut i: usize = 0;
        while i < spec.endpoints.len()
            invariant
                i <= spec.endpoints.len(),
                endpoint_fns(out@, d, i as int, total) == endpoint_fns(start, d, 0, total),
            decreases spec.endpoints.len() - i,
        {
            emit_endpoint_fn(&mut out, &spec.endpoints[i], spec, total);
            i += 1;
        }
        out.append(")");
        out.append("\n");
        out
    }
}

} // verus!
