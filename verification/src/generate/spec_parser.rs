//! Spec lowerer: walks a YAML value into a typed specification document.
//! Field descriptors, inputs, outputs and constraints are natural-language
//! strings, read by keyword.

use vstd::prelude::*;
use vstd::string::{StringExecFns, StrSliceExecFns};
use crate::generate::spec_ast::{SpecDoc, SpecDocView, DomainType, DomainTypeView, FieldSpec,
    FieldSpecView, FieldType, FieldTypeView, Endpoint, EndpointView, InputSpec, InputSpecView,
    InputSource, OutputSpec, OutputSpecView, Constraint, ConstraintView, QualityRule,
    QualityRuleView, Traceability, TraceabilityView, field_specs_view, domain_types_view,
    outputs_view, constraints_view, endpoints_view, quality_view};
use crate::generate::yaml_ast::{YamlValue, YamlView, yamls_view, yaml_pairs_view, get_spec,
    scalar_spec, lookup};
use crate::strings::{contains, has_sub, last_index_of, parse_decimal, parse_u64, parse_unsigned,
    parse_unsigned_u64, rfind_char, rows_view, slice_chars, split, split_chars, trim_chars,
    trimmed};
use crate::text::{chars_of, left, lower_text, owned, str_eq, str_lower, string_of};

verus! {

broadcast use {
    crate::generate::yaml_ast::group_yaml_views,
    crate::generate::spec_ast::group_spec_views,
    crate::ast::group_ast_views,
};

/// Failure of the spec lowerer, with its message.
#[derive(Debug)]
pub struct SpecParseError(pub String);

/// The text of the scalar under `key`, if there is one.
pub open spec fn scalar_at(v: YamlView, key: Seq<char>) -> Option<Seq<char>> {
    match get_spec(v, key) {
        Some(x) => scalar_spec(x),
        None => None,
    }
}

/// The text of the scalar under `key`, or the empty text.
pub open spec fn text_at(v: YamlView, key: Seq<char>) -> Seq<char> {
    match scalar_at(v, key) {
        Some(s) => s,
        None => Seq::empty(),
    }
}

/// The text of a scalar, or the empty text for any other value.
pub open spec fn text_of(v: YamlView) -> Seq<char> {
    match v {
        YamlView::Scalar(s) => s,
        _ => Seq::empty(),
    }
}

pub open spec fn spec_is_digit(c: char) -> bool {
    48 <= c as u32 <= 57
}

/// `acc` with the number that the digit run `run` writes, where it is not
/// empty and fits the machine word.
pub open spec fn with_run(acc: Seq<usize>, run: Seq<char>) -> Seq<usize> {
    match parse_decimal(run, usize::MAX as nat) {
        Some(n) => acc.push(n as usize),
        None => acc,
    }
}

/// The numbers that the digit runs of `s` write, from `i` on, appended to
/// `acc`; `start` is where the run being read began.
pub open spec fn digit_runs(s: Seq<char>, i: int, start: int, acc: Seq<usize>) -> Seq<usize>
    decreases left(s.len(), i),
{
    if 0 <= start <= i < s.len() {
        if spec_is_digit(s[i]) {
            digit_runs(s, i + 1, start, acc)
        } else {
            digit_runs(s, i + 1, i + 1, with_run(acc, s.subrange(start, i)))
        }
    } else if 0 <= start <= s.len() {
        with_run(acc, s.subrange(start, s.len() as int))
    } else {
        acc
    }
}

/// Whether a part of a descriptor, in lower case, is a length phrase: it
/// speaks of `chars` or `len`, or it holds `min` or `max` and one number.
pub open spec fn length_phrase(lower: Seq<char>) -> bool {
    contains(lower, "chars"@) || contains(lower, "len"@) || ((contains(lower, "min"@) || contains(
        lower,
        "max"@,
    )) && digit_runs(lower, 0, 0, Seq::empty()).len() == 1)
}

/// `f` with the lengths that `part` names: two numbers are the least and
/// the greatest length; one number is the least length where `part` holds
/// `min`, else the greatest.
pub open spec fn with_lengths(f: FieldSpecView, part: Seq<char>) -> FieldSpecView {
    let nums = digit_runs(part, 0, 0, Seq::empty());
    if nums.len() == 2 {
        FieldSpecView { min_len: Some(nums[0]), max_len: Some(nums[1]), ..f }
    } else if nums.len() == 1 {
        if contains(part, "min"@) {
            FieldSpecView { min_len: Some(nums[0]), ..f }
        } else {
            FieldSpecView { max_len: Some(nums[0]), ..f }
        }
    } else {
        f
    }
}

/// Whether the type of `f` is still unknown.
pub open spec fn untyped(f: FieldSpecView) -> bool {
    f.field_type == FieldTypeView::Unknown(Seq::empty())
}

/// `f` after one part of a descriptor; `part` is the trimmed part and
/// `lower` its lowercase form.
pub open spec fn with_part(f: FieldSpecView, part: Seq<char>, lower: Seq<char>) -> FieldSpecView {
    if lower == "required"@ {
        FieldSpecView { required: true, ..f }
    } else if lower == "string"@ {
        FieldSpecView { field_type: FieldTypeView::StringType, ..f }
    } else if lower == "uuid"@ {
        FieldSpecView { field_type: FieldTypeView::UuidType, ..f }
    } else if lower == "int"@ || lower == "integer"@ {
        FieldSpecView { field_type: FieldTypeView::IntType, ..f }
    } else if lower == "bool"@ || lower == "boolean"@ {
        FieldSpecView { field_type: FieldTypeView::BoolType, ..f }
    } else if lower == "unique"@ {
        FieldSpecView { unique: true, ..f }
    } else if lower == "auto-generated"@ {
        FieldSpecView { auto_generated: true, ..f }
    } else if lower == "immutable"@ {
        FieldSpecView { immutable: true, ..f }
    } else if contains(lower, "email"@) && contains(lower, "format"@) {
        FieldSpecView { format: Some("email"@), ..f }
    } else if length_phrase(lower) {
        with_lengths(f, lower)
    } else if lower.len() > 0 && untyped(f) {
        FieldSpecView { field_type: FieldTypeView::Unknown(part), ..f }
    } else {
        f
    }
}

/// `f` after the parts from `i` on.
pub open spec fn with_parts(f: FieldSpecView, parts: Seq<Seq<char>>, i: int) -> FieldSpecView
    decreases left(parts.len(), i),
{
    if 0 <= i < parts.len() {
        with_parts(with_part(f, trimmed(parts[i]), lower_text(trimmed(parts[i]))), parts, i + 1)
    } else {
        f
    }
}

/// A field without any property but its name.
pub open spec fn bare_field(name: Seq<char>) -> FieldSpecView {
    FieldSpecView {
        name,
        required: false,
        field_type: FieldTypeView::Unknown(Seq::empty()),
        min_len: None,
        max_len: None,
        format: None,
        unique: false,
        auto_generated: false,
        immutable: false,
    }
}

/// The field that a descriptor such as `required, string, 1-200 chars`
/// describes: the parts between commas are read in order. A generated field
/// without a type is a UUID.
pub open spec fn field_descriptor(name: Seq<char>, descriptor: Seq<char>) -> FieldSpecView {
    let f = with_parts(bare_field(name), split(descriptor, ','), 0);
    if f.auto_generated && untyped(f) {
        FieldSpecView { field_type: FieldTypeView::UuidType, ..f }
    } else {
        f
    }
}

/// Whether `s` holds `pat`.
pub fn str_contains(s: &str, pat: &str) -> (r: bool)
    ensures
        r == contains(s@, pat@),
{
    let a = chars_of(s);
    let b = chars_of(pat);
    has_sub(&a, &b)
}

fn collect_digit_runs(part: &Vec<char>) -> (r: Vec<usize>)
    ensures
        r@ == digit_runs(part@, 0, 0, Seq::empty()),
{
    let mut r: Vec<usize> = Vec::new();
    let mut start: usize = 0;
    let mut i: usize = 0;
    while i < part.len()
        invariant
            start <= i <= part.len(),
            digit_runs(part@, i as int, start as int, r@) == digit_runs(part@, 0, 0, Seq::empty()),
        decreases part.len() - i,
    {
        let c: u32 = part[i] as u32;
        if !(48 <= c && c <= 57) {
            let run = slice_chars(part, start, i);
            if let Some(n) = parse_u64(&run, usize::MAX as u64) {
                r.push(n as usize);
            }
            start = i + 1;
        }
        i += 1;
    }
    let run = slice_chars(part, start, part.len());
    if let Some(n) = parse_u64(&run, usize::MAX as u64) {
        r.push(n as usize);
    }
    r
}

/// Whether a part of a descriptor, in lower case, is a length phrase.
fn is_length_phrase(lower: &Vec<char>) -> (r: bool)
    ensures
        r == length_phrase(lower@),
{
    let chars = chars_of("chars");
    let len = chars_of("len");
    let min = chars_of("min");
    let max = chars_of("max");
    if has_sub(lower, &chars) || has_sub(lower, &len) {
        true
    } else if has_sub(lower, &min) || has_sub(lower, &max) {
        let nums = collect_digit_runs(lower);
        nums.len() == 1
    } else {
        false
    }
}

fn parse_length_constraint(part: &Vec<char>, spec: &mut FieldSpec)
    ensures
        final(spec)@ == with_lengths(old(spec)@, part@),
{
    let nums = collect_digit_runs(part);
    if nums.len() == 2 {
        spec.min_len = Some(nums[0]);
        spec.max_len = Some(nums[1]);
    } else if nums.len() == 1 {
        let min = chars_of("min");
        if has_sub(part, &min) {
            spec.min_len = Some(nums[0]);
        } else {
            spec.max_len = Some(nums[0]);
        }
    }
}

fn is_untyped(spec: &FieldSpec) -> (r: bool)
    ensures
        r == untyped(spec@),
{
    match &spec.field_type {
        FieldType::Unknown(s) => {
            let n = s.as_str().unicode_len();
            assert(n == 0 ==> s@ =~= Seq::<char>::empty());
            n == 0
        },
        _ => false,
    }
}

/// Reads a natural-language field descriptor such as
/// `required, string, 1-200 chars`.
pub fn parse_field_descriptor(name: &str, descriptor: &str) -> (r: FieldSpec)
    ensures
        r@ == field_descriptor(name@, descriptor@),
{
    let chars = chars_of(descriptor);
    let parts = split_chars(&chars, ',');
    let ghost ps = rows_view(parts@);
    let mut spec = FieldSpec {
        name: owned(name),
        required: false,
        field_type: FieldType::Unknown(String::new()),
        min_len: None,
        max_len: None,
        format: None,
        unique: false,
        auto_generated: false,
        immutable: false,
    };
    let ghost start = spec@;
    let mut i: usize = 0;
    while i < parts.len()
        invariant
            i <= parts.len(),
            with_parts(spec@, ps, i as int) == with_parts(start, ps, 0),
        decreases parts.len() - i,
    {
        let part = trim_chars(&parts[i]);
        let text = string_of(&part);
        let lower = str_lower(text.as_str());
        let l = lower.as_str();
        let lower_chars = chars_of(l);
        if str_eq(l, "required") {
            spec.required = true;
        } else if str_eq(l, "string") {
            spec.field_type = FieldType::StringType;
        } else if str_eq(l, "uuid") {
            spec.field_type = FieldType::UuidType;
        } else if str_eq(l, "int") || str_eq(l, "integer") {
            spec.field_type = FieldType::IntType;
        } else if str_eq(l, "bool") || str_eq(l, "boolean") {
            spec.field_type = FieldType::BoolType;
        } else if str_eq(l, "unique") {
            spec.unique = true;
        } else if str_eq(l, "auto-generated") {
            spec.auto_generated = true;
        } else if str_eq(l, "immutable") {
            spec.immutable = true;
        } else if str_contains(l, "email") && str_contains(l, "format") {
            spec.format = Some(owned("email"));
        } else if is_length_phrase(&lower_chars) {
            parse_length_constraint(&lower_chars, &mut spec);
        } else if l.unicode_len() > 0 && is_untyped(&spec) {
            spec.field_type = FieldType::Unknown(text);
        }
        i += 1;
    }
    if spec.auto_generated && is_untyped(&spec) {
        spec.field_type = FieldType::UuidType;
    }
    spec
}

/// Where the input that `text` describes comes from.
pub open spec fn input_source(text: Seq<char>) -> InputSource {
    let lower = lower_text(text);
    if contains(lower, "url"@) || contains(lower, "path"@) {
        InputSource::Url
    } else if contains(lower, "body"@) || contains(lower, "json"@) || contains(lower, "payload"@) {
        InputSource::Body
    } else {
        InputSource::Unknown
    }
}

pub open spec fn input_spec(text: Seq<char>) -> InputSpecView {
    InputSpecView { description: text, source: input_source(text), fields: Seq::empty() }
}

/// The input that `input_str` describes, with its source.
pub fn parse_input_spec(input_str: &str) -> (r: InputSpec)
    ensures
        r@ == input_spec(input_str@),
{
    let lower = str_lower(input_str);
    let l = lower.as_str();
    let source = if str_contains(l, "url") || str_contains(l, "path") {
        InputSource::Url
    } else if str_contains(l, "body") || str_contains(l, "json") || str_contains(l, "payload") {
        InputSource::Body
    } else {
        InputSource::Unknown
    };
    InputSpec { description: owned(input_str), source, fields: Vec::new() }
}

/// The HTTP status that a description ends with: the number between the
/// last `(` and the last `)`.
pub open spec fn http_status_of(desc: Seq<char>) -> Option<u16> {
    let start = last_index_of(desc, '(', desc.len() as int);
    let end = last_index_of(desc, ')', desc.len() as int);
    if 0 <= start < end {
        match parse_unsigned(trimmed(desc.subrange(start + 1, end)), 0xffff) {
            Some(n) => Some(n as u16),
            None => None,
        }
    } else {
        None
    }
}

/// The HTTP status named at the end of a description such as `found (200)`.
pub fn extract_http_status(desc: &str) -> (r: Option<u16>)
    ensures
        r == http_status_of(desc@),
{
    let chars = chars_of(desc);
    if let Some(start) = rfind_char(&chars, '(') {
        if let Some(end) = rfind_char(&chars, ')') {
            if end > start {
                let inner = slice_chars(&chars, start + 1, end);
                let t = trim_chars(&inner);
                return match parse_unsigned_u64(&t, 0xffff) {
                    Some(n) => Some(n as u16),
                    None => None,
                };
            }
        }
    }
    None
}

/// Whether an output labelled `label` is a success.
pub open spec fn success_label(label: Seq<char>) -> bool {
    let lower = lower_text(label);
    contains(lower, "success"@) || contains(lower, "ok"@) || contains(lower, "created"@)
}

/// The output that the first pair of an item describes.
pub open spec fn output_of(label: Seq<char>, desc: YamlView) -> OutputSpecView {
    OutputSpecView {
        label,
        description: text_of(desc),
        http_status: http_status_of(text_of(desc)),
        is_success: success_label(label),
    }
}

/// The outputs that the items from `i` on describe, appended to `acc`.
pub open spec fn outputs_from(items: Seq<YamlView>, i: int, acc: Seq<OutputSpecView>) -> Result<
    Seq<OutputSpecView>,
    Seq<char>,
>
    decreases left(items.len(), i),
{
    if 0 <= i < items.len() {
        match items[i] {
            YamlView::Mapping(pairs) => outputs_from(
                items,
                i + 1,
                if pairs.len() > 0 {
                    acc.push(output_of(pairs[0].0, pairs[0].1))
                } else {
                    acc
                },
            ),
            _ => Err("Each output must be a key: descriptor mapping"@),
        }
    } else {
        Ok(acc)
    }
}

pub open spec fn outputs_of(ep: YamlView) -> Result<Seq<OutputSpecView>, Seq<char>> {
    match get_spec(ep, "outputs"@) {
        None => Ok(Seq::empty()),
        Some(YamlView::Sequence(items)) => outputs_from(items, 0, Seq::empty()),
        Some(_) => Err("'outputs' must be a sequence"@),
    }
}

fn fail<T>(msg: &str) -> (r: Result<T, SpecParseError>)
    ensures
        r matches Err(e) && e.0@ == msg@,
{
    Err(SpecParseError(owned(msg)))
}

fn text_of_value(v: &YamlValue) -> (r: &str)
    ensures
        r@ == text_of(v@),
{
    match v.as_scalar() {
        Some(s) => s,
        None => {
            proof {
                reveal_strlit("");
            }
            assert(""@ =~= Seq::<char>::empty());
            ""
        },
    }
}

fn get_scalar(yaml: &YamlValue, key: &str) -> (r: Option<String>)
    ensures
        match r {
            Some(s) => scalar_at(yaml@, key@) == Some(s@),
            None => scalar_at(yaml@, key@).is_none(),
        },
{
    match yaml.get(key) {
        Some(v) => match v.as_scalar() {
            Some(s) => Some(owned(s)),
            None => None,
        },
        None => None,
    }
}

fn get_text(yaml: &YamlValue, key: &str) -> (r: String)
    ensures
        r@ == text_at(yaml@, key@),
{
    match get_scalar(yaml, key) {
        Some(s) => s,
        None => String::new(),
    }
}

fn parse_outputs(ep_val: &YamlValue) -> (r: Result<Vec<OutputSpec>, SpecParseError>)
    ensures
        match r {
            Ok(v) => outputs_of(ep_val@) == Ok::<Seq<OutputSpecView>, Seq<char>>(outputs_view(v@)),
            Err(e) => outputs_of(ep_val@) == Err::<Seq<OutputSpecView>, Seq<char>>(e.0@),
        },
{
    let outputs_val = match ep_val.get("outputs") {
        Some(o) => o,
        None => {
            return Ok(Vec::new());
        },
    };
    let items = match outputs_val.items() {
        Some(s) => s,
        None => {
            return fail("'outputs' must be a sequence");
        },
    };
    let ghost vs = yamls_view(items@);
    let mut outputs: Vec<OutputSpec> = Vec::new();
    let mut i: usize = 0;
    while i < items.len()
        invariant
            i <= items.len(),
            outputs_from(vs, i as int, outputs_view(outputs@)) == outputs_from(vs, 0, Seq::empty()),
        decreases items.len() - i,
    {
        let mapping = match items[i].pairs() {
            Some(m) => m,
            None => {
                return fail("Each output must be a key: descriptor mapping");
            },
        };
        if mapping.len() > 0 {
            let label = &mapping[0].0;
            let description = owned(text_of_value(&mapping[0].1));
            let http_status = extract_http_status(description.as_str());
            let lower = str_lower(label.as_str());
            let l = lower.as_str();
            let is_success = str_contains(l, "success") || str_contains(l, "ok") || str_contains(
                l,
                "created",
            );
            outputs.push(
                OutputSpec { label: label.clone(), description, http_status, is_success },
            );
        }
        i += 1;
    }
    Ok(outputs)
}


/// The constraint that a scalar item names.
pub open spec fn scalar_constraint(s: Seq<char>) -> ConstraintView {
    let lower = lower_text(s);
    if lower == "read-only"@ || lower == "readonly"@ {
        ConstraintView::ReadOnly
    } else if lower == "write"@ || contains(lower, "read-write"@) {
        ConstraintView::Write
    } else {
        ConstraintView::Other(s)
    }
}

/// The constraint that a pair of key and value names.
pub open spec fn pair_constraint(k: Seq<char>, v: YamlView) -> ConstraintView {
    let lower = lower_text(k);
    if contains(lower, "max response time"@) || contains(lower, "latency"@) {
        ConstraintView::MaxResponseTime(text_of(v))
    } else if contains(lower, "idempotent"@) {
        ConstraintView::Idempotent(text_of(v))
    } else if lower == "read-only"@ || lower == "readonly"@ {
        ConstraintView::ReadOnly
    } else if lower == "write"@ {
        ConstraintView::Write
    } else {
        ConstraintView::Other(k + ": "@ + text_of(v))
    }
}

pub open spec fn pair_constraints(
    pairs: Seq<(Seq<char>, YamlView)>,
    j: int,
    acc: Seq<ConstraintView>,
) -> Seq<ConstraintView>
    decreases left(pairs.len(), j),
{
    if 0 <= j < pairs.len() {
        pair_constraints(pairs, j + 1, acc.push(pair_constraint(pairs[j].0, pairs[j].1)))
    } else {
        acc
    }
}

/// The constraints that the items from `i` on name, appended to `acc`.
pub open spec fn constraints_from(items: Seq<YamlView>, i: int, acc: Seq<ConstraintView>) -> Seq<
    ConstraintView,
>
    decreases left(items.len(), i),
{
    if 0 <= i < items.len() {
        constraints_from(
            items,
            i + 1,
            match items[i] {
                YamlView::Scalar(s) => acc.push(scalar_constraint(s)),
                YamlView::Mapping(pairs) => pair_constraints(pairs, 0, acc),
                _ => acc,
            },
        )
    } else {
        acc
    }
}

pub open spec fn constraints_of(ep: YamlView) -> Seq<ConstraintView> {
    match get_spec(ep, "constraints"@) {
        Some(YamlView::Sequence(items)) => constraints_from(items, 0, Seq::empty()),
        _ => Seq::empty(),
    }
}

fn parse_constraints(ep_val: &YamlValue) -> (r: Vec<Constraint>)
    ensures
        constraints_view(r@) == constraints_of(ep_val@),
{
    let constraints_val = match ep_val.get("constraints") {
        Some(c) => c,
        None => {
            return Vec::new();
        },
    };
    let items = match constraints_val.items() {
        Some(s) => s,
        None => {
            return Vec::new();
        },
    };
    let ghost vs = yamls_view(items@);
    let mut constraints: Vec<Constraint> = Vec::new();
    let mut i: usize = 0;
    while i < items.len()
        invariant
            i <= items.len(),
            constraints_from(vs, i as int, constraints_view(constraints@)) == constraints_from(
                vs,
                0,
                Seq::empty(),
            ),
        decreases items.len() - i,
    {
        if let Some(s) = items[i].as_scalar() {
            let lower = str_lower(s);
            let l = lower.as_str();
            if str_eq(l, "read-only") || str_eq(l, "readonly") {
                constraints.push(Constraint::ReadOnly);
            } else if str_eq(l, "write") || str_contains(l, "read-write") {
                constraints.push(Constraint::Write);
            } else {
                constraints.push(Constraint::Other(owned(s)));
            }
        } else if let Some(pairs) = items[i].pairs() {
            let ghost ps = yaml_pairs_view(pairs@);
            let ghost start = constraints_view(constraints@);
            let mut j: usize = 0;
            while j < pairs.len()
                invariant
                    j <= pairs.len(),
                    pair_constraints(ps, j as int, constraints_view(constraints@))
                        == pair_constraints(ps, 0, start),
                decreases pairs.len() - j,
            {
                let k = &pairs[j].0;
                let val = text_of_value(&pairs[j].1);
                let lower = str_lower(k.as_str());
                let l = lower.as_str();
                if str_contains(l, "max response time") || str_contains(l, "latency") {
                    constraints.push(Constraint::MaxResponseTime(owned(val)));
                } else if str_contains(l, "idempotent") {
                    constraints.push(Constraint::Idempotent(owned(val)));
                } else if str_eq(l, "read-only") || str_eq(l, "readonly") {
                    constraints.push(Constraint::ReadOnly);
                } else if str_eq(l, "write") {
                    constraints.push(Constraint::Write);
                } else {
                    let mut text = k.clone();
                    text.append(": ");
                    text.append(val);
                    constraints.push(Constraint::Other(text));
                }
                j += 1;
            }
        }
        i += 1;
    }
    constraints
}

/// The quality rule that an item names.
pub open spec fn quality_rule(v: YamlView) -> QualityRuleView {
    let lower = lower_text(text_of(v));
    if contains(lower, "total"@) && contains(lower, "function"@) {
        QualityRuleView::AllFunctionsTotal
    } else {
        QualityRuleView::Other(text_of(v))
    }
}

pub open spec fn quality_from(items: Seq<YamlView>, i: int, acc: Seq<QualityRuleView>) -> Seq<
    QualityRuleView,
>
    decreases left(items.len(), i),
{
    if 0 <= i < items.len() {
        quality_from(items, i + 1, acc.push(quality_rule(items[i])))
    } else {
        acc
    }
}

pub open spec fn quality_of(yaml: YamlView) -> Seq<QualityRuleView> {
    match get_spec(yaml, "quality"@) {
        Some(YamlView::Sequence(items)) => quality_from(items, 0, Seq::empty()),
        _ => Seq::empty(),
    }
}

fn parse_quality(yaml: &YamlValue) -> (r: Vec<QualityRule>)
    ensures
        quality_view(r@) == quality_of(yaml@),
{
    let quality_val = match yaml.get("quality") {
        Some(q) => q,
        None => {
            return Vec::new();
        },
    };
    let items = match quality_val.items() {
        Some(s) => s,
        None => {
            return Vec::new();
        },
    };
    let ghost vs = yamls_view(items@);
    let mut rules: Vec<QualityRule> = Vec::new();
    let mut i: usize = 0;
    while i < items.len()
        invariant
            i <= items.len(),
            quality_from(vs, i as int, quality_view(rules@)) == quality_from(vs, 0, Seq::empty()),
        decreases items.len() - i,
    {
        let s = text_of_value(&items[i]);
        let lower = str_lower(s);
        if str_contains(lower.as_str(), "total") && str_contains(lower.as_str(), "function") {
            rules.push(QualityRule::AllFunctionsTotal);
        } else {
            rules.push(QualityRule::Other(owned(s)));
        }
        i += 1;
    }
    rules
}

/// The parts from `i` on, trimmed, without the empty ones, appended to `acc`.
pub open spec fn dependencies_from(parts: Seq<Seq<char>>, i: int, acc: Seq<Seq<char>>) -> Seq<
    Seq<char>,
>
    decreases left(parts.len(), i),
{
    if 0 <= i < parts.len() {
        dependencies_from(
            parts,
            i + 1,
            if trimmed(parts[i]).len() > 0 {
                acc.push(trimmed(parts[i]))
            } else {
                acc
            },
        )
    } else {
        acc
    }
}

/// The known dependencies: the text under `traceability` and
/// `known dependencies`, split at commas.
pub open spec fn traceability_of(yaml: YamlView) -> TraceabilityView {
    match get_spec(yaml, "traceability"@) {
        Some(trace) => {
            let deps = text_at(trace, "known dependencies"@);
            TraceabilityView {
                known_dependencies: if deps.len() == 0 {
                    Seq::empty()
                } else {
                    dependencies_from(split(deps, ','), 0, Seq::empty())
                },
            }
        },
        None => TraceabilityView { known_dependencies: Seq::empty() },
    }
}

fn parse_traceability(yaml: &YamlValue) -> (r: Traceability)
    ensures
        r@ == traceability_of(yaml@),
{
    let mut known_dependencies: Vec<String> = Vec::new();
    assert(Seq::new(known_dependencies@.len(), |i: int| known_dependencies@[i]@) =~= Seq::<
        Seq<char>,
    >::empty());
    let trace = match yaml.get("traceability") {
        Some(t) => t,
        None => {
            return Traceability { known_dependencies };
        },
    };
    let deps_str = get_text(trace, "known dependencies");
    let chars = chars_of(deps_str.as_str());
    if chars.len() > 0 {
        let parts = split_chars(&chars, ',');
        let ghost ps = rows_view(parts@);
        let mut i: usize = 0;
        while i < parts.len()
            invariant
                i <= parts.len(),
                dependencies_from(ps, i as int, crate::ast::strs_view(known_dependencies@))
                    == dependencies_from(ps, 0, Seq::empty()),
            decreases parts.len() - i,
        {
            let t = trim_chars(&parts[i]);
            if t.len() > 0 {
                known_dependencies.push(string_of(&t));
            }
            i += 1;
        }
    }
    assert(Seq::new(known_dependencies@.len(), |i: int| known_dependencies@[i]@)
        =~= crate::ast::strs_view(known_dependencies@));
    Traceability { known_dependencies }
}

/// The fields that the items from `i` on describe, appended to `acc`.
pub open spec fn fields_from(items: Seq<YamlView>, i: int, acc: Seq<FieldSpecView>) -> Result<
    Seq<FieldSpecView>,
    Seq<char>,
>
    decreases left(items.len(), i),
{
    if 0 <= i < items.len() {
        match items[i] {
            YamlView::Mapping(pairs) => fields_from(
                items,
                i + 1,
                if pairs.len() > 0 {
                    acc.push(field_descriptor(pairs[0].0, text_of(pairs[0].1)))
                } else {
                    acc
                },
            ),
            _ => Err("Each field must be a key: descriptor mapping"@),
        }
    } else {
        Ok(acc)
    }
}

pub open spec fn fields_of(type_val: YamlView) -> Result<Seq<FieldSpecView>, Seq<char>> {
    match get_spec(type_val, "fields"@) {
        None => Ok(Seq::empty()),
        Some(YamlView::Sequence(items)) => fields_from(items, 0, Seq::empty()),
        Some(_) => Err("'fields' must be a sequence"@),
    }
}

fn parse_fields(type_val: &YamlValue) -> (r: Result<Vec<FieldSpec>, SpecParseError>)
    ensures
        match r {
            Ok(v) => fields_of(type_val@) == Ok::<Seq<FieldSpecView>, Seq<char>>(
                field_specs_view(v@),
            ),
            Err(e) => fields_of(type_val@) == Err::<Seq<FieldSpecView>, Seq<char>>(e.0@),
        },
{
    let fields_val = match type_val.get("fields") {
        Some(f) => f,
        None => {
            return Ok(Vec::new());
        },
    };
    let items = match fields_val.items() {
        Some(s) => s,
        None => {
            return fail("'fields' must be a sequence");
        },
    };
    let ghost vs = yamls_view(items@);
    let mut fields: Vec<FieldSpec> = Vec::new();
    let mut i: usize = 0;
    while i < items.len()
        invariant
            i <= items.len(),
            fields_from(vs, i as int, field_specs_view(fields@)) == fields_from(
                vs,
                0,
                Seq::empty(),
            ),
        decreases items.len() - i,
    {
        let mapping = match items[i].pairs() {
            Some(m) => m,
            None => {
                return fail("Each field must be a key: descriptor mapping");
            },
        };
        if mapping.len() > 0 {
            let descriptor = text_of_value(&mapping[0].1);
            fields.push(parse_field_descriptor(mapping[0].0.as_str(), descriptor));
        }
        i += 1;
    }
    Ok(fields)
}

/// The domain types that the pairs from `i` on describe, appended to `acc`.
pub open spec fn domain_from(
    pairs: Seq<(Seq<char>, YamlView)>,
    i: int,
    acc: Seq<DomainTypeView>,
) -> Result<Seq<DomainTypeView>, Seq<char>>
    decreases left(pairs.len(), i),
{
    if 0 <= i < pairs.len() {
        match fields_of(pairs[i].1) {
            Ok(fields) => domain_from(
                pairs,
                i + 1,
                acc.push(DomainTypeView { name: pairs[i].0, fields }),
            ),
            Err(m) => Err(m),
        }
    } else {
        Ok(acc)
    }
}

pub open spec fn domain_of(yaml: YamlView) -> Result<Seq<DomainTypeView>, Seq<char>> {
    match get_spec(yaml, "domain"@) {
        None => Ok(Seq::empty()),
        Some(YamlView::Mapping(pairs)) => domain_from(pairs, 0, Seq::empty()),
        Some(_) => Err("'domain' must be a mapping"@),
    }
}

fn parse_domain(yaml: &YamlValue) -> (r: Result<Vec<DomainType>, SpecParseError>)
    ensures
        match r {
            Ok(v) => domain_of(yaml@) == Ok::<Seq<DomainTypeView>, Seq<char>>(
                domain_types_view(v@),
            ),
            Err(e) => domain_of(yaml@) == Err::<Seq<DomainTypeView>, Seq<char>>(e.0@),
        },
{
    let domain = match yaml.get("domain") {
        Some(d) => d,
        None => {
            return Ok(Vec::new());
        },
    };
    let pairs = match domain.pairs() {
        Some(p) => p,
        None => {
            return fail("'domain' must be a mapping");
        },
    };
    let ghost vs = yaml_pairs_view(pairs@);
    let mut types: Vec<DomainType> = Vec::new();
    let mut i: usize = 0;
    while i < pairs.len()
        invariant
            i <= pairs.len(),
            domain_from(vs, i as int, domain_types_view(types@)) == domain_from(
                vs,
                0,
                Seq::empty(),
            ),
        decreases pairs.len() - i,
    {
        match parse_fields(&pairs[i].1) {
            Ok(fields) => {
                types.push(DomainType { name: pairs[i].0.clone(), fields });
            },
            Err(e) => {
                return Err(e);
            },
        }
        i += 1;
    }
    Ok(types)
}

/// The endpoint that a pair of name and value describes.
pub open spec fn endpoint_of(name: Seq<char>, v: YamlView) -> Result<EndpointView, Seq<char>> {
    match outputs_of(v) {
        Ok(outputs) => Ok(
            EndpointView {
                name,
                description: text_at(v, "description"@),
                input: input_spec(text_at(v, "input"@)),
                outputs,
                constraints: constraints_of(v),
            },
        ),
        Err(m) => Err(m),
    }
}

pub open spec fn endpoints_from(
    pairs: Seq<(Seq<char>, YamlView)>,
    i: int,
    acc: Seq<EndpointView>,
) -> Result<Seq<EndpointView>, Seq<char>>
    decreases left(pairs.len(), i),
{
    if 0 <= i < pairs.len() {
        match endpoint_of(pairs[i].0, pairs[i].1) {
            Ok(ep) => endpoints_from(pairs, i + 1, acc.push(ep)),
            Err(m) => Err(m),
        }
    } else {
        Ok(acc)
    }
}

pub open spec fn endpoints_of(yaml: YamlView) -> Result<Seq<EndpointView>, Seq<char>> {
    match get_spec(yaml, "endpoints"@) {
        None => Ok(Seq::empty()),
        Some(YamlView::Mapping(pairs)) => endpoints_from(pairs, 0, Seq::empty()),
        Some(_) => Err("'endpoints' must be a mapping"@),
    }
}

fn parse_endpoints(yaml: &YamlValue) -> (r: Result<Vec<Endpoint>, SpecParseError>)
    ensures
        match r {
            Ok(v) => endpoints_of(yaml@) == Ok::<Seq<EndpointView>, Seq<char>>(endpoints_view(v@)),
            Err(e) => endpoints_of(yaml@) == Err::<Seq<EndpointView>, Seq<char>>(e.0@),
        },
{
    let endpoints = match yaml.get("endpoints") {
        Some(e) => e,
        None => {
            return Ok(Vec::new());
        },
    };
    let pairs = match endpoints.pairs() {
        Some(p) => p,
        None => {
            return fail("'endpoints' must be a mapping");
        },
    };
    let ghost vs = yaml_pairs_view(pairs@);
    let mut result: Vec<Endpoint> = Vec::new();
    let mut i: usize = 0;
    while i < pairs.len()
        invariant
            i <= pairs.len(),
            endpoints_from(vs, i as int, endpoints_view(result@)) == endpoints_from(
                vs,
                0,
                Seq::empty(),
            ),
        decreases pairs.len() - i,
    {
        let ep_val = &pairs[i].1;
        let description = get_text(ep_val, "description");
        let input_str = get_text(ep_val, "input");
        let input = parse_input_spec(input_str.as_str());
        let outputs = match parse_outputs(ep_val) {
            Ok(o) => o,
            Err(e) => {
                return Err(e);
            },
        };
        let constraints = parse_constraints(ep_val);
        result.push(
            Endpoint { name: pairs[i].0.clone(), description, input, outputs, constraints },
        );
        i += 1;
    }
    Ok(result)
}

/// The document that a YAML value describes. The value must be a mapping;
/// `domain` and `endpoints` must be mappings where they are present.
pub open spec fn spec_of(yaml: YamlView) -> Result<SpecDocView, Seq<char>> {
    if !(yaml is Mapping) {
        Err("Expected top-level YAML mapping"@)
    } else {
        match domain_of(yaml) {
            Err(m) => Err(m),
            Ok(domain_types) => match endpoints_of(yaml) {
                Err(m) => Err(m),
                Ok(endpoints) => Ok(
                    SpecDocView {
                        spec_id: text_at(yaml, "spec"@),
                        title: text_at(yaml, "title"@),
                        owner: text_at(yaml, "owner"@),
                        domain_types,
                        endpoints,
                        quality: quality_of(yaml),
                        traceability: traceability_of(yaml),
                    },
                ),
            },
        }
    }
}

/// Reads a YAML value into a typed specification document.
pub fn parse_spec(yaml: &YamlValue) -> (r: Result<SpecDoc, SpecParseError>)
    ensures
        match r {
            Ok(d) => spec_of(yaml@) == Ok::<SpecDocView, Seq<char>>(d@),
            Err(e) => spec_of(yaml@) == Err::<SpecDocView, Seq<char>>(e.0@),
        },
{
    if yaml.pairs().is_none() {
        return fail("Expected top-level YAML mapping");
    }
    let spec_id = get_text(yaml, "spec");
    let title = get_text(yaml, "title");
    let owner = get_text(yaml, "owner");
    let domain_types = match parse_domain(yaml) {
        Ok(d) => d,
        Err(e) => {
            return Err(e);
        },
    };
    let endpoints = match parse_endpoints(yaml) {
        Ok(e) => e,
        Err(e) => {
            return Err(e);
        },
    };
    let quality = parse_quality(yaml);
    let traceability = parse_traceability(yaml);
    Ok(SpecDoc { spec_id, title, owner, domain_types, endpoints, quality, traceability })
}

} // verus!
