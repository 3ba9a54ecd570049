//! Typed specification document read from YAML.

use vstd::prelude::*;

verus! {

/// Typed specification document.
#[derive(Debug, Clone)]
pub struct SpecDoc {
    pub spec_id: String,
    pub title: String,
    pub owner: String,
    pub domain_types: Vec<DomainType>,
    pub endpoints: Vec<Endpoint>,
    pub quality: Vec<QualityRule>,
    pub traceability: Traceability,
}

/// A domain type with its fields.
#[derive(Debug, Clone)]
pub struct DomainType {
    pub name: String,
    pub fields: Vec<FieldSpec>,
}

/// A field descriptor read from natural-language text.
#[derive(Debug, Clone)]
pub struct FieldSpec {
    pub name: String,
    pub required: bool,
    pub field_type: FieldType,
    pub min_len: Option<usize>,
    pub max_len: Option<usize>,
    pub format: Option<String>,
    pub unique: bool,
    pub auto_generated: bool,
    pub immutable: bool,
}

/// The type of a field.
#[derive(Debug, Clone, PartialEq)]
pub enum FieldType {
    StringType,
    UuidType,
    IntType,
    BoolType,
    Unknown(String),
}

/// An endpoint specification.
#[derive(Debug, Clone)]
pub struct Endpoint {
    pub name: String,
    pub description: String,
    pub input: InputSpec,
    pub outputs: Vec<OutputSpec>,
    pub constraints: Vec<Constraint>,
}

/// Where endpoint input comes from.
#[derive(Debug, Clone)]
pub struct InputSpec {
    pub description: String,
    pub source: InputSource,
    pub fields: Vec<FieldSpec>,
}

/// The source of input data.
#[derive(Debug, Clone, Copy, PartialEq)]
pub enum InputSource {
    Url,
    Body,
    Unknown,
}

/// An output variant of an endpoint.
#[derive(Debug, Clone)]
pub struct OutputSpec {
    pub label: String,
    pub description: String,
    pub http_status: Option<u16>,
    pub is_success: bool,
}

/// A constraint on an endpoint.
#[derive(Debug, Clone, PartialEq)]
pub enum Constraint {
    ReadOnly,
    Write,
    MaxResponseTime(String),
    Idempotent(String),
    Other(String),
}

/// Quality rules for the whole document.
#[derive(Debug, Clone, PartialEq)]
pub enum QualityRule {
    AllFunctionsTotal,
    Other(String),
}

/// Traceability metadata.
#[derive(Debug, Clone)]
pub struct Traceability {
    pub known_dependencies: Vec<String>,
}

pub ghost struct SpecDocView {
    pub spec_id: Seq<char>,
    pub title: Seq<char>,
    pub owner: Seq<char>,
    pub domain_types: Seq<DomainTypeView>,
    pub endpoints: Seq<EndpointView>,
    pub quality: Seq<QualityRuleView>,
    pub traceability: TraceabilityView,
}

pub ghost struct DomainTypeView {
    pub name: Seq<char>,
    pub fields: Seq<FieldSpecView>,
}

pub ghost struct FieldSpecView {
    pub name: Seq<char>,
    pub required: bool,
    pub field_type: FieldTypeView,
    pub min_len: Option<usize>,
    pub max_len: Option<usize>,
    pub format: Option<Seq<char>>,
    pub unique: bool,
    pub auto_generated: bool,
    pub immutable: bool,
}

pub ghost enum FieldTypeView {
    StringType,
    UuidType,
    IntType,
    BoolType,
    Unknown(Seq<char>),
}

pub ghost struct EndpointView {
    pub name: Seq<char>,
    pub description: Seq<char>,
    pub input: InputSpecView,
    pub outputs: Seq<OutputSpecView>,
    pub constraints: Seq<ConstraintView>,
}

pub ghost struct InputSpecView {
    pub description: Seq<char>,
    pub source: InputSource,
    pub fields: Seq<FieldSpecView>,
}

pub ghost struct OutputSpecView {
    pub label: Seq<char>,
    pub description: Seq<char>,
    pub http_status: Option<u16>,
    pub is_success: bool,
}

pub ghost enum ConstraintView {
    ReadOnly,
    Write,
    MaxResponseTime(Seq<char>),
    Idempotent(Seq<char>),
    Other(Seq<char>),
}

pub ghost enum QualityRuleView {
    AllFunctionsTotal,
    Other(Seq<char>),
}

pub ghost struct TraceabilityView {
    pub known_dependencies: Seq<Seq<char>>,
}

impl View for FieldType {
    type V = FieldTypeView;

    open spec fn view(&self) -> FieldTypeView {
        match self {
            FieldType::StringType => FieldTypeView::StringType,
            FieldType::UuidType => FieldTypeView::UuidType,
            FieldType::IntType => FieldTypeView::IntType,
            FieldType::BoolType => FieldTypeView::BoolType,
            FieldType::Unknown(s) => FieldTypeView::Unknown(s@),
        }
    }
}

impl View for FieldSpec {
    type V = FieldSpecView;

    open spec fn view(&self) -> FieldSpecView {
        FieldSpecView {
            name: self.name@,
            required: self.required,
            field_type: self.field_type@,
            min_len: self.min_len,
            max_len: self.max_len,
            format: match self.format {
                Some(f) => Some(f@),
                None => None,
            },
            unique: self.unique,
            auto_generated: self.auto_generated,
            immutable: self.immutable,
        }
    }
}

/// The views of a sequence of field descriptors.
pub open spec fn field_specs_view(s: Seq<FieldSpec>) -> Seq<FieldSpecView> {
    Seq::new(s.len(), |i: int| s[i]@)
}

impl View for DomainType {
    type V = DomainTypeView;

    open spec fn view(&self) -> DomainTypeView {
        DomainTypeView { name: self.name@, fields: field_specs_view(self.fields@) }
    }
}

/// The views of a sequence of domain types.
pub open spec fn domain_types_view(s: Seq<DomainType>) -> Seq<DomainTypeView> {
    Seq::new(s.len(), |i: int| s[i]@)
}

impl View for InputSpec {
    type V = InputSpecView;

    open spec fn view(&self) -> InputSpecView {
        InputSpecView {
            description: self.description@,
            source: self.source,
            fields: field_specs_view(self.fields@),
        }
    }
}

impl View for OutputSpec {
    type V = OutputSpecView;

    open spec fn view(&self) -> OutputSpecView {
        OutputSpecView {
            label: self.label@,
            description: self.description@,
            http_status: self.http_status,
            is_success: self.is_success,
        }
    }
}

/// The views of a sequence of outputs.
pub open spec fn outputs_view(s: Seq<OutputSpec>) -> Seq<OutputSpecView> {
    Seq::new(s.len(), |i: int| s[i]@)
}

impl View for Constraint {
    type V = ConstraintView;

    open spec fn view(&self) -> ConstraintView {
        match self {
            Constraint::ReadOnly => ConstraintView::ReadOnly,
            Constraint::Write => ConstraintView::Write,
            Constraint::MaxResponseTime(s) => ConstraintView::MaxResponseTime(s@),
            Constraint::Idempotent(s) => ConstraintView::Idempotent(s@),
            Constraint::Other(s) => ConstraintView::Other(s@),
        }
    }
}

/// The views of a sequence of constraints.
pub open spec fn constraints_view(s: Seq<Constraint>) -> Seq<ConstraintView> {
    Seq::new(s.len(), |i: int| s[i]@)
}

impl View for Endpoint {
    type V = EndpointView;

    open spec fn view(&self) -> EndpointView {
        EndpointView {
            name: self.name@,
            description: self.description@,
            input: self.input@,
            outputs: outputs_view(self.outputs@),
            constraints: constraints_view(self.constraints@),
        }
    }
}

/// The views of a sequence of endpoints.
pub open spec fn endpoints_view(s: Seq<Endpoint>) -> Seq<EndpointView> {
    Seq::new(s.len(), |i: int| s[i]@)
}

impl View for QualityRule {
    type V = QualityRuleView;

    open spec fn view(&self) -> QualityRuleView {
        match self {
            QualityRule::AllFunctionsTotal => QualityRuleView::AllFunctionsTotal,
            QualityRule::Other(s) => QualityRuleView::Other(s@),
        }
    }
}

/// The views of a sequence of quality rules.
pub open spec fn quality_view(s: Seq<QualityRule>) -> Seq<QualityRuleView> {
    Seq::new(s.len(), |i: int| s[i]@)
}

impl View for Traceability {
    type V = TraceabilityView;

    open spec fn view(&self) -> TraceabilityView {
        TraceabilityView {
            known_dependencies: Seq::new(
                self.known_dependencies@.len(),
                |i: int| self.known_dependencies@[i]@,
            ),
        }
    }
}

impl View for SpecDoc {
    type V = SpecDocView;

    open spec fn view(&self) -> SpecDocView {
        SpecDocView {
            spec_id: self.spec_id@,
            title: self.title@,
            owner: self.owner@,
            domain_types: domain_types_view(self.domain_types@),
            endpoints: endpoints_view(self.endpoints@),
            quality: quality_view(self.quality@),
            traceability: self.traceability@,
        }
    }
}

pub broadcast proof fn lemma_field_specs_push(s: Seq<FieldSpec>, x: FieldSpec)
    ensures
        #[trigger] field_specs_view(s.push(x)) == field_specs_view(s).push(x@),
{
    assert(field_specs_view(s.push(x)) =~= field_specs_view(s).push(x@));
}

pub broadcast proof fn lemma_field_specs_empty()
    ensures
        #[trigger] field_specs_view(Seq::<FieldSpec>::empty()) == Seq::<FieldSpecView>::empty(),
{
    assert(field_specs_view(Seq::<FieldSpec>::empty()) =~= Seq::<FieldSpecView>::empty());
}

pub broadcast proof fn lemma_domain_types_push(s: Seq<DomainType>, x: DomainType)
    ensures
        #[trigger] domain_types_view(s.push(x)) == domain_types_view(s).push(x@),
{
    assert(domain_types_view(s.push(x)) =~= domain_types_view(s).push(x@));
}

pub broadcast proof fn lemma_domain_types_empty()
    ensures
        #[trigger] domain_types_view(Seq::<DomainType>::empty()) == Seq::<DomainTypeView>::empty(),
{
    assert(domain_types_view(Seq::<DomainType>::empty()) =~= Seq::<DomainTypeView>::empty());
}

pub broadcast proof fn lemma_outputs_push(s: Seq<OutputSpec>, x: OutputSpec)
    ensures
        #[trigger] outputs_view(s.push(x)) == outputs_view(s).push(x@),
{
    assert(outputs_view(s.push(x)) =~= outputs_view(s).push(x@));
}

pub broadcast proof fn lemma_outputs_empty()
    ensures
        #[trigger] outputs_view(Seq::<OutputSpec>::empty()) == Seq::<OutputSpecView>::empty(),
{
    assert(outputs_view(Seq::<OutputSpec>::empty()) =~= Seq::<OutputSpecView>::empty());
}

pub broadcast proof fn lemma_constraints_push(s: Seq<Constraint>, x: Constraint)
    ensures
        #[trigger] constraints_view(s.push(x)) == constraints_view(s).push(x@),
{
    assert(constraints_view(s.push(x)) =~= constraints_view(s).push(x@));
}

pub broadcast proof fn lemma_constraints_empty()
    ensures
        #[trigger] constraints_view(Seq::<Constraint>::empty()) == Seq::<ConstraintView>::empty(),
{
    assert(constraints_view(Seq::<Constraint>::empty()) =~= Seq::<ConstraintView>::empty());
}

pub broadcast proof fn lemma_endpoints_push(s: Seq<Endpoint>, x: Endpoint)
    ensures
        #[trigger] endpoints_view(s.push(x)) == endpoints_view(s).push(x@),
{
    assert(endpoints_view(s.push(x)) =~= endpoints_view(s).push(x@));
}

pub broadcast proof fn lemma_endpoints_empty()
    ensures
        #[trigger] endpoints_view(Seq::<Endpoint>::empty()) == Seq::<EndpointView>::empty(),
{
    assert(endpoints_view(Seq::<Endpoint>::empty()) =~= Seq::<EndpointView>::empty());
}

pub broadcast proof fn lemma_quality_push(s: Seq<QualityRule>, x: QualityRule)
    ensures
        #[trigger] quality_view(s.push(x)) == quality_view(s).push(x@),
{
    assert(quality_view(s.push(x)) =~= quality_view(s).push(x@));
}

pub broadcast proof fn lemma_quality_empty()
    ensures
        #[trigger] quality_view(Seq::<QualityRule>::empty()) == Seq::<QualityRuleView>::empty(),
{
    assert(quality_view(Seq::<QualityRule>::empty()) =~= Seq::<QualityRuleView>::empty());
}

pub broadcast group group_spec_views {
    lemma_field_specs_push,
    lemma_field_specs_empty,
    lemma_domain_types_push,
    lemma_domain_types_empty,
    lemma_outputs_push,
    lemma_outputs_empty,
    lemma_constraints_push,
    lemma_constraints_empty,
    lemma_endpoints_push,
    lemma_endpoints_empty,
    lemma_quality_push,
    lemma_quality_empty,
}

} // verus!
