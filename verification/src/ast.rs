//! Typed module tree: the entities and expressions that lowering produces
//! and that every later stage reads.

use vstd::prelude::*;
use crate::lexer::{Span, DurationUnit};

verus! {

/// A complete module.
#[derive(Debug)]
pub struct Module {
    pub name: String,
    pub provenance: Option<Provenance>,
    pub version: Option<i64>,
    pub parent_version: Option<i64>,
    pub delta: Option<Delta>,
    pub types: Vec<TypeDef>,
    pub effect_sets: Vec<EffectSetDef>,
    pub functions: Vec<FnDef>,
    pub extra_meta: Vec<(String, MetaValue)>,
    pub span: Span,
}

/// Provenance metadata: why something exists.
#[derive(Debug)]
pub struct Provenance {
    pub req: Option<String>,
    pub author: Option<String>,
    pub created: Option<String>,
    pub test: Vec<String>,
    pub extra: Vec<(String, MetaValue)>,
    pub span: Span,
}

/// What changed from the parent version.
#[derive(Debug, Clone)]
pub struct Delta {
    pub operation: String,
    pub target: String,
    pub description: Option<String>,
    pub span: Span,
}

/// Type definition with invariants and fields.
#[derive(Debug)]
pub struct TypeDef {
    pub name: String,
    pub invariants: Vec<InvariantExpr>,
    pub fields: Vec<FieldDef>,
    pub extra_meta: Vec<(String, MetaValue)>,
    pub span: Span,
}

/// An invariant, kept as printable S-expression text.
#[derive(Debug, Clone)]
pub struct InvariantExpr {
    pub raw: String,
    pub span: Span,
}

/// Field definition within a type.
#[derive(Debug)]
pub struct FieldDef {
    pub name: String,
    pub type_expr: TypeExpr,
    pub immutable: bool,
    pub generated: bool,
    pub min_len: Option<i64>,
    pub max_len: Option<i64>,
    pub format: Option<String>,
    pub unique_within: Option<String>,
    pub extra_meta: Vec<(String, MetaValue)>,
    pub span: Span,
}

/// Effect set definition.
#[derive(Debug, Clone)]
pub struct EffectSetDef {
    pub name: String,
    pub effects: Vec<Effect>,
    pub span: Span,
}

/// A single effect: kind and target.
#[derive(Debug, Clone)]
pub struct Effect {
    pub kind: EffectKind,
    pub target: String,
}

#[derive(Debug, Clone, Copy, PartialEq, Eq, Hash)]
pub enum EffectKind {
    Reads,
    Writes,
    Sends,
}

/// Function definition.
#[derive(Debug)]
pub struct FnDef {
    pub name: String,
    pub provenance: Option<Provenance>,
    /// Names of effect sets.
    pub effects: Vec<String>,
    pub total: bool,
    pub latency_budget: Option<Duration>,
    pub called_by: Vec<String>,
    pub idempotency_key: Option<Expr>,
    pub params: Vec<ParamDef>,
    pub returns: ReturnsDef,
    pub body: Expr,
    pub extra_meta: Vec<(String, MetaValue)>,
    pub span: Span,
}

/// Duration value.
#[derive(Debug, Clone, Copy)]
pub struct Duration {
    pub value: u64,
    pub unit: DurationUnit,
}

/// Parameter definition.
#[derive(Debug)]
pub struct ParamDef {
    pub name: String,
    pub type_expr: TypeExpr,
    pub source: Option<String>,
    pub content_type: Option<String>,
    pub validated_at: Option<String>,
    pub extra_meta: Vec<(String, MetaValue)>,
    pub span: Span,
}

/// Returns definition: a union of variants.
#[derive(Debug)]
pub struct ReturnsDef {
    pub variants: Vec<Variant>,
    pub span: Span,
}

/// A variant in a union return type.
#[derive(Debug)]
pub struct Variant {
    pub kind: VariantKind,
    pub span: Span,
}

#[derive(Debug)]
pub enum VariantKind {
    Success {
        type_expr: TypeExpr,
        http_status: Option<i64>,
        serialize: Option<String>,
        extra_meta: Vec<(String, MetaValue)>,
    },
    Failure {
        tag: String,
        payload: TypeExpr,
        http_status: Option<i64>,
        extra_meta: Vec<(String, MetaValue)>,
    },
}

/// Type expressions.
#[derive(Debug)]
pub enum TypeExpr {
    Named(String),
    Mapping(Vec<(String, TypeExpr)>),
    List(Box<TypeExpr>),
    Union(Vec<Variant>),
    Enum(Vec<String>),
}

/// Expressions.
#[derive(Debug)]
pub enum Expr {
    Ref(String, Span),
    Keyword(String, Span),
    StringLit(String, Span),
    IntLit(i64, Span),
    BoolLit(bool, Span),
    Let { bindings: Vec<(String, Expr)>, body: Box<Expr>, span: Span },
    Match { expr: Box<Expr>, arms: Vec<MatchArm>, span: Span },
    If { cond: Box<Expr>, then_branch: Box<Expr>, else_branch: Box<Expr>, span: Span },
    Call { name: String, args: Vec<Expr>, span: Span },
    FieldAccess { expr: Box<Expr>, field: String, span: Span },
    Success(Box<Expr>, Span),
    Failure { tag: String, payload: Box<Expr>, span: Span },
    MapLit(Vec<(String, Expr)>, Span),
    Wildcard(Span),
}

/// A match arm: pattern and body.
#[derive(Debug)]
pub struct MatchArm {
    pub pattern: Pattern,
    pub body: Expr,
    pub span: Span,
}

/// Patterns for match expressions.
#[derive(Debug)]
pub enum Pattern {
    Wildcard(Span),
    Var(String, Span),
    Constructor { name: String, args: Vec<Pattern>, span: Span },
    Keyword(String, Span),
}

/// Catch-all metadata value.
#[derive(Debug)]
pub enum MetaValue {
    Str(String),
    Int(i64),
    Bool(bool),
    Symbol(String),
    Keyword(String),
    List(Vec<MetaValue>),
    Mapping(Vec<(String, MetaValue)>),
    Duration(u64, DurationUnit),
    Expr(Expr),
}


pub ghost struct ModuleView {
    pub name: Seq<char>,
    pub provenance: Option<ProvenanceView>,
    pub version: Option<i64>,
    pub parent_version: Option<i64>,
    pub delta: Option<DeltaView>,
    pub types: Seq<TypeDefView>,
    pub effect_sets: Seq<EffectSetView>,
    pub functions: Seq<FnDefView>,
    pub extra_meta: Seq<(Seq<char>, MetaView)>,
    pub span: Span,
}

pub ghost struct ProvenanceView {
    pub req: Option<Seq<char>>,
    pub author: Option<Seq<char>>,
    pub created: Option<Seq<char>>,
    pub test: Seq<Seq<char>>,
    pub extra: Seq<(Seq<char>, MetaView)>,
    pub span: Span,
}

pub ghost struct DeltaView {
    pub operation: Seq<char>,
    pub target: Seq<char>,
    pub description: Option<Seq<char>>,
    pub span: Span,
}

pub ghost struct TypeDefView {
    pub name: Seq<char>,
    pub invariants: Seq<InvariantView>,
    pub fields: Seq<FieldDefView>,
    pub extra_meta: Seq<(Seq<char>, MetaView)>,
    pub span: Span,
}

pub ghost struct InvariantView {
    pub raw: Seq<char>,
    pub span: Span,
}

pub ghost struct FieldDefView {
    pub name: Seq<char>,
    pub type_expr: TypeView,
    pub immutable: bool,
    pub generated: bool,
    pub min_len: Option<i64>,
    pub max_len: Option<i64>,
    pub format: Option<Seq<char>>,
    pub unique_within: Option<Seq<char>>,
    pub extra_meta: Seq<(Seq<char>, MetaView)>,
    pub span: Span,
}

pub ghost struct EffectSetView {
    pub name: Seq<char>,
    pub effects: Seq<EffectView>,
    pub span: Span,
}

pub ghost struct EffectView {
    pub kind: EffectKind,
    pub target: Seq<char>,
}

pub ghost struct FnDefView {
    pub name: Seq<char>,
    pub provenance: Option<ProvenanceView>,
    pub effects: Seq<Seq<char>>,
    pub total: bool,
    pub latency_budget: Option<Duration>,
    pub called_by: Seq<Seq<char>>,
    pub idempotency_key: Option<ExprView>,
    pub params: Seq<ParamDefView>,
    pub returns: ReturnsView,
    pub body: ExprView,
    pub extra_meta: Seq<(Seq<char>, MetaView)>,
    pub span: Span,
}

pub ghost struct ParamDefView {
    pub name: Seq<char>,
    pub type_expr: TypeView,
    pub source: Option<Seq<char>>,
    pub content_type: Option<Seq<char>>,
    pub validated_at: Option<Seq<char>>,
    pub extra_meta: Seq<(Seq<char>, MetaView)>,
    pub span: Span,
}

pub ghost struct ReturnsView {
    pub variants: Seq<VariantView>,
    pub span: Span,
}

pub ghost struct VariantView {
    pub kind: VariantKindView,
    pub span: Span,
}

pub ghost enum VariantKindView {
    Success {
        type_expr: TypeView,
        http_status: Option<i64>,
        serialize: Option<Seq<char>>,
        extra_meta: Seq<(Seq<char>, MetaView)>,
    },
    Failure {
        tag: Seq<char>,
        payload: TypeView,
        http_status: Option<i64>,
        extra_meta: Seq<(Seq<char>, MetaView)>,
    },
}

pub ghost enum TypeView {
    Named(Seq<char>),
    Mapping(Seq<(Seq<char>, TypeView)>),
    List(Box<TypeView>),
    Union(Seq<VariantView>),
    Enum(Seq<Seq<char>>),
}

pub ghost enum ExprView {
    Ref(Seq<char>, Span),
    Keyword(Seq<char>, Span),
    StringLit(Seq<char>, Span),
    IntLit(i64, Span),
    BoolLit(bool, Span),
    Let { bindings: Seq<(Seq<char>, ExprView)>, body: Box<ExprView>, span: Span },
    Match { expr: Box<ExprView>, arms: Seq<MatchArmView>, span: Span },
    If { cond: Box<ExprView>, then_branch: Box<ExprView>, else_branch: Box<ExprView>, span: Span },
    Call { name: Seq<char>, args: Seq<ExprView>, span: Span },
    FieldAccess { expr: Box<ExprView>, field: Seq<char>, span: Span },
    Success(Box<ExprView>, Span),
    Failure { tag: Seq<char>, payload: Box<ExprView>, span: Span },
    MapLit(Seq<(Seq<char>, ExprView)>, Span),
    Wildcard(Span),
}

pub ghost struct MatchArmView {
    pub pattern: PatternView,
    pub body: ExprView,
    pub span: Span,
}

pub ghost enum PatternView {
    Wildcard(Span),
    Var(Seq<char>, Span),
    Constructor { name: Seq<char>, args: Seq<PatternView>, span: Span },
    Keyword(Seq<char>, Span),
}

pub ghost enum MetaView {
    Str(Seq<char>),
    Int(i64),
    Bool(bool),
    Symbol(Seq<char>),
    Keyword(Seq<char>),
    List(Seq<MetaView>),
    Mapping(Seq<(Seq<char>, MetaView)>),
    Duration(u64, DurationUnit),
    Expr(ExprView),
}

/// The views of a sequence of strings.
pub open spec fn strs_view(s: Seq<String>) -> Seq<Seq<char>> {
    Seq::new(s.len(), |i: int| s[i]@)
}

/// The view of an optional string.
pub open spec fn opt_str_view(o: Option<String>) -> Option<Seq<char>> {
    match o {
        Some(s) => Some(s@),
        None => None,
    }
}

pub open spec fn exprs_view(s: Seq<Expr>) -> Seq<ExprView>
    decreases s,
{
    Seq::new(s.len(), |i: int| if 0 <= i < s.len() { s[i].model() } else { arbitrary() })
}

pub open spec fn bindings_view(s: Seq<(String, Expr)>) -> Seq<(Seq<char>, ExprView)>
    decreases s,
{
    Seq::new(
        s.len(),
        |i: int| if 0 <= i < s.len() { (s[i].0@, s[i].1.model()) } else { arbitrary() },
    )
}

pub open spec fn arms_view(s: Seq<MatchArm>) -> Seq<MatchArmView>
    decreases s,
{
    Seq::new(s.len(), |i: int| if 0 <= i < s.len() { s[i].model() } else { arbitrary() })
}

pub open spec fn patterns_view(s: Seq<Pattern>) -> Seq<PatternView>
    decreases s,
{
    Seq::new(s.len(), |i: int| if 0 <= i < s.len() { s[i].model() } else { arbitrary() })
}

pub open spec fn variants_view(s: Seq<Variant>) -> Seq<VariantView>
    decreases s,
{
    Seq::new(s.len(), |i: int| if 0 <= i < s.len() { s[i].model() } else { arbitrary() })
}

pub open spec fn type_fields_view(s: Seq<(String, TypeExpr)>) -> Seq<(Seq<char>, TypeView)>
    decreases s,
{
    Seq::new(
        s.len(),
        |i: int| if 0 <= i < s.len() { (s[i].0@, s[i].1.model()) } else { arbitrary() },
    )
}

pub open spec fn metas_view(s: Seq<MetaValue>) -> Seq<MetaView>
    decreases s,
{
    Seq::new(s.len(), |i: int| if 0 <= i < s.len() { s[i].model() } else { arbitrary() })
}

pub open spec fn meta_pairs_view(s: Seq<(String, MetaValue)>) -> Seq<(Seq<char>, MetaView)>
    decreases s,
{
    Seq::new(
        s.len(),
        |i: int| if 0 <= i < s.len() { (s[i].0@, s[i].1.model()) } else { arbitrary() },
    )
}

impl TypeExpr {
    pub open spec fn model(self) -> TypeView
        decreases self,
    {
        match self {
            TypeExpr::Named(n) => TypeView::Named(n@),
            TypeExpr::Mapping(fields) => TypeView::Mapping(type_fields_view(fields@)),
            TypeExpr::List(inner) => TypeView::List(Box::new(inner.model())),
            TypeExpr::Union(variants) => TypeView::Union(variants_view(variants@)),
            TypeExpr::Enum(tags) => TypeView::Enum(strs_view(tags@)),
        }
    }
}

impl Variant {
    pub open spec fn model(self) -> VariantView
        decreases self,
    {
        VariantView { kind: self.kind.model(), span: self.span }
    }
}

impl VariantKind {
    pub open spec fn model(self) -> VariantKindView
        decreases self,
    {
        match self {
            VariantKind::Success {
                type_expr,
                http_status,
                serialize,
                extra_meta,
            } => VariantKindView::Success {
                type_expr: type_expr.model(),
                http_status,
                serialize: opt_str_view(serialize),
                extra_meta: meta_pairs_view(extra_meta@),
            },
            VariantKind::Failure { tag, payload, http_status, extra_meta } => VariantKindView::Failure {
                tag: tag@,
                payload: payload.model(),
                http_status,
                extra_meta: meta_pairs_view(extra_meta@),
            },
        }
    }
}

impl MetaValue {
    pub open spec fn model(self) -> MetaView
        decreases self,
    {
        match self {
            MetaValue::Str(s) => MetaView::Str(s@),
            MetaValue::Int(n) => MetaView::Int(n),
            MetaValue::Bool(b) => MetaView::Bool(b),
            MetaValue::Symbol(s) => MetaView::Symbol(s@),
            MetaValue::Keyword(s) => MetaView::Keyword(s@),
            MetaValue::List(items) => MetaView::List(metas_view(items@)),
            MetaValue::Mapping(pairs) => MetaView::Mapping(meta_pairs_view(pairs@)),
            MetaValue::Duration(n, u) => MetaView::Duration(n, u),
            MetaValue::Expr(e) => MetaView::Expr(e.model()),
        }
    }
}

impl Expr {
    pub open spec fn model(self) -> ExprView
        decreases self,
    {
        match self {
            Expr::Ref(s, span) => ExprView::Ref(s@, span),
            Expr::Keyword(s, span) => ExprView::Keyword(s@, span),
            Expr::StringLit(s, span) => ExprView::StringLit(s@, span),
            Expr::IntLit(n, span) => ExprView::IntLit(n, span),
            Expr::BoolLit(b, span) => ExprView::BoolLit(b, span),
            Expr::Let { bindings, body, span } => ExprView::Let {
                bindings: bindings_view(bindings@),
                body: Box::new(body.model()),
                span,
            },
            Expr::Match { expr, arms, span } => ExprView::Match {
                expr: Box::new(expr.model()),
                arms: arms_view(arms@),
                span,
            },
            Expr::If { cond, then_branch, else_branch, span } => ExprView::If {
                cond: Box::new(cond.model()),
                then_branch: Box::new(then_branch.model()),
                else_branch: Box::new(else_branch.model()),
                span,
            },
            Expr::Call { name, args, span } => ExprView::Call {
                name: name@,
                args: exprs_view(args@),
                span,
            },
            Expr::FieldAccess { expr, field, span } => ExprView::FieldAccess {
                expr: Box::new(expr.model()),
                field: field@,
                span,
            },
            Expr::Success(inner, span) => ExprView::Success(Box::new(inner.model()), span),
            Expr::Failure { tag, payload, span } => ExprView::Failure {
                tag: tag@,
                payload: Box::new(payload.model()),
                span,
            },
            Expr::MapLit(entries, span) => ExprView::MapLit(bindings_view(entries@), span),
            Expr::Wildcard(span) => ExprView::Wildcard(span),
        }
    }
}

impl MatchArm {
    pub open spec fn model(self) -> MatchArmView
        decreases self,
    {
        MatchArmView { pattern: self.pattern.model(), body: self.body.model(), span: self.span }
    }
}

impl Pattern {
    pub open spec fn model(self) -> PatternView
        decreases self,
    {
        match self {
            Pattern::Wildcard(span) => PatternView::Wildcard(span),
            Pattern::Var(s, span) => PatternView::Var(s@, span),
            Pattern::Constructor { name, args, span } => PatternView::Constructor {
                name: name@,
                args: patterns_view(args@),
                span,
            },
            Pattern::Keyword(s, span) => PatternView::Keyword(s@, span),
        }
    }
}

impl View for TypeExpr {
    type V = TypeView;

    open spec fn view(&self) -> TypeView {
        self.model()
    }
}

impl View for Variant {
    type V = VariantView;

    open spec fn view(&self) -> VariantView {
        self.model()
    }
}

impl View for VariantKind {
    type V = VariantKindView;

    open spec fn view(&self) -> VariantKindView {
        self.model()
    }
}

impl View for MetaValue {
    type V = MetaView;

    open spec fn view(&self) -> MetaView {
        self.model()
    }
}

impl View for Expr {
    type V = ExprView;

    open spec fn view(&self) -> ExprView {
        self.model()
    }
}

impl View for MatchArm {
    type V = MatchArmView;

    open spec fn view(&self) -> MatchArmView {
        self.model()
    }
}

impl View for Pattern {
    type V = PatternView;

    open spec fn view(&self) -> PatternView {
        self.model()
    }
}

impl View for Delta {
    type V = DeltaView;

    open spec fn view(&self) -> DeltaView {
        DeltaView {
            operation: self.operation@,
            target: self.target@,
            description: opt_str_view(self.description),
            span: self.span,
        }
    }
}

impl View for InvariantExpr {
    type V = InvariantView;

    open spec fn view(&self) -> InvariantView {
        InvariantView { raw: self.raw@, span: self.span }
    }
}

impl View for Effect {
    type V = EffectView;

    open spec fn view(&self) -> EffectView {
        EffectView { kind: self.kind, target: self.target@ }
    }
}

impl View for EffectSetDef {
    type V = EffectSetView;

    open spec fn view(&self) -> EffectSetView {
        EffectSetView {
            name: self.name@,
            effects: effects_view(self.effects@),
            span: self.span,
        }
    }
}

impl View for Provenance {
    type V = ProvenanceView;

    open spec fn view(&self) -> ProvenanceView {
        ProvenanceView {
            req: opt_str_view(self.req),
            author: opt_str_view(self.author),
            created: opt_str_view(self.created),
            test: strs_view(self.test@),
            extra: meta_pairs_view(self.extra@),
            span: self.span,
        }
    }
}

/// The view of an optional provenance record.
pub open spec fn opt_prov_view(o: Option<Provenance>) -> Option<ProvenanceView> {
    match o {
        Some(p) => Some(p@),
        None => None,
    }
}

impl View for FieldDef {
    type V = FieldDefView;

    open spec fn view(&self) -> FieldDefView {
        FieldDefView {
            name: self.name@,
            type_expr: self.type_expr@,
            immutable: self.immutable,
            generated: self.generated,
            min_len: self.min_len,
            max_len: self.max_len,
            format: opt_str_view(self.format),
            unique_within: opt_str_view(self.unique_within),
            extra_meta: meta_pairs_view(self.extra_meta@),
            span: self.span,
        }
    }
}

impl View for TypeDef {
    type V = TypeDefView;

    open spec fn view(&self) -> TypeDefView {
        TypeDefView {
            name: self.name@,
            invariants: invariants_view(self.invariants@),
            fields: fields_view(self.fields@),
            extra_meta: meta_pairs_view(self.extra_meta@),
            span: self.span,
        }
    }
}

impl View for ParamDef {
    type V = ParamDefView;

    open spec fn view(&self) -> ParamDefView {
        ParamDefView {
            name: self.name@,
            type_expr: self.type_expr@,
            source: opt_str_view(self.source),
            content_type: opt_str_view(self.content_type),
            validated_at: opt_str_view(self.validated_at),
            extra_meta: meta_pairs_view(self.extra_meta@),
            span: self.span,
        }
    }
}

impl View for ReturnsDef {
    type V = ReturnsView;

    open spec fn view(&self) -> ReturnsView {
        ReturnsView { variants: variants_view(self.variants@), span: self.span }
    }
}

impl View for FnDef {
    type V = FnDefView;

    open spec fn view(&self) -> FnDefView {
        FnDefView {
            name: self.name@,
            provenance: opt_prov_view(self.provenance),
            effects: strs_view(self.effects@),
            total: self.total,
            latency_budget: self.latency_budget,
            called_by: strs_view(self.called_by@),
            idempotency_key: match self.idempotency_key {
                Some(e) => Some(e@),
                None => None,
            },
            params: params_view(self.params@),
            returns: self.returns@,
            body: self.body@,
            extra_meta: meta_pairs_view(self.extra_meta@),
            span: self.span,
        }
    }
}

impl View for Module {
    type V = ModuleView;

    open spec fn view(&self) -> ModuleView {
        ModuleView {
            name: self.name@,
            provenance: opt_prov_view(self.provenance),
            version: self.version,
            parent_version: self.parent_version,
            delta: match self.delta {
                Some(d) => Some(d@),
                None => None,
            },
            types: typedefs_view(self.types@),
            effect_sets: effect_sets_view(self.effect_sets@),
            functions: fndefs_view(self.functions@),
            extra_meta: meta_pairs_view(self.extra_meta@),
            span: self.span,
        }
    }
}


pub broadcast proof fn lemma_strs_push(s: Seq<String>, x: String)
    ensures
        #[trigger] strs_view(s.push(x)) == strs_view(s).push(x@),
{
    assert(strs_view(s.push(x)) =~= strs_view(s).push(x@));
}

pub broadcast proof fn lemma_exprs_push(s: Seq<Expr>, x: Expr)
    ensures
        #[trigger] exprs_view(s.push(x)) == exprs_view(s).push(x@),
{
    assert(exprs_view(s.push(x)) =~= exprs_view(s).push(x@));
}

pub broadcast proof fn lemma_bindings_push(s: Seq<(String, Expr)>, x: (String, Expr))
    ensures
        #[trigger] bindings_view(s.push(x)) == bindings_view(s).push((x.0@, x.1@)),
{
    assert(bindings_view(s.push(x)) =~= bindings_view(s).push((x.0@, x.1@)));
}

pub broadcast proof fn lemma_arms_push(s: Seq<MatchArm>, x: MatchArm)
    ensures
        #[trigger] arms_view(s.push(x)) == arms_view(s).push(x@),
{
    assert(arms_view(s.push(x)) =~= arms_view(s).push(x@));
}

pub broadcast proof fn lemma_patterns_push(s: Seq<Pattern>, x: Pattern)
    ensures
        #[trigger] patterns_view(s.push(x)) == patterns_view(s).push(x@),
{
    assert(patterns_view(s.push(x)) =~= patterns_view(s).push(x@));
}

pub broadcast proof fn lemma_variants_push(s: Seq<Variant>, x: Variant)
    ensures
        #[trigger] variants_view(s.push(x)) == variants_view(s).push(x@),
{
    assert(variants_view(s.push(x)) =~= variants_view(s).push(x@));
}

pub broadcast proof fn lemma_type_fields_push(s: Seq<(String, TypeExpr)>, x: (String, TypeExpr))
    ensures
        #[trigger] type_fields_view(s.push(x)) == type_fields_view(s).push((x.0@, x.1@)),
{
    assert(type_fields_view(s.push(x)) =~= type_fields_view(s).push((x.0@, x.1@)));
}

pub broadcast proof fn lemma_metas_push(s: Seq<MetaValue>, x: MetaValue)
    ensures
        #[trigger] metas_view(s.push(x)) == metas_view(s).push(x@),
{
    assert(metas_view(s.push(x)) =~= metas_view(s).push(x@));
}

pub broadcast proof fn lemma_meta_pairs_push(s: Seq<(String, MetaValue)>, x: (String, MetaValue))
    ensures
        #[trigger] meta_pairs_view(s.push(x)) == meta_pairs_view(s).push((x.0@, x.1@)),
{
    assert(meta_pairs_view(s.push(x)) =~= meta_pairs_view(s).push((x.0@, x.1@)));
}

pub broadcast proof fn lemma_strs_empty()
    ensures
        #[trigger] strs_view(Seq::<String>::empty()) == Seq::<Seq<char>>::empty(),
{
    assert(strs_view(Seq::<String>::empty()) =~= Seq::<Seq<char>>::empty());
}

pub broadcast proof fn lemma_exprs_empty()
    ensures
        #[trigger] exprs_view(Seq::<Expr>::empty()) == Seq::<ExprView>::empty(),
{
    assert(exprs_view(Seq::<Expr>::empty()) =~= Seq::<ExprView>::empty());
}

pub broadcast proof fn lemma_bindings_empty()
    ensures
        #[trigger] bindings_view(Seq::<(String, Expr)>::empty()) == Seq::<(Seq<char>, ExprView)>::empty(),
{
    assert(bindings_view(Seq::<(String, Expr)>::empty()) =~= Seq::<(Seq<char>, ExprView)>::empty());
}

pub broadcast proof fn lemma_arms_empty()
    ensures
        #[trigger] arms_view(Seq::<MatchArm>::empty()) == Seq::<MatchArmView>::empty(),
{
    assert(arms_view(Seq::<MatchArm>::empty()) =~= Seq::<MatchArmView>::empty());
}

pub broadcast proof fn lemma_patterns_empty()
    ensures
        #[trigger] patterns_view(Seq::<Pattern>::empty()) == Seq::<PatternView>::empty(),
{
    assert(patterns_view(Seq::<Pattern>::empty()) =~= Seq::<PatternView>::empty());
}

pub broadcast proof fn lemma_variants_empty()
    ensures
        #[trigger] variants_view(Seq::<Variant>::empty()) == Seq::<VariantView>::empty(),
{
    assert(variants_view(Seq::<Variant>::empty()) =~= Seq::<VariantView>::empty());
}

pub broadcast proof fn lemma_type_fields_empty()
    ensures
        #[trigger] type_fields_view(Seq::<(String, TypeExpr)>::empty()) == Seq::<(Seq<char>, TypeView)>::empty(),
{
    assert(type_fields_view(Seq::<(String, TypeExpr)>::empty()) =~= Seq::<(Seq<char>, TypeView)>::empty());
}

pub broadcast proof fn lemma_metas_empty()
    ensures
        #[trigger] metas_view(Seq::<MetaValue>::empty()) == Seq::<MetaView>::empty(),
{
    assert(metas_view(Seq::<MetaValue>::empty()) =~= Seq::<MetaView>::empty());
}

pub broadcast proof fn lemma_meta_pairs_empty()
    ensures
        #[trigger] meta_pairs_view(Seq::<(String, MetaValue)>::empty()) == Seq::<(Seq<char>, MetaView)>::empty(),
{
    assert(meta_pairs_view(Seq::<(String, MetaValue)>::empty()) =~= Seq::<(Seq<char>, MetaView)>::empty());
}

/// The views of a sequence of items.
pub open spec fn invariants_view(s: Seq<InvariantExpr>) -> Seq<InvariantView> {
    Seq::new(s.len(), |i: int| s[i]@)
}

/// The views of a sequence of items.
pub open spec fn fields_view(s: Seq<FieldDef>) -> Seq<FieldDefView> {
    Seq::new(s.len(), |i: int| s[i]@)
}

/// The views of a sequence of items.
pub open spec fn effects_view(s: Seq<Effect>) -> Seq<EffectView> {
    Seq::new(s.len(), |i: int| s[i]@)
}

/// The views of a sequence of items.
pub open spec fn params_view(s: Seq<ParamDef>) -> Seq<ParamDefView> {
    Seq::new(s.len(), |i: int| s[i]@)
}

/// The views of a sequence of items.
pub open spec fn typedefs_view(s: Seq<TypeDef>) -> Seq<TypeDefView> {
    Seq::new(s.len(), |i: int| s[i]@)
}

/// The views of a sequence of items.
pub open spec fn effect_sets_view(s: Seq<EffectSetDef>) -> Seq<EffectSetView> {
    Seq::new(s.len(), |i: int| s[i]@)
}

/// The views of a sequence of items.
pub open spec fn fndefs_view(s: Seq<FnDef>) -> Seq<FnDefView> {
    Seq::new(s.len(), |i: int| s[i]@)
}

pub broadcast proof fn lemma_invariants_push(s: Seq<InvariantExpr>, x: InvariantExpr)
    ensures
        #[trigger] invariants_view(s.push(x)) == invariants_view(s).push(x@),
{
    assert(invariants_view(s.push(x)) =~= invariants_view(s).push(x@));
}

pub broadcast proof fn lemma_invariants_empty()
    ensures
        #[trigger] invariants_view(Seq::<InvariantExpr>::empty()) == Seq::<InvariantView>::empty(),
{
    assert(invariants_view(Seq::<InvariantExpr>::empty()) =~= Seq::<InvariantView>::empty());
}

pub broadcast proof fn lemma_fields_push(s: Seq<FieldDef>, x: FieldDef)
    ensures
        #[trigger] fields_view(s.push(x)) == fields_view(s).push(x@),
{
    assert(fields_view(s.push(x)) =~= fields_view(s).push(x@));
}

pub broadcast proof fn lemma_fields_empty()
    ensures
        #[trigger] fields_view(Seq::<FieldDef>::empty()) == Seq::<FieldDefView>::empty(),
{
    assert(fields_view(Seq::<FieldDef>::empty()) =~= Seq::<FieldDefView>::empty());
}

pub broadcast proof fn lemma_effects_push(s: Seq<Effect>, x: Effect)
    ensures
        #[trigger] effects_view(s.push(x)) == effects_view(s).push(x@),
{
    assert(effects_view(s.push(x)) =~= effects_view(s).push(x@));
}

pub broadcast proof fn lemma_effects_empty()
    ensures
        #[trigger] effects_view(Seq::<Effect>::empty()) == Seq::<EffectView>::empty(),
{
    assert(effects_view(Seq::<Effect>::empty()) =~= Seq::<EffectView>::empty());
}

pub broadcast proof fn lemma_params_push(s: Seq<ParamDef>, x: ParamDef)
    ensures
        #[trigger] params_view(s.push(x)) == params_view(s).push(x@),
{
    assert(params_view(s.push(x)) =~= params_view(s).push(x@));
}

pub broadcast proof fn lemma_params_empty()
    ensures
        #[trigger] params_view(Seq::<ParamDef>::empty()) == Seq::<ParamDefView>::empty(),
{
    assert(params_view(Seq::<ParamDef>::empty()) =~= Seq::<ParamDefView>::empty());
}

pub broadcast proof fn lemma_typedefs_push(s: Seq<TypeDef>, x: TypeDef)
    ensures
        #[trigger] typedefs_view(s.push(x)) == typedefs_view(s).push(x@),
{
    assert(typedefs_view(s.push(x)) =~= typedefs_view(s).push(x@));
}

pub broadcast proof fn lemma_typedefs_empty()
    ensures
        #[trigger] typedefs_view(Seq::<TypeDef>::empty()) == Seq::<TypeDefView>::empty(),
{
    assert(typedefs_view(Seq::<TypeDef>::empty()) =~= Seq::<TypeDefView>::empty());
}

pub broadcast proof fn lemma_effect_sets_push(s: Seq<EffectSetDef>, x: EffectSetDef)
    ensures
        #[trigger] effect_sets_view(s.push(x)) == effect_sets_view(s).push(x@),
{
    assert(effect_sets_view(s.push(x)) =~= effect_sets_view(s).push(x@));
}

pub broadcast proof fn lemma_effect_sets_empty()
    ensures
        #[trigger] effect_sets_view(Seq::<EffectSetDef>::empty()) == Seq::<EffectSetView>::empty(),
{
    assert(effect_sets_view(Seq::<EffectSetDef>::empty()) =~= Seq::<EffectSetView>::empty());
}

pub broadcast proof fn lemma_fndefs_push(s: Seq<FnDef>, x: FnDef)
    ensures
        #[trigger] fndefs_view(s.push(x)) == fndefs_view(s).push(x@),
{
    assert(fndefs_view(s.push(x)) =~= fndefs_view(s).push(x@));
}

pub broadcast proof fn lemma_fndefs_empty()
    ensures
        #[trigger] fndefs_view(Seq::<FnDef>::empty()) == Seq::<FnDefView>::empty(),
{
    assert(fndefs_view(Seq::<FnDef>::empty()) =~= Seq::<FnDefView>::empty());
}

pub broadcast group group_ast_views {
    lemma_invariants_push,
    lemma_invariants_empty,
    lemma_fields_push,
    lemma_fields_empty,
    lemma_effects_push,
    lemma_effects_empty,
    lemma_params_push,
    lemma_params_empty,
    lemma_typedefs_push,
    lemma_typedefs_empty,
    lemma_effect_sets_push,
    lemma_effect_sets_empty,
    lemma_fndefs_push,
    lemma_fndefs_empty,
    lemma_strs_empty,
    lemma_exprs_empty,
    lemma_bindings_empty,
    lemma_arms_empty,
    lemma_patterns_empty,
    lemma_variants_empty,
    lemma_type_fields_empty,
    lemma_metas_empty,
    lemma_meta_pairs_empty,
    lemma_strs_push,
    lemma_exprs_push,
    lemma_bindings_push,
    lemma_arms_push,
    lemma_patterns_push,
    lemma_variants_push,
    lemma_type_fields_push,
    lemma_metas_push,
    lemma_meta_pairs_push,
}

} // verus!
