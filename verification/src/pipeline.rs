//! The compiler pipeline: source text through lexer, reader and lowerer to
//! a module, through the semantic passes, to generated text. Lexical,
//! syntactic and lowering failures are fatal; semantic errors halt before
//! code generation; warnings do not.

use vstd::prelude::*;
use vstd::string::StringExecFns;
use crate::ast::{Module, ModuleView};
use crate::codegen::rust::RustCodegen;
use crate::codegen::rust_v2::RustV2Codegen;
use crate::diagnostics::{Diagnostic, DiagnosticKind, DiagnosticView, diags_view};
use crate::generate::pct_emitter::{PctEmitter, all_total, emit_spec, slug, slugify};
use crate::generate::spec_ast::{QualityRule, quality_view};
use crate::ast::{FnDefView, fndefs_view};
use crate::text::{left, str_eq};
use crate::generate::spec_ast::{SpecDoc, SpecDocView};
use crate::generate::spec_parser::{parse_spec, spec_of};
use crate::generate::yaml_parser::{YamlParser, parse_yaml, read_yaml};
use crate::generate::yaml_ast::YamlView;
use crate::lexer::{Lexer, LexOutcome, lex};
use crate::lower::{Lowerer, lower_module_spec, fault_span, span_of};
use crate::lexer::Span;
use crate::parser::{Parser, ParseOutcome, parse, sexprs_view};
use crate::semantic::{analyze, analyze_spec};

verus! {

/// Why the front end stopped.
#[derive(Debug)]
pub enum FrontEndError {
    /// The lexer failed, with its message.
    Lex(String),
    /// The reader failed, with its message.
    Parse(String),
    /// The source holds no top-level expression.
    Empty,
    /// Lowering the first top-level expression failed, with its message and
    /// the span of the form at fault.
    Lower(String, Span),
}

pub ghost enum FrontEndErrorView {
    Lex(Seq<char>),
    Parse(Seq<char>),
    Empty,
    Lower(Seq<char>, Span),
}

impl View for FrontEndError {
    type V = FrontEndErrorView;

    open spec fn view(&self) -> FrontEndErrorView {
        match self {
            FrontEndError::Lex(m) => FrontEndErrorView::Lex(m@),
            FrontEndError::Parse(m) => FrontEndErrorView::Parse(m@),
            FrontEndError::Empty => FrontEndErrorView::Empty,
            FrontEndError::Lower(m, span) => FrontEndErrorView::Lower(m@, *span),
        }
    }
}

impl FrontEndError {
    /// The failure as one line of text.
    pub open spec fn message(self) -> Seq<char> {
        match self {
            FrontEndError::Lex(m) => "Lexer error: "@ + m@,
            FrontEndError::Parse(m) => "Parse error: "@ + m@,
            FrontEndError::Empty => "No top-level expressions found"@,
            FrontEndError::Lower(m, _) => "Lowering error: "@ + m@,
        }
    }

    /// The failure as one line of text.
    pub fn to_string(&self) -> (r: String)
        ensures
            r@ == self.message(),
    {
        match self {
            FrontEndError::Lex(m) => {
                let mut r = String::from_str("Lexer error: ");
                r.append(m.as_str());
                r
            },
            FrontEndError::Parse(m) => {
                let mut r = String::from_str("Parse error: ");
                r.append(m.as_str());
                r
            },
            FrontEndError::Empty => String::from_str("No top-level expressions found"),
            FrontEndError::Lower(m, _) => {
                let mut r = String::from_str("Lowering error: ");
                r.append(m.as_str());
                r
            },
        }
    }
}

/// What the front end makes of a source text: the module of its first
/// top-level expression with the warnings of lowering, or the first failure.
pub open spec fn front_end_spec(src: Seq<char>) -> Result<
    (ModuleView, Seq<DiagnosticView>),
    FrontEndErrorView,
> {
    match lex(src) {
        LexOutcome::Failed(m) => Err(FrontEndErrorView::Lex(m)),
        LexOutcome::Tokens(toks) => match parse(toks) {
            ParseOutcome::Failed(m) => Err(FrontEndErrorView::Parse(m)),
            ParseOutcome::Program(exprs) => if exprs.len() == 0 {
                Err(FrontEndErrorView::Empty)
            } else {
                let out = lower_module_spec(exprs[0]);
                match out.result {
                    Ok(m) => Ok((m, out.warnings)),
                    Err(e) => Err(
                        FrontEndErrorView::Lower(
                            e,
                            match fault_span(exprs[0]) {
                                Some(span) => span,
                                None => span_of(exprs[0]),
                            },
                        ),
                    ),
                }
            },
        },
    }
}

/// Runs lexer, reader and lowerer on a source text.
pub fn front_end(source: &str) -> (r: Result<(Module, Vec<Diagnostic>), FrontEndError>)
    ensures
        match r {
            Ok((m, warnings)) => front_end_spec(source@) == Ok::<
                (ModuleView, Seq<DiagnosticView>),
                FrontEndErrorView,
            >((m@, diags_view(warnings@))),
            Err(e) => front_end_spec(source@) == Err::<
                (ModuleView, Seq<DiagnosticView>),
                FrontEndErrorView,
            >(e@),
        },
{
    let mut lexer = Lexer::new(source);
    let tokens = match lexer.tokenize() {
        Ok(t) => t,
        Err(e) => {
            return Err(FrontEndError::Lex(e));
        },
    };
    let mut parser = Parser::new(tokens);
    let sexprs = match parser.parse_program() {
        Ok(s) => s,
        Err(e) => {
            return Err(FrontEndError::Parse(e));
        },
    };
    if sexprs.len() == 0 {
        return Err(FrontEndError::Empty);
    }
    let mut lowerer = Lowerer::new();
    assert(diags_view(lowerer.diagnostics@) =~= Seq::<DiagnosticView>::empty());
    let lowered = lowerer.lower_module(&sexprs[0]);
    assert(diags_view(lowerer.diagnostics@) =~= lower_module_spec(sexprs@[0]@).warnings);
    match lowered {
        Ok(m) => Ok((m, lowerer.diagnostics)),
        Err(e) => match lowerer.fault {
            Some(span) => Err(FrontEndError::Lower(e, span)),
            None => Err(FrontEndError::Lower(e, sexprs[0].span.dup())),
        },
    }
}

/// Number of errors among the first `n` diagnostics.
pub open spec fn error_count(ds: Seq<DiagnosticView>, n: int) -> nat
    decreases n,
{
    if n <= 0 || n > ds.len() {
        0
    } else {
        error_count(ds, n - 1) + if ds[n - 1].kind is Error {
            1nat
        } else {
            0nat
        }
    }
}

/// Number of warnings among the first `n` diagnostics.
pub open spec fn warning_count(ds: Seq<DiagnosticView>, n: int) -> nat
    decreases n,
{
    if n <= 0 || n > ds.len() {
        0
    } else {
        warning_count(ds, n - 1) + if ds[n - 1].kind is Warning {
            1nat
        } else {
            0nat
        }
    }
}

/// Counts the errors and the warnings among `diagnostics`.
pub fn count_kinds(diagnostics: &Vec<Diagnostic>) -> (r: (usize, usize))
    ensures
        r.0 == error_count(diags_view(diagnostics@), diagnostics@.len() as int),
        r.1 == warning_count(diags_view(diagnostics@), diagnostics@.len() as int),
{
    let ghost ds = diags_view(diagnostics@);
    let mut errors: usize = 0;
    let mut warnings: usize = 0;
    let mut i: usize = 0;
    while i < diagnostics.len()
        invariant
            i <= diagnostics.len(),
            errors == error_count(ds, i as int),
            warnings == warning_count(ds, i as int),
            errors + warnings == i,
        decreases diagnostics.len() - i,
    {
        match diagnostics[i].kind {
            DiagnosticKind::Error => {
                errors += 1;
            },
            DiagnosticKind::Warning => {
                warnings += 1;
            },
        }
        i += 1;
    }
    (errors, warnings)
}

/// The result of a compilation that passed the front end.
pub struct Compiled {
    /// The name of the module.
    pub module_name: String,
    /// The warnings of lowering.
    pub lowering: Vec<Diagnostic>,
    /// The diagnostics of the semantic passes.
    pub diagnostics: Vec<Diagnostic>,
    /// The generated text; absent where the semantic passes found an error.
    pub code: Option<String>,
}

pub ghost struct CompiledView {
    pub module_name: Seq<char>,
    pub lowering: Seq<DiagnosticView>,
    pub diagnostics: Seq<DiagnosticView>,
    pub code: Option<Seq<char>>,
}

impl View for Compiled {
    type V = CompiledView;

    open spec fn view(&self) -> CompiledView {
        CompiledView {
            module_name: self.module_name@,
            lowering: diags_view(self.lowering@),
            diagnostics: diags_view(self.diagnostics@),
            code: match self.code {
                Some(c) => Some(c@),
                None => None,
            },
        }
    }
}

/// What compiling a source text yields: the front end's failure, or the
/// diagnostics with the text of the chosen generator, which is generated
/// only where the semantic passes report no error.
pub open spec fn compile_spec(src: Seq<char>, use_runtime: bool) -> Result<
    CompiledView,
    FrontEndErrorView,
> {
    match front_end_spec(src) {
        Err(e) => Err(e),
        Ok((m, lowering)) => {
            let ds = analyze_spec(m);
            Ok(
                CompiledView {
                    module_name: m.name,
                    lowering,
                    diagnostics: ds,
                    code: if error_count(ds, ds.len() as int) > 0 {
                        None
                    } else if use_runtime {
                        Some(crate::codegen::rust_v2::generate_spec(m))
                    } else {
                        Some(crate::codegen::rust::generate_spec(m))
                    },
                },
            )
        },
    }
}

/// Compiles a source text: front end, semantic passes, code generation.
pub fn compile(source: &str, use_runtime: bool) -> (r: Result<Compiled, FrontEndError>)
    ensures
        match r {
            Ok(c) => compile_spec(source@, use_runtime) == Ok::<CompiledView, FrontEndErrorView>(c@),
            Err(e) => compile_spec(source@, use_runtime) == Err::<CompiledView, FrontEndErrorView>(
                e@,
            ),
        },
{
    let (module, lowering) = match front_end(source) {
        Ok(p) => p,
        Err(e) => {
            return Err(e);
        },
    };
    let diagnostics = analyze(&module);
    let (errors, _) = count_kinds(&diagnostics);
    let code = if errors > 0 {
        None
    } else if use_runtime {
        Some(RustV2Codegen::new().generate(&module))
    } else {
        Some(RustCodegen::new().generate(&module))
    };
    Ok(Compiled { module_name: module.name.clone(), lowering, diagnostics, code })
}

/// Why generating source text from a YAML document stopped.
#[derive(Debug)]
pub enum GenerateError {
    /// The text is no YAML of the supported subset, with the zero-based line
    /// and the message of the first fault.
    Yaml { line: usize, message: String },
    /// The document is no specification, with the message of the spec lowerer.
    Spec(String),
    /// The generated text does not pass the front end.
    Invalid { source: String, error: FrontEndError },
}

/// What generating from a YAML text yields, before the generated text is
/// validated: the text of the module, or the message of the spec lowerer.
pub open spec fn generate_spec(yaml: Seq<char>) -> Result<Seq<char>, Seq<char>> {
    match spec_of(parse_yaml(yaml)) {
        Ok(d) => Ok(emit_spec(d)),
        Err(m) => Err(m),
    }
}

/// Generates spec-language source text from a YAML specification document
/// and validates it by running the front end on it: a text is returned only
/// where it lexes, reads and lowers. The first fault of the YAML text, if it
/// has one, comes before everything else.
pub fn generate(yaml: &str) -> (r: Result<(String, SpecDoc), GenerateError>)
    ensures
        match r {
            Ok((text, doc)) => read_yaml(yaml@) is Ok && generate_spec(yaml@) == Ok::<
                Seq<char>,
                Seq<char>,
            >(text@) && spec_of(parse_yaml(yaml@)) == Ok::<SpecDocView, Seq<char>>(doc@)
                && front_end_spec(text@) is Ok,
            Err(GenerateError::Yaml { line, message }) => read_yaml(yaml@) == Err::<
                YamlView,
                (int, Seq<char>),
            >((line as int, message@)),
            Err(GenerateError::Spec(m)) => read_yaml(yaml@) is Ok && generate_spec(yaml@) == Err::<
                Seq<char>,
                Seq<char>,
            >(m@),
            Err(GenerateError::Invalid { source, error }) => read_yaml(yaml@) is Ok
                && generate_spec(yaml@) == Ok::<Seq<char>, Seq<char>>(source@) && front_end_spec(
                source@,
            ) == Err::<
                (ModuleView, Seq<DiagnosticView>),
                FrontEndErrorView,
            >(error@),
        },
{
    let mut reader = YamlParser::new(yaml);
    let value = match reader.parse() {
        Ok(v) => v,
        Err(e) => {
            return Err(GenerateError::Yaml { line: e.line, message: e.message });
        },
    };
    let doc = match parse_spec(&value) {
        Ok(d) => d,
        Err(e) => {
            return Err(GenerateError::Spec(e.0));
        },
    };
    let text = PctEmitter::new().emit(&doc);
    match front_end(text.as_str()) {
        Ok(_) => Ok((text, doc)),
        Err(error) => Err(GenerateError::Invalid { source: text, error }),
    }
}


/// Whether the first `n` functions all have the total flag `total`.
pub open spec fn all_flagged(fns: Seq<FnDefView>, total: bool, n: int) -> bool
    decreases n,
{
    if n <= 0 || n > fns.len() {
        true
    } else {
        fns[n - 1].total == total && all_flagged(fns, total, n - 1)
    }
}

/// Whether a module answers a specification document: its name is the slug
/// of the document's title, it has one type for each domain type and one
/// function for each endpoint, each under the name of its domain type or
/// endpoint and in the same order, and each function is total exactly where
/// the document asks that all functions be total.
pub open spec fn answers(d: SpecDocView, m: ModuleView) -> bool {
    &&& m.name == slug(d.title)
    &&& m.types.len() == d.domain_types.len()
    &&& m.functions.len() == d.endpoints.len()
    &&& names_agree(d, m)
    &&& all_flagged(
        m.functions,
        all_total(d.quality, d.quality.len() as int),
        m.functions.len() as int,
    )
}

/// Whether the types and functions of a module have the names of the
/// domain types and endpoints of a document, index by index.
pub open spec fn names_agree(d: SpecDocView, m: ModuleView) -> bool {
    &&& forall|i: int|
        0 <= i < m.types.len() && i < d.domain_types.len() ==> (#[trigger] m.types[i]).name
            == d.domain_types[i].name
    &&& forall|i: int|
        0 <= i < m.functions.len() && i < d.endpoints.len() ==> (#[trigger] m.functions[i]).name
            == d.endpoints[i].name
}

/// Whether `module` answers `doc`.
pub fn check_answers(doc: &SpecDoc, module: &Module) -> (r: bool)
    ensures
        r == answers(doc@, module@),
{
    let name = slugify(doc.title.as_str());
    if !str_eq(module.name.as_str(), name.as_str()) {
        return false;
    }
    if module.types.len() != doc.domain_types.len() {
        return false;
    }
    if module.functions.len() != doc.endpoints.len() {
        return false;
    }
    let mut i: usize = 0;
    while i < module.types.len()
        invariant
            i <= module.types.len(),
            module.types.len() == doc.domain_types.len(),
            forall|k: int|
                0 <= k < i ==> (#[trigger] module@.types[k]).name == doc@.domain_types[k].name,
        decreases module.types.len() - i,
    {
        if !str_eq(module.types[i].name.as_str(), doc.domain_types[i].name.as_str()) {
            assert(module@.types[i as int].name != doc@.domain_types[i as int].name);
            return false;
        }
        i += 1;
    }
    let mut i: usize = 0;
    while i < module.functions.len()
        invariant
            i <= module.functions.len(),
            module.functions.len() == doc.endpoints.len(),
            forall|k: int|
                0 <= k < i ==> (#[trigger] module@.functions[k]).name == doc@.endpoints[k].name,
        decreases module.functions.len() - i,
    {
        if !str_eq(module.functions[i].name.as_str(), doc.endpoints[i].name.as_str()) {
            assert(module@.functions[i as int].name != doc@.endpoints[i as int].name);
            return false;
        }
        i += 1;
    }
    assert(names_agree(doc@, module@));
    let ghost rules = quality_view(doc.quality@);
    let mut total = false;
    let mut i: usize = 0;
    while i < doc.quality.len()
        invariant
            i <= doc.quality.len(),
            total == all_total(rules, i as int),
        decreases doc.quality.len() - i,
    {
        if let QualityRule::AllFunctionsTotal = &doc.quality[i] {
            total = true;
        }
        i += 1;
    }
    let ghost fns = fndefs_view(module.functions@);
    let mut ok = true;
    let mut i: usize = 0;
    while i < module.functions.len()
        invariant
            i <= module.functions.len(),
            ok == all_flagged(fns, total, i as int),
        decreases module.functions.len() - i,
    {
        if module.functions[i].total != total {
            ok = false;
        }
        i += 1;
    }
    ok
}

} // verus!
