use pact::ast::Module;
use pact::codegen::rust::RustCodegen;
use pact::codegen::rust_v2::RustV2Codegen;
use pact::diagnostics::{Diagnostic, DiagnosticKind};
use pact::lexer::{Lexer, TokenKind};
use pact::lower::{format_sexpr, Lowerer};
use pact::parser::{Parser, SExpr};
use pact::scaffold;
use pact::scaffold::route_analysis::{self, HttpMethod};
use pact::semantic::effects::check_effects;

fn read(input: &str) -> Vec<SExpr> {
    let tokens = Lexer::new(input).tokenize().unwrap();
    Parser::new(tokens).parse_program().unwrap()
}

fn lower(input: &str) -> Module {
    let sexprs = read(input);
    Lowerer::new().lower_module(&sexprs[0]).unwrap()
}

const SERVICE: &str = r#"(module user-service
  :version 2
  :parent-version 1
  (type User
    (invariant (> (strlen name) 0))
    (field id UUID :immutable :generated)
    (field name String :min-len 1 :max-len 200)
    (field email String :format :email :unique-within user-store))
  (effect-set db-read [:reads user-store])
  (effect-set db-write [:writes user-store :reads user-store])
  (effect-set audit [:writes audit-log-store])
  (fn get-user
    :effects [db-read]
    :total true
    :latency-budget 50ms
    (param id UUID)
    (returns (union
      (ok User :http 200)
      (err :not-found {:id UUID} :http 404)))
    (match (query user-store {:id id})
      (some user) (ok user)
      (none) (err :not-found {:id id})))
  (fn create-user
    :effects [db-write audit]
    (param input {:name String :email String})
    (returns (union (ok User :http 201)))
    (let [user (insert! user-store input)]
      (ok user))))"#;

#[test]
fn spans_are_ordered_and_non_empty() {
    let source = "(fn get-user ;; comment\n  :total true 10ms \"s\\n\" #/a+/ -5 {:k [v]})";
    let tokens = Lexer::new(source).tokenize().unwrap();
    let (last, rest) = tokens.split_last().unwrap();
    assert_eq!(last.kind, TokenKind::Eof);
    assert_eq!(last.span.start, source.len());
    assert_eq!(last.span.end, source.len());
    let mut previous_end = 0;
    let mut previous_start = 0;
    for token in rest {
        assert!(token.span.start < token.span.end, "{:?}", token);
        assert!(previous_start <= token.span.start, "{:?}", token);
        assert!(previous_end <= token.span.start, "{:?}", token);
        assert!(token.span.end <= source.len());
        previous_start = token.span.start;
        previous_end = token.span.end;
    }
    assert_eq!(rest.len(), 16);
}

#[test]
fn spans_count_bytes() {
    let tokens = Lexer::new("\"é\" x").tokenize().unwrap();
    assert_eq!(tokens[0].kind, TokenKind::StringLit("é".into()));
    assert_eq!((tokens[0].span.start, tokens[0].span.end), (0, 4));
    assert_eq!(tokens[1].kind, TokenKind::Symbol("x".into()));
    assert_eq!((tokens[1].span.start, tokens[1].span.end), (5, 6));
    assert_eq!((tokens[2].span.start, tokens[2].span.end), (6, 6));
}

#[test]
fn canonical_text_of_empty_containers_reads_back() {
    let text = "(() [] {(): [()], []: {}})";
    let first = read(text);
    assert_eq!(first.len(), 1);
    let printed = format_sexpr(&first[0]);
    assert_eq!(printed, text);
    let second = read(&printed);
    assert_eq!(second.len(), 1);
    assert_eq!(second, first);
}

#[test]
fn canonical_text_ignores_layout() {
    let first = read("(  ( )\n [ ]  { ( ) ( ) } )");
    let printed = format_sexpr(&first[0]);
    assert_eq!(printed, "(() [] {(): ()})");
    let second = read(&printed);
    assert_eq!(format_sexpr(&second[0]), printed);
    assert_ne!(second, first);
}

#[test]
fn canonical_text_of_atoms() {
    let first = read("(f :key \"text\" -42 true false 10ms 2h #/a.b/ [x y] {:a 1, :b 2})");
    let printed = format_sexpr(&first[0]);
    assert_eq!(
        printed,
        "(f :key \"text\" -42 true false 10ms 2h #/a.b/ [x y] {:a: 1, :b: 2})"
    );
}

#[test]
fn lowering_twice_gives_equal_modules() {
    let sexprs = read(SERVICE);
    let mut first = Lowerer::new();
    let a = first.lower_module(&sexprs[0]).unwrap();
    let mut second = Lowerer::new();
    let b = second.lower_module(&sexprs[0]).unwrap();
    assert_eq!(format!("{:?}", a), format!("{:?}", b));
    assert_eq!(format!("{:?}", first.diagnostics), format!("{:?}", second.diagnostics));
    assert_eq!(a.name, "user-service");
    assert_eq!(a.functions.len(), 2);
}

#[test]
fn lowering_twice_gives_equal_errors() {
    let sexprs = read("(module m (type))");
    let a = Lowerer::new().lower_module(&sexprs[0]);
    let b = Lowerer::new().lower_module(&sexprs[0]);
    assert_eq!(a.unwrap_err(), "expected type name");
    assert_eq!(b.unwrap_err(), "expected type name");
}

#[test]
fn no_effect_error_means_every_use_is_declared() {
    let module = lower(SERVICE);
    let diags = check_effects(&module);
    assert!(diags.iter().all(|d| d.kind != DiagnosticKind::Error));

    let undeclared = lower(&SERVICE.replace(":effects [db-write audit]", ":effects [audit]"));
    let diags = check_effects(&undeclared);
    let errors: Vec<&Diagnostic> =
        diags.iter().filter(|d| d.kind == DiagnosticKind::Error).collect();
    assert_eq!(errors.len(), 1);
    assert_eq!(
        errors[0].message,
        "function 'create-user' performs Writes on 'user-store' but does not declare that effect"
    );
}

#[test]
fn a_read_is_not_covered_by_a_write() {
    let module = lower(
        r#"(module m
  (effect-set w [:writes user-store])
  (fn f
    :effects [w]
    (param id UUID)
    (returns (union (ok UUID)))
    (get user-store id)))"#,
    );
    let diags = check_effects(&module);
    assert_eq!(diags.len(), 1);
    assert_eq!(diags[0].kind, DiagnosticKind::Error);
    assert_eq!(
        diags[0].message,
        "function 'f' performs Reads on 'user-store' but does not declare that effect"
    );
}

#[test]
fn an_effect_is_reported_once() {
    let module = lower(
        r#"(module m
  (fn f
    (param a String)
    (returns (union (ok String)))
    (let [x (insert! user-store a)
          y (insert! user-store a)]
      (lookup user-store x))))"#,
    );
    let diags = check_effects(&module);
    let messages: Vec<&str> = diags.iter().map(|d| d.message.as_str()).collect();
    assert_eq!(
        messages,
        vec![
            "function 'f' performs Writes on 'user-store' but does not declare that effect",
            "function 'f' performs Reads on 'user-store' but does not declare that effect",
        ]
    );
}

#[test]
fn code_generation_is_deterministic() {
    let a = lower(SERVICE);
    let b = lower(SERVICE);
    let first = RustCodegen::new().generate(&a);
    assert_eq!(first, RustCodegen::new().generate(&b));
    assert_eq!(first, RustCodegen::new().generate(&a));
    let runtime = RustV2Codegen::new().generate(&a);
    assert_eq!(runtime, RustV2Codegen::new().generate(&b));
    assert_ne!(first, runtime);
    assert!(first.len() > 500);
    assert!(runtime.len() > 500);
}

#[test]
fn scaffold_is_deterministic() {
    let a = scaffold::scaffold(&lower(SERVICE));
    let b = scaffold::scaffold(&lower(SERVICE));
    assert_eq!(a.cargo_toml, b.cargo_toml);
    assert_eq!(a.main_rs, b.main_rs);
    assert_eq!(a.handlers_rs, b.handlers_rs);
    assert_eq!(a.html_rs, b.html_rs);
    assert!(!a.main_rs.is_empty());
    assert!(!a.handlers_rs.is_empty());
}

#[test]
fn every_store_has_its_implicit_routes() {
    let module = lower(SERVICE);
    let table = route_analysis::analyze(&module);
    let plurals: Vec<&str> = table.store_types.iter().map(|s| s.plural.as_str()).collect();
    assert_eq!(plurals, vec!["users", "auditlogs"]);
    for store in &table.store_types {
        let has = |method: HttpMethod, path: String| {
            table.routes.iter().any(|r| r.method == method && r.path == path)
        };
        assert!(has(HttpMethod::Get, format!("/{}", store.plural)));
        assert!(has(HttpMethod::Get, format!("/{}/new", store.plural)));
        assert!(has(HttpMethod::Post, format!("/{}/{{id}}/delete", store.plural)));
    }
}

#[test]
fn a_module_without_effects_has_no_routes() {
    let table = route_analysis::analyze(&lower("(module m :version 1)"));
    assert_eq!(table.module_name, "m");
    assert!(table.store_types.is_empty());
    assert!(table.routes.is_empty());
}
