use pact::ast::{Module, TypeExpr, VariantKind};
use pact::codegen::rust::RustCodegen;
use pact::codegen::rust_v2::RustV2Codegen;
use pact::diagnostics::{Diagnostic, DiagnosticKind};
use pact::generate::pct_emitter::PctEmitter;
use pact::generate::spec_parser;
use pact::generate::yaml_parser::YamlParser;
use pact::lexer::Lexer;
use pact::lower::Lowerer;
use pact::parser::Parser;
use pact::pipeline;
use pact::scaffold::route_analysis::{self, HttpMethod, RouteKind};
use pact::semantic;

fn lower_with_warnings(input: &str) -> (Module, Vec<Diagnostic>) {
    let tokens = Lexer::new(input).tokenize().unwrap();
    let sexprs = Parser::new(tokens).parse_program().unwrap();
    let mut lowerer = Lowerer::new();
    let module = lowerer.lower_module(&sexprs[0]).unwrap();
    (module, lowerer.diagnostics)
}

fn lower(input: &str) -> Module {
    lower_with_warnings(input).0
}

#[test]
fn scenario_minimal_module() {
    let (module, warnings) = lower_with_warnings("(module m :version 1)");
    assert_eq!(module.name, "m");
    assert_eq!(module.version, Some(1));
    assert!(module.parent_version.is_none());
    assert!(module.provenance.is_none());
    assert!(module.delta.is_none());
    assert!(module.types.is_empty());
    assert!(module.effect_sets.is_empty());
    assert!(module.functions.is_empty());
    assert!(module.extra_meta.is_empty());
    assert!(warnings.is_empty());
    assert!(semantic::analyze(&module).is_empty());

    let output = RustCodegen::new().generate(&module);
    let expected = "\
// ============================================================
// Generated from Pact module: m
// Version: 1
// ============================================================

use std::fmt;

";
    assert_eq!(output, expected);
}

const USER_TYPE: &str = r#"(module people :version 1
  (type User
    (field name String :min-len 1)
    (field id UUID :immutable :generated)))"#;

#[test]
fn scenario_type_with_validated_name_v1() {
    let module = lower(USER_TYPE);
    assert_eq!(module.types.len(), 1);
    let user = &module.types[0];
    assert_eq!(user.name, "User");
    assert_eq!(user.fields.len(), 2);
    assert_eq!(user.fields[0].name, "name");
    assert_eq!(user.fields[0].min_len, Some(1));
    assert!(!user.fields[0].immutable);
    assert_eq!(user.fields[1].name, "id");
    assert!(user.fields[1].immutable);
    assert!(user.fields[1].generated);

    let output = RustCodegen::new().generate(&module);
    assert!(output.contains("pub struct User {"));
    assert!(output.contains("pub name: String,"));
    assert!(output.contains("pub id: Uuid,"));
    assert!(output.contains("pub fn validate(&self) -> Result<(), Vec<String>> {"));
    assert!(output.contains("if self.name.len() < 1 {"));
}

#[test]
fn scenario_type_with_generated_id_v2() {
    let module = lower(USER_TYPE);
    let output = RustV2Codegen::new().generate(&module);
    assert!(output.contains("pub struct User {"));
    assert!(output.contains("pub fn from_input(input: CreateUserInput) -> Self {"));
    assert!(output.contains("id: Uuid::new_v4(),"));
    assert!(output.contains("name: input.name,"));
}

#[test]
fn scenario_undeclared_write() {
    let module = lower(
        r#"(module test :version 1
  (effect-set db-read [:reads user-store])
  (fn save-user
    :effects [db-read]
    (param x String)
    (returns (union (ok String :http 200)))
    (insert! user-store x)))"#,
    );
    let diags = semantic::effects::check_effects(&module);
    let errors: Vec<&Diagnostic> =
        diags.iter().filter(|d| d.kind == DiagnosticKind::Error).collect();
    assert_eq!(errors.len(), 1);
    assert!(errors[0].message.contains("Writes"));
    assert!(errors[0].message.contains("user-store"));
    assert!(errors[0].message.contains("save-user"));
}

#[test]
fn scenario_total_function_without_error_arm() {
    let module = lower(
        r#"(module test :version 1
  (effect-set db-read [:reads user-store])
  (fn get-user
    :effects [db-read]
    :total true
    (param id UUID)
    (returns (union (ok String :http 200) (err :not-found {:id UUID} :http 404)))
    (match (query user-store {:id id})
      (ok x) (ok x))))"#,
    );
    let diags = semantic::totality::check_totality(&module);
    assert!(!diags.is_empty());
    assert!(diags.iter().all(|d| d.kind == DiagnosticKind::Warning));
    assert!(diags.iter().any(|d| d.message.contains("get-user")));

    let all = semantic::analyze(&module);
    assert!(all.iter().any(|d| d.kind == DiagnosticKind::Warning));
    let (errors, _) = pipeline::count_kinds(&all);
    assert_eq!(errors, 0);

    let v1 = RustCodegen::new().generate(&module);
    assert!(v1.contains("pub fn get_user"));
    let v2 = RustV2Codegen::new().generate(&module);
    assert!(v2.contains("pub fn get_user"));
}

const USER_SERVICE: &str = "\
spec: SPEC-2024-0042
title: \"User service\"
owner: platform-team
domain:
  User:
    fields:
      - name: required, string, 1-200 chars
      - email: required, email format, unique
      - id: auto-generated, immutable
endpoints:
  get-user:
    description: \"Returns a user by ID\"
    input: user id (from URL)
    outputs:
      - success: the user found (200)
      - not found: when the ID doesn't exist (404)
    constraints:
      - max response time: 50ms
      - read-only
quality:
  - all functions must be total
traceability:
  known dependencies: api-router, admin-panel
";

#[test]
fn scenario_document_to_module() {
    let yaml = YamlParser::new(USER_SERVICE).parse().unwrap();
    let doc = spec_parser::parse_spec(&yaml).unwrap();
    let text = PctEmitter::new().emit(&doc);
    let module = lower(&text);

    assert_eq!(module.name, "user-service");
    assert_eq!(module.types.len(), 1);
    assert_eq!(module.types[0].name, "User");
    assert_eq!(module.types[0].fields.len(), 3);
    assert_eq!(module.functions.len(), 1);
    let get_user = &module.functions[0];
    assert_eq!(get_user.name, "get-user");
    assert!(get_user.total);
    assert_eq!(get_user.returns.variants.len(), 2);
    match &get_user.returns.variants[0].kind {
        VariantKind::Success { http_status, .. } => assert_eq!(*http_status, Some(200)),
        other => panic!("expected a success variant, got {:?}", other),
    }
    match &get_user.returns.variants[1].kind {
        VariantKind::Failure { tag, http_status, .. } => {
            assert_eq!(tag, "not-found");
            assert_eq!(*http_status, Some(404));
        }
        other => panic!("expected a failure variant, got {:?}", other),
    }
    assert!(pipeline::check_answers(&doc, &module));
}

#[test]
fn document_answered_by_generated_module_only() {
    let yaml = YamlParser::new(USER_SERVICE).parse().unwrap();
    let doc = spec_parser::parse_spec(&yaml).unwrap();
    let other = lower("(module user-service :version 1)");
    assert!(!pipeline::check_answers(&doc, &other));
    let renamed = lower("(module m :version 1)");
    assert!(!pipeline::check_answers(&doc, &renamed));
}

#[test]
fn generate_returns_validated_text() {
    let (text, doc) = match pipeline::generate(USER_SERVICE) {
        Ok(pair) => pair,
        Err(_) => panic!("the document generates"),
    };
    assert_eq!(doc.title, "User service");
    assert!(text.starts_with("(module user-service"));
    let (module, warnings) = match pipeline::front_end(&text) {
        Ok(pair) => pair,
        Err(_) => panic!("the generated text passes the front end"),
    };
    assert!(warnings.is_empty());
    assert!(pipeline::check_answers(&doc, &module));
}

#[test]
fn generate_without_total_rule_leaves_functions_partial() {
    let yaml = "\
title: Ping
endpoints:
  ping:
    outputs:
      - success: pong (200)
";
    let (text, doc) = match pipeline::generate(yaml) {
        Ok(pair) => pair,
        Err(_) => panic!("the document generates"),
    };
    assert!(doc.quality.is_empty());
    let module = lower(&text);
    assert_eq!(module.name, "ping");
    assert_eq!(module.functions.len(), 1);
    assert!(!module.functions[0].total);
    assert!(pipeline::check_answers(&doc, &module));
}

#[test]
fn scenario_create_route() {
    let module = lower(
        r#"(module user-service :version 1
  (type User
    (field name String :min-len 1))
  (effect-set db-write [:writes user-store :reads user-store])
  (fn create-user
    :effects [db-write]
    (param input {:name String})
    (returns (union (ok User :http 201)))
    (insert! user-store input)))"#,
    );
    match &module.functions[0].params[0].type_expr {
        TypeExpr::Mapping(_) => {}
        other => panic!("expected a map type, got {:?}", other),
    }
    let table = route_analysis::analyze(&module);
    assert_eq!(table.store_types.len(), 1);
    assert_eq!(table.store_types[0].ty_name, "User");
    assert_eq!(table.store_types[0].plural, "users");
    assert!(table.store_types[0].needs_mut);

    let create = table
        .routes
        .iter()
        .find(|r| r.kind == RouteKind::Create)
        .expect("a create route");
    assert_eq!(create.method, HttpMethod::Post);
    assert_eq!(create.path, "/users");
    assert_eq!(create.api_path.as_deref(), Some("/api/users"));

    let has = |method: HttpMethod, path: &str| {
        table.routes.iter().any(|r| r.method == method && r.path == path)
    };
    assert!(has(HttpMethod::Get, "/users"));
    assert!(has(HttpMethod::Get, "/users/new"));
    assert!(has(HttpMethod::Post, "/users/{id}/delete"));
}

const ORDER_DESK: &str = "\
spec: SPEC-7
title: Order desk
domain:
  Order:
    fields:
      - id: auto-generated, immutable
      - email: required, email format, unique
      - note: string, max 80 chars
endpoints:
  create-order:
    input: order as JSON body
    outputs:
      - success: the order created (201)
      - duplicate email: when the email is taken (409)
      - validation failed: when the input does not validate (422)
    constraints:
      - write
      - idempotent: request-id
      - max response time: 2s
  get-order:
    input: order id (from URL)
    outputs:
      - success: the order (200)
      - not found: no such order (404)
traceability:
  known dependencies: api-router, billing
";

#[test]
fn generated_module_answers_a_document_with_writes() {
    let (text, doc) = match pipeline::generate(ORDER_DESK) {
        Ok(pair) => pair,
        Err(_) => panic!("the document generates"),
    };
    let (module, warnings) = match pipeline::front_end(&text) {
        Ok(pair) => pair,
        Err(e) => panic!("{:?}", e),
    };
    assert!(warnings.is_empty());
    assert!(pipeline::check_answers(&doc, &module));
    assert_eq!(module.name, "order-desk");
    assert_eq!(module.types.len(), 1);
    assert_eq!(module.effect_sets.len(), 3);
    assert_eq!(module.functions.len(), 2);
    let create = &module.functions[0];
    assert_eq!(create.name, "create-order");
    assert!(!create.total);
    assert_eq!(create.effects, vec!["db-write".to_string(), "http-respond".to_string()]);
    assert_eq!(create.called_by, vec![
        "api-router/handle-request".to_string(),
        "billing/handle-request".to_string(),
    ]);
    assert!(create.idempotency_key.is_some());
    assert_eq!(create.latency_budget.as_ref().map(|d| d.value), Some(2));
    assert_eq!(create.params.len(), 1);
    assert_eq!(create.params[0].name, "input");
    assert_eq!(create.returns.variants.len(), 3);
    let get = &module.functions[1];
    assert_eq!(get.params[0].name, "id");
    assert_eq!(get.effects, vec!["db-read".to_string(), "http-respond".to_string()]);
    assert!(text.contains("(err :duplicate-email {:email (. input email)})"));
}

#[test]
fn generated_text_of_an_unlexable_title_is_refused() {
    match pipeline::generate("title: \"2 fast\"\n") {
        Err(pipeline::GenerateError::Invalid { source, .. }) => {
            assert!(source.starts_with("(module 2-fast"), "{}", source)
        }
        other => panic!("{:?}", other.map(|_| ())),
    }
}

#[test]
fn every_route_is_mounted() {
    let module = lower(
        r#"(module user-service :version 1
  (type User
    (field name String :min-len 1))
  (effect-set db-write [:writes user-store :reads user-store])
  (fn create-user
    :effects [db-write]
    (param input {:name String})
    (returns (union (ok User :http 201)))
    (insert! user-store input)))"#,
    );
    let table = route_analysis::analyze(&module);
    let main = pact::scaffold::main_emitter::emit(&table);
    assert!(main.contains(".route(\"/users\", get(handlers::list_users))"), "{}", main);
    assert!(main.contains(".route(\"/users/new\", get(handlers::new_user_form))"), "{}", main);
    assert!(main.contains(".route(\"/users/{id}/delete\", post(handlers::delete_user))"), "{}", main);
    assert!(main.contains(".route(\"/users\", post(handlers::create_user_handler))"), "{}", main);
    assert!(main.contains("pub user_store: Arc<Mutex<InMemoryStore<User>>>,"), "{}", main);
    for route in &table.routes {
        let verb = match route.method {
            HttpMethod::Get => "get",
            HttpMethod::Post => "post",
        };
        let mounted =
            format!(".route(\"{}\", {}(handlers::{}))", route.path, verb, route.handler_name);
        assert!(main.contains(&mounted), "{} is not mounted in\n{}", mounted, main);
    }
}

#[test]
fn a_module_with_other_names_does_not_answer() {
    let yaml = YamlParser::new(USER_SERVICE).parse().unwrap();
    let doc = spec_parser::parse_spec(&yaml).unwrap();
    let text = PctEmitter::new().emit(&doc);
    assert!(pipeline::check_answers(&doc, &lower(&text)));
    let renamed_type = text.replace("(type User", "(type Person");
    assert!(!pipeline::check_answers(&doc, &lower(&renamed_type)));
    let renamed_fn = text.replace("(fn get-user", "(fn fetch-user");
    assert!(!pipeline::check_answers(&doc, &lower(&renamed_fn)));
}

#[test]
fn implicit_routes_stand_once_each() {
    let module = lower(
        r#"(module shop :version 1
  (effect-set a [:reads user-store :writes order-store])
  (effect-set b [:writes user-store :reads user_store :sends mail])
  (fn create-order
    :effects [a]
    (param input {:note String})
    (returns (union (ok Order :http 201)))
    (insert! order-store input)))"#,
    );
    let table = route_analysis::analyze(&module);
    let names: Vec<&str> = table.store_types.iter().map(|s| s.ty_name.as_str()).collect();
    assert_eq!(names, vec!["User", "Order"]);
    for store in &table.store_types {
        assert_eq!(store.plural, format!("{}s", store.ty_name.to_lowercase()));
        let count = |kind: RouteKind, method: HttpMethod, path: String| {
            table
                .routes
                .iter()
                .filter(|r| {
                    r.kind == kind && r.method == method && r.path == path
                        && r.store_type == store.ty_name
                })
                .count()
        };
        assert_eq!(count(RouteKind::List, HttpMethod::Get, format!("/{}", store.plural)), 1);
        assert_eq!(count(RouteKind::NewForm, HttpMethod::Get, format!("/{}/new", store.plural)), 1);
        assert_eq!(
            count(RouteKind::Delete, HttpMethod::Post, format!("/{}/{{id}}/delete", store.plural)),
            1
        );
    }
}

#[test]
fn every_route_has_its_handler() {
    let module = lower(
        r#"(module user-service :version 1
  (type User
    (field name String :min-len 1))
  (effect-set db-write [:writes user-store :reads user-store])
  (fn create-user
    :effects [db-write]
    (param input {:name String})
    (returns (union (ok User :http 201)))
    (insert! user-store input)))"#,
    );
    let table = route_analysis::analyze(&module);
    let handlers = pact::scaffold::handlers_emitter::emit(&table);
    assert!(
        handlers.contains("pub async fn list_users(State(state): State<AppState>) -> Html<String> {"),
        "{}",
        handlers
    );
    assert!(handlers.contains("pub async fn new_user_form() -> Html<String> {"), "{}", handlers);
    for route in &table.routes {
        let head = format!("pub async fn {}(", route.handler_name);
        assert!(handlers.contains(&head), "{} is missing in\n{}", head, handlers);
        if let Some(api) = &route.api_handler_name {
            let head = format!("pub async fn {}(", api);
            assert!(handlers.contains(&head), "{} is missing in\n{}", head, handlers);
        }
    }
}
