use pact::generate::pct_emitter::PctEmitter;
use pact::generate::spec_ast::{
    Constraint, DomainType, Endpoint, FieldSpec, FieldType, InputSource, InputSpec, OutputSpec,
    QualityRule, SpecDoc, Traceability,
};

fn make_simple_spec() -> SpecDoc {
    SpecDoc {
        spec_id: "SPEC-001".into(),
        title: "User service".into(),
        owner: "platform-team".into(),
        domain_types: vec![DomainType {
            name: "User".into(),
            fields: vec![
                FieldSpec {
                    name: "id".into(),
                    required: false,
                    field_type: FieldType::UuidType,
                    min_len: None,
                    max_len: None,
                    format: None,
                    unique: false,
                    auto_generated: true,
                    immutable: true,
                },
                FieldSpec {
                    name: "name".into(),
                    required: true,
                    field_type: FieldType::StringType,
                    min_len: Some(1),
                    max_len: Some(200),
                    format: None,
                    unique: false,
                    auto_generated: false,
                    immutable: false,
                },
                FieldSpec {
                    name: "email".into(),
                    required: true,
                    field_type: FieldType::StringType,
                    min_len: None,
                    max_len: None,
                    format: Some("email".into()),
                    unique: true,
                    auto_generated: false,
                    immutable: false,
                },
            ],
        }],
        endpoints: vec![Endpoint {
            name: "get-user".into(),
            description: "Returns a user by ID".into(),
            input: InputSpec {
                description: "user id (from URL)".into(),
                source: InputSource::Url,
                fields: Vec::new(),
            },
            outputs: vec![
                OutputSpec {
                    label: "success".into(),
                    description: "the user found (200)".into(),
                    http_status: Some(200),
                    is_success: true,
                },
                OutputSpec {
                    label: "not found".into(),
                    description: "when the ID doesn't exist (404)".into(),
                    http_status: Some(404),
                    is_success: false,
                },
            ],
            constraints: vec![
                Constraint::MaxResponseTime("50ms".into()),
                Constraint::ReadOnly,
            ],
        }],
        quality: vec![QualityRule::AllFunctionsTotal],
        traceability: Traceability {
            known_dependencies: vec!["api-router".into(), "admin-panel".into()],
        },
    }
}

#[test]
fn test_emit_module_header() {
    let spec = make_simple_spec();
    let output = PctEmitter::new().emit(&spec);
    assert!(output.starts_with("(module user-service"));
    assert!(output.contains(":provenance {req: \"SPEC-001\""));
    assert!(output.contains(":version 1"));
}

#[test]
fn test_emit_type_def() {
    let spec = make_simple_spec();
    let output = PctEmitter::new().emit(&spec);
    assert!(output.contains("(type User"));
    assert!(output.contains("(field id UUID :immutable :generated)"));
    assert!(output.contains("(field name String :min-len 1 :max-len 200)"));
    assert!(output.contains("(field email String :format :email :unique-within user-store)"));
}

#[test]
fn test_emit_invariants() {
    let spec = make_simple_spec();
    let output = PctEmitter::new().emit(&spec);
    assert!(output.contains(":invariants [(> (strlen name) 0) (matches email #/.+@.+\\..+/)]"));
}

#[test]
fn test_emit_effect_sets() {
    let spec = make_simple_spec();
    let output = PctEmitter::new().emit(&spec);
    assert!(output.contains("(effect-set db-read    [:reads  user-store])"));
    assert!(output.contains("(effect-set http-respond [:sends http-response])"));
}

#[test]
fn test_emit_fn_metadata() {
    let spec = make_simple_spec();
    let output = PctEmitter::new().emit(&spec);
    assert!(output.contains("(fn get-user"));
    assert!(output.contains(":effects    [db-read http-respond]"));
    assert!(output.contains(":total      true"));
    assert!(output.contains(":latency-budget 50ms"));
    assert!(output.contains(":called-by  [api-router/handle-request admin-panel/handle-request]"));
}

#[test]
fn test_emit_param_and_returns() {
    let spec = make_simple_spec();
    let output = PctEmitter::new().emit(&spec);
    assert!(output.contains("(param id UUID"));
    assert!(output.contains(":source http-path-param"));
    assert!(output.contains("(returns (union"));
    assert!(output.contains("(ok   User :http 200  :serialize :json)"));
    assert!(output.contains("(err  :not-found {:id id} :http 404)"));
}

#[test]
fn test_emit_read_body() {
    let spec = make_simple_spec();
    let output = PctEmitter::new().emit(&spec);
    assert!(output.contains("(let [validated-id (validate-uuid id)]"));
    assert!(output.contains("(match (query user-store {:id uuid})"));
    assert!(output.contains("(none)   (err :not-found {:id uuid})"));
    assert!(output.contains("(some u) (ok u))))"));
}

#[test]
fn test_emit_write_endpoint() {
    let mut spec = make_simple_spec();
    spec.endpoints.push(Endpoint {
        name: "create-user".into(),
        description: "Creates a new user".into(),
        input: InputSpec {
            description: "user data (from body)".into(),
            source: InputSource::Body,
            fields: Vec::new(),
        },
        outputs: vec![
            OutputSpec {
                label: "created".into(),
                description: "the new user (201)".into(),
                http_status: Some(201),
                is_success: true,
            },
            OutputSpec {
                label: "duplicate email".into(),
                description: "email already exists (409)".into(),
                http_status: Some(409),
                is_success: false,
            },
            OutputSpec {
                label: "validation failed".into(),
                description: "invalid input (422)".into(),
                http_status: Some(422),
                is_success: false,
            },
        ],
        constraints: vec![Constraint::Write],
    });

    let output = PctEmitter::new().emit(&spec);
    assert!(output.contains("(fn create-user"));
    assert!(output.contains(":effects    [db-write http-respond]"));
    assert!(output.contains("(param input {:name String :email String}"));
    assert!(output.contains("(let [errors (validate-against User input)]"));
    assert!(output.contains("(insert! user-store (build User input))"));
}

#[test]
fn test_emit_module_closes() {
    let spec = make_simple_spec();
    let output = PctEmitter::new().emit(&spec);
    // Module should close with a final )
    let trimmed = output.trim_end();
    assert!(trimmed.ends_with(')'));
}

#[test]
fn test_derive_module_name() {
    let emitter = PctEmitter::new();
    assert_eq!(emitter.derive_module_name("User service"), "user-service");
    assert_eq!(emitter.derive_module_name("Auth Service V2"), "auth-service-v2");
}
