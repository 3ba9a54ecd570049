use pact::generate::spec_ast::{Constraint, FieldType, InputSource, QualityRule};
use pact::generate::spec_parser::{extract_http_status, parse_field_descriptor, parse_input_spec, parse_spec};
use pact::generate::yaml_ast::YamlValue;
use pact::generate::yaml_parser::YamlParser;

fn parse_yaml(input: &str) -> YamlValue {
    YamlParser::new(input).parse().unwrap()
}

#[test]
fn test_parse_field_required_string_with_length() {
    let field = parse_field_descriptor("name", "required, string, 1-200 chars");
    assert!(field.required);
    assert_eq!(field.field_type, FieldType::StringType);
    assert_eq!(field.min_len, Some(1));
    assert_eq!(field.max_len, Some(200));
}

#[test]
fn test_parse_field_email_format_unique() {
    let field = parse_field_descriptor("email", "required, email format, unique");
    assert!(field.required);
    assert_eq!(field.format, Some("email".into()));
    assert!(field.unique);
}

#[test]
fn test_parse_field_auto_generated_immutable() {
    let field = parse_field_descriptor("id", "auto-generated, immutable");
    assert!(field.auto_generated);
    assert!(field.immutable);
    assert_eq!(field.field_type, FieldType::UuidType);
}

#[test]
fn test_parse_minimal_spec() {
    let yaml = parse_yaml("\
spec: SPEC-001
title: \"Test\"
owner: test-team
");
    let spec = parse_spec(&yaml).unwrap();
    assert_eq!(spec.spec_id, "SPEC-001");
    assert_eq!(spec.title, "Test");
    assert_eq!(spec.owner, "test-team");
}

#[test]
fn test_parse_domain_types() {
    let yaml = parse_yaml("\
spec: SPEC-001
title: test
owner: team
domain:
  User:
    fields:
      - name: required, string, 1-200 chars
      - id: auto-generated, immutable
");
    let spec = parse_spec(&yaml).unwrap();
    assert_eq!(spec.domain_types.len(), 1);
    assert_eq!(spec.domain_types[0].name, "User");
    assert_eq!(spec.domain_types[0].fields.len(), 2);
    assert_eq!(spec.domain_types[0].fields[0].name, "name");
    assert!(spec.domain_types[0].fields[0].required);
    assert!(spec.domain_types[0].fields[1].auto_generated);
}

#[test]
fn test_parse_endpoint_with_outputs() {
    let yaml = parse_yaml("\
spec: SPEC-001
title: test
owner: team
endpoints:
  get-user:
    description: \"Returns a user by ID\"
    input: user id (from URL)
    outputs:
      - success: the user found (200)
      - not found: when the ID doesn't exist (404)
    constraints:
      - read-only
");
    let spec = parse_spec(&yaml).unwrap();
    assert_eq!(spec.endpoints.len(), 1);
    let ep = &spec.endpoints[0];
    assert_eq!(ep.name, "get-user");
    assert_eq!(ep.input.source, InputSource::Url);
    assert_eq!(ep.outputs.len(), 2);
    assert_eq!(ep.outputs[0].http_status, Some(200));
    assert!(ep.outputs[0].is_success);
    assert_eq!(ep.outputs[1].http_status, Some(404));
    assert!(!ep.outputs[1].is_success);
    assert_eq!(ep.constraints, vec![Constraint::ReadOnly]);
}

#[test]
fn test_parse_max_response_time() {
    let yaml = parse_yaml("\
spec: SPEC-001
title: test
owner: team
endpoints:
  get-user:
    description: test
    input: id
    constraints:
      - max response time: 50ms
");
    let spec = parse_spec(&yaml).unwrap();
    let ep = &spec.endpoints[0];
    assert_eq!(ep.constraints, vec![Constraint::MaxResponseTime("50ms".into())]);
}

#[test]
fn test_parse_quality_rules() {
    let yaml = parse_yaml("\
spec: SPEC-001
title: test
owner: team
quality:
  - all functions must be total
");
    let spec = parse_spec(&yaml).unwrap();
    assert_eq!(spec.quality, vec![QualityRule::AllFunctionsTotal]);
}

#[test]
fn test_parse_traceability() {
    let yaml = parse_yaml("\
spec: SPEC-001
title: test
owner: team
traceability:
  known dependencies: api-router, admin-panel
");
    let spec = parse_spec(&yaml).unwrap();
    assert_eq!(spec.traceability.known_dependencies, vec!["api-router", "admin-panel"]);
}

#[test]
fn test_extract_http_status_numbers() {
    assert_eq!(extract_http_status("the user found (200)"), Some(200));
    assert_eq!(extract_http_status("not found (404)"), Some(404));
    assert_eq!(extract_http_status("created (201)"), Some(201));
    assert_eq!(extract_http_status("no status"), None);
}

#[test]
fn test_parse_input_source_detection() {
    let url_input = parse_input_spec("user id (from URL)");
    assert_eq!(url_input.source, InputSource::Url);

    let body_input = parse_input_spec("user data (from body)");
    assert_eq!(body_input.source, InputSource::Body);

    let unknown_input = parse_input_spec("something");
    assert_eq!(unknown_input.source, InputSource::Unknown);
}
