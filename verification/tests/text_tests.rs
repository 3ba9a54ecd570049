use pact::codegen::rust::RustCodegen;
use pact::generate::pct_emitter::{slugify, PctEmitter};
use pact::generate::spec_ast::{Constraint, FieldType, InputSource};
use pact::generate::spec_parser::{
    extract_http_status, parse_field_descriptor, parse_input_spec, parse_spec, str_contains,
};
use pact::generate::yaml_ast::YamlValue;
use pact::generate::yaml_parser::YamlParser;
use pact::lexer::{is_digit, is_space, is_symbol_cont, is_symbol_start, DurationUnit, Lexer};
use pact::lower::Lowerer;
use pact::names;
use pact::parser::Parser;
use pact::scaffold::route_analysis;
use pact::semantic::totality::check_totality;

fn yaml(input: &str) -> YamlValue {
    YamlParser::new(input).parse().unwrap()
}

fn spec_error(input: &str) -> String {
    match parse_spec(&yaml(input)) {
        Ok(doc) => panic!("parsed to {:?}", doc),
        Err(e) => e.0,
    }
}

#[test]
fn snake_case_drops_markers() {
    assert_eq!(names::to_snake("get-user-by-id"), "get_user_by_id");
    assert_eq!(names::to_snake("non-empty?"), "non_empty");
    assert_eq!(names::to_snake("insert!"), "insert");
    assert_eq!(names::to_snake("db/read"), "db_read");
    assert_eq!(names::to_snake("already_snake"), "already_snake");
    assert_eq!(names::to_snake(""), "");
}

#[test]
fn pascal_case_capitalizes_each_segment() {
    assert_eq!(names::to_pascal("user"), "User");
    assert_eq!(names::to_pascal("get-user-by-id"), "GetUserById");
    assert_eq!(names::to_pascal("not_found"), "NotFound");
    assert_eq!(names::to_pascal("aBC-dEF"), "AbcDef");
    assert_eq!(names::to_pascal("a--b"), "AB");
    assert_eq!(names::to_pascal("élan-ünit"), "ÉlanÜnit");
    assert_eq!(names::to_pascal("ßig"), "SSig");
    assert_eq!(names::to_pascal_with("valid?", true), "Valid");
    assert_eq!(names::to_pascal_with("valid?", false), "Valid?");
}

#[test]
fn title_and_phrase() {
    assert_eq!(names::to_title("email-address"), "Email Address");
    assert_eq!(names::to_title("first_name"), "First Name");
    assert_eq!(names::to_title("userID"), "UserID");
    assert_eq!(names::to_phrase("not-found"), "Not Found");
    assert_eq!(names::to_phrase("rate_limited"), "Rate_limited");
    assert_eq!(names::to_phrase(""), "");
}

#[test]
fn slug_keeps_letters_numbers_and_hyphens() {
    assert_eq!(slugify("User Service"), "user-service");
    assert_eq!(slugify("Hello, World!"), "hello-world");
    assert_eq!(slugify("Auth_Service (v2)"), "authservice-v2");
    assert_eq!(slugify("Café 24-7"), "café-24-7");
    assert_eq!(slugify("a  b"), "a--b");
    assert_eq!(slugify("!!!"), "");
    assert_eq!(PctEmitter::new().derive_module_name("Order Desk"), "order-desk");
}

#[test]
fn store_names() {
    assert_eq!(route_analysis::store_target_to_type("user-store"), "User");
    assert_eq!(route_analysis::store_target_to_type("audit_log_store"), "AuditLog");
    assert_eq!(route_analysis::store_target_to_type("order-item-store"), "OrderItem");
    assert_eq!(route_analysis::pluralize("order"), "orders");
    assert_eq!(route_analysis::replace_char("a-b-c", '-', '_'), "a_b_c");
    assert_eq!(route_analysis::to_snake("get-user"), "get_user");
    assert_eq!(route_analysis::to_pascal("get-user"), "GetUser");
}

#[test]
fn character_classes() {
    for c in [' ', '\t', '\n', '\r'] {
        assert!(is_space(c));
    }
    assert!(!is_space('\u{a0}'));
    assert!(!is_space('a'));
    assert!(is_digit('0') && is_digit('9'));
    assert!(!is_digit('a') && !is_digit('٣'));
    for c in ['a', 'Z', '_', '+', '-', '*', '/', '<', '>', '=', '!', '?', '.'] {
        assert!(is_symbol_start(c), "{}", c);
        assert!(is_symbol_cont(c), "{}", c);
    }
    for c in ['0', '9'] {
        assert!(!is_symbol_start(c), "{}", c);
        assert!(is_symbol_cont(c), "{}", c);
    }
    for c in ['(', ':', '"', '#', ' ', 'é', '@', ','] {
        assert!(!is_symbol_start(c), "{}", c);
        assert!(!is_symbol_cont(c), "{}", c);
    }
}

#[test]
fn duration_units_as_text() {
    assert_eq!(DurationUnit::Ms.to_string(), "ms");
    assert_eq!(DurationUnit::S.to_string(), "s");
    assert_eq!(DurationUnit::M.to_string(), "m");
    assert_eq!(DurationUnit::H.to_string(), "h");
}

#[test]
fn totality_warning_quotes_the_tags() {
    let tokens = Lexer::new(
        "(module m (fn f :total true (param a Int) (returns (union (ok Int))) \
         (match a (ok x) x (ok y) y)))",
    )
    .tokenize()
    .unwrap();
    let sexprs = Parser::new(tokens).parse_program().unwrap();
    let module = Lowerer::new().lower_module(&sexprs[0]).unwrap();
    let diags = check_totality(&module);
    assert_eq!(diags.len(), 1);
    assert_eq!(
        diags[0].message,
        "match in 'f' may not be exhaustive: matched [\"ok\", \"ok\"]"
    );
}

#[test]
fn total_match_with_both_sides_or_a_catch_all_is_quiet() {
    let check = |body: &str| {
        let source = format!(
            "(module m (fn f :total true (param a Int) (returns (union (ok Int))) {}))",
            body
        );
        let tokens = Lexer::new(&source).tokenize().unwrap();
        let sexprs = Parser::new(tokens).parse_program().unwrap();
        let module = Lowerer::new().lower_module(&sexprs[0]).unwrap();
        check_totality(&module).len()
    };
    assert_eq!(check("(match a (ok x) x (err e) 0)"), 0);
    assert_eq!(check("(match a (ok x) x _ 0)"), 0);
    assert_eq!(check("(match a (ok x) x other 0)"), 0);
    assert_eq!(check("(match a (err e) 0)"), 1);
    assert_eq!(check("(g a)"), 0);
}

#[test]
fn effect_trait_documents_its_effects() {
    let tokens = Lexer::new("(module m (effect-set db [:reads user-store :writes user-store]))")
        .tokenize()
        .unwrap();
    let sexprs = Parser::new(tokens).parse_program().unwrap();
    let module = Lowerer::new().lower_module(&sexprs[0]).unwrap();
    let output = RustCodegen::new().generate(&module);
    assert!(output.contains("pub trait Db {"), "{}", output);
    assert!(output.contains("user-store"), "{}", output);
}

#[test]
fn http_status_from_the_last_parentheses() {
    assert_eq!(extract_http_status("the user found (200)"), Some(200));
    assert_eq!(extract_http_status("created ( 201 )"), Some(201));
    assert_eq!(extract_http_status("no status"), None);
    assert_eq!(extract_http_status("(one) then (404)"), Some(404));
    assert_eq!(extract_http_status("(404) then (more)"), None);
    assert_eq!(extract_http_status("too big (65536)"), None);
    assert_eq!(extract_http_status("largest (65535)"), Some(65535));
    assert_eq!(extract_http_status("negative (-1)"), None);
    assert_eq!(extract_http_status("empty ()"), None);
    assert_eq!(extract_http_status(")("), None);
}

#[test]
fn field_descriptor_words() {
    let f = parse_field_descriptor("age", "  Required ,  INT , minimum age");
    assert_eq!(f.name, "age");
    assert!(f.required);
    assert_eq!(f.field_type, FieldType::IntType);
    assert_eq!(f.min_len, None);
    assert_eq!(f.max_len, None);

    let f = parse_field_descriptor("nick", "string, min 3 chars");
    assert_eq!((f.min_len, f.max_len), (Some(3), None));
    let f = parse_field_descriptor("nick", "string, max 30 chars");
    assert_eq!((f.min_len, f.max_len), (None, Some(30)));
    let f = parse_field_descriptor("nick", "boolean, unique");
    assert_eq!(f.field_type, FieldType::BoolType);
    assert!(f.unique && !f.required && !f.immutable && !f.auto_generated);

    let f = parse_field_descriptor("when", "Timestamp, required");
    assert_eq!(f.field_type, FieldType::Unknown("Timestamp".into()));
    let f = parse_field_descriptor("id", "auto-generated, uuid");
    assert_eq!(f.field_type, FieldType::UuidType);
    let f = parse_field_descriptor("n", "auto-generated, int");
    assert_eq!(f.field_type, FieldType::IntType);
    let f = parse_field_descriptor("x", "");
    assert_eq!(f.field_type, FieldType::Unknown(String::new()));
}

#[test]
fn input_sources() {
    assert_eq!(parse_input_spec("user id (from URL)").source, InputSource::Url);
    assert_eq!(parse_input_spec("id in the Path").source, InputSource::Url);
    assert_eq!(parse_input_spec("JSON document").source, InputSource::Body);
    assert_eq!(parse_input_spec("request body").source, InputSource::Body);
    assert_eq!(parse_input_spec("the payload").source, InputSource::Body);
    assert_eq!(parse_input_spec("something").source, InputSource::Unknown);
    let input = parse_input_spec("Body at a URL");
    assert_eq!(input.source, InputSource::Url);
    assert_eq!(input.description, "Body at a URL");
    assert!(input.fields.is_empty());
}

#[test]
fn substring_search() {
    assert!(str_contains("max response time", "time"));
    assert!(str_contains("abc", ""));
    assert!(str_contains("", ""));
    assert!(!str_contains("", "a"));
    assert!(!str_contains("abc", "abcd"));
    assert!(str_contains("aab", "ab"));
}

#[test]
fn document_shape_failures() {
    assert_eq!(spec_error("- a\n"), "Expected top-level YAML mapping");
    assert_eq!(spec_error("just text\n"), "Expected top-level YAML mapping");
    assert_eq!(spec_error("domain: text\n"), "'domain' must be a mapping");
    assert_eq!(spec_error("endpoints:\n  - a\n"), "'endpoints' must be a mapping");
    assert_eq!(
        spec_error("domain:\n  User:\n    fields:\n      name: string\n"),
        "'fields' must be a sequence"
    );
    assert_eq!(
        spec_error("domain:\n  User:\n    fields:\n      - name\n"),
        "Each field must be a key: descriptor mapping"
    );
    assert_eq!(
        spec_error("endpoints:\n  get:\n    outputs:\n      ok: fine\n"),
        "'outputs' must be a sequence"
    );
    assert_eq!(
        spec_error("endpoints:\n  get:\n    outputs:\n      - fine\n"),
        "Each output must be a key: descriptor mapping"
    );
}

#[test]
fn constraints_are_classified() {
    let doc = parse_spec(&yaml(
        "\
title: T
endpoints:
  put-thing:
    constraints:
      - write
      - Read-Only
      - max response time: 2s
      - idempotent: request-id
      - something else
",
    ))
    .unwrap();
    assert_eq!(doc.title, "T");
    assert_eq!(doc.spec_id, "");
    assert_eq!(doc.endpoints.len(), 1);
    assert_eq!(
        doc.endpoints[0].constraints,
        vec![
            Constraint::Write,
            Constraint::ReadOnly,
            Constraint::MaxResponseTime("2s".into()),
            Constraint::Idempotent("request-id".into()),
            Constraint::Other("something else".into()),
        ]
    );
}

#[test]
fn yaml_scalars_are_trimmed_and_unquoted() {
    let value = yaml("a:   padded value \t \nb: 'single'\nc: \"double\"\nd: un\"even\n");
    assert_eq!(value.get("a").and_then(|v| v.as_scalar()), Some("padded value"));
    assert_eq!(value.get("b").and_then(|v| v.as_scalar()), Some("'single'"));
    assert_eq!(value.get("c").and_then(|v| v.as_scalar()), Some("double"));
    assert_eq!(value.get("d").and_then(|v| v.as_scalar()), Some("un\"even"));
    assert!(value.get("missing").is_none());
    assert!(value.as_scalar().is_none());
    assert!(value.as_sequence().is_none());
    assert_eq!(value.as_mapping().map(|m| m.len()), Some(4));
}

#[test]
fn yaml_empty_value_opens_a_block_or_is_empty() {
    let value = yaml("a:\nb:\n  - x\n  - y\nc:\n  d: e\n");
    assert_eq!(value.get("a"), Some(&YamlValue::Scalar(String::new())));
    assert_eq!(
        value.get("b"),
        Some(&YamlValue::Sequence(vec![
            YamlValue::Scalar("x".into()),
            YamlValue::Scalar("y".into()),
        ]))
    );
    assert_eq!(
        value.get("c"),
        Some(&YamlValue::Mapping(vec![("d".into(), YamlValue::Scalar("e".into()))]))
    );
}

#[test]
fn min_and_max_are_length_phrases() {
    let f = parse_field_descriptor("n", "string, min 3");
    assert_eq!(f.field_type, FieldType::StringType);
    assert_eq!((f.min_len, f.max_len), (Some(3), None));
    let f = parse_field_descriptor("n", "string, max 40");
    assert_eq!((f.min_len, f.max_len), (None, Some(40)));
    let f = parse_field_descriptor("n", "string, Min 2, MAX 9");
    assert_eq!((f.min_len, f.max_len), (Some(2), Some(9)));
    let f = parse_field_descriptor("n", "string, 1-200 chars");
    assert_eq!((f.min_len, f.max_len), (Some(1), Some(200)));
    let f = parse_field_descriptor("n", "min, required");
    assert_eq!(f.field_type, FieldType::Unknown("min".into()));
    assert_eq!((f.min_len, f.max_len), (None, None));
}

#[test]
fn yaml_unterminated_quote_is_a_fault() {
    let e = YamlParser::new("title: \"abc\n").parse().unwrap_err();
    assert_eq!(e.line, 0);
    assert_eq!(e.message, "unterminated quoted string");
    let e = YamlParser::new("# head\n\nitems:\n  - ok\n  - \"open\n").parse().unwrap_err();
    assert_eq!((e.line, e.message.as_str()), (4, "unterminated quoted string"));
    let e = YamlParser::new("a:\n  - k: \"\n").parse().unwrap_err();
    assert_eq!((e.line, e.message.as_str()), (1, "unterminated quoted string"));
    assert!(YamlParser::new("a: \"\"\nb: \"x: y\"\n").parse().is_ok());
}

#[test]
fn yaml_badly_nested_indentation_is_a_fault() {
    let e = YamlParser::new("a: b\n  c: d\n").parse().unwrap_err();
    assert_eq!((e.line, e.message.as_str()), (1, "badly nested indentation"));
    let e = YamlParser::new("a:\n    b: 1\n  c: 2\n").parse().unwrap_err();
    assert_eq!((e.line, e.message.as_str()), (2, "badly nested indentation"));
    let e = YamlParser::new("items:\n  - name: a\n     age: 3\n").parse().unwrap_err();
    assert_eq!((e.line, e.message.as_str()), (2, "badly nested indentation"));
    let value = yaml("items:\n  - name: a\n    age: 3\n  - name:\n      first: b\n    age: 4\nnext: x\n");
    assert_eq!(value.as_mapping().map(|m| m.len()), Some(2));
    assert_eq!(value.get("items").and_then(|v| v.as_sequence()).map(|s| s.len()), Some(2));
    assert!(YamlParser::new("  a: 1\n  b: 2\n").parse().is_ok());
    assert!(YamlParser::new("a:\n- x\n- y\nb: z\n").parse().is_ok());
}
