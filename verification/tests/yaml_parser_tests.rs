use pact::generate::yaml_ast::YamlValue;
use pact::generate::yaml_parser::YamlParser;

#[test]
fn test_simple_mapping() {
    let input = "name: Alice\nage: 30\n";
    let mut parser = YamlParser::new(input);
    let result = parser.parse().unwrap();
    assert_eq!(
        result,
        YamlValue::Mapping(vec![
            ("name".into(), YamlValue::Scalar("Alice".into())),
            ("age".into(), YamlValue::Scalar("30".into())),
        ])
    );
}

#[test]
fn test_quoted_string() {
    let input = "title: \"Hello World\"\n";
    let mut parser = YamlParser::new(input);
    let result = parser.parse().unwrap();
    assert_eq!(
        result,
        YamlValue::Mapping(vec![
            ("title".into(), YamlValue::Scalar("Hello World".into())),
        ])
    );
}

#[test]
fn test_nested_mapping() {
    let input = "domain:\n  User:\n    name: string\n";
    let mut parser = YamlParser::new(input);
    let result = parser.parse().unwrap();
    assert_eq!(
        result,
        YamlValue::Mapping(vec![
            ("domain".into(), YamlValue::Mapping(vec![
                ("User".into(), YamlValue::Mapping(vec![
                    ("name".into(), YamlValue::Scalar("string".into())),
                ])),
            ])),
        ])
    );
}

#[test]
fn test_simple_sequence() {
    let input = "items:\n  - alpha\n  - beta\n  - gamma\n";
    let mut parser = YamlParser::new(input);
    let result = parser.parse().unwrap();
    assert_eq!(
        result,
        YamlValue::Mapping(vec![
            ("items".into(), YamlValue::Sequence(vec![
                YamlValue::Scalar("alpha".into()),
                YamlValue::Scalar("beta".into()),
                YamlValue::Scalar("gamma".into()),
            ])),
        ])
    );
}

#[test]
fn test_comments_and_blank_lines() {
    let input = "# This is a comment\n\nname: Alice\n# Another comment\nage: 30\n";
    let mut parser = YamlParser::new(input);
    let result = parser.parse().unwrap();
    assert_eq!(
        result,
        YamlValue::Mapping(vec![
            ("name".into(), YamlValue::Scalar("Alice".into())),
            ("age".into(), YamlValue::Scalar("30".into())),
        ])
    );
}

#[test]
fn test_sequence_of_scalars_inline() {
    let input = "- one\n- two\n- three\n";
    let mut parser = YamlParser::new(input);
    let result = parser.parse().unwrap();
    assert_eq!(
        result,
        YamlValue::Sequence(vec![
            YamlValue::Scalar("one".into()),
            YamlValue::Scalar("two".into()),
            YamlValue::Scalar("three".into()),
        ])
    );
}

#[test]
fn test_sequence_with_key_value_items() {
    let input = "fields:\n  - name: required, string\n  - email: required, email format\n";
    let mut parser = YamlParser::new(input);
    let result = parser.parse().unwrap();
    let fields = result.get("fields").unwrap().as_sequence().unwrap();
    assert_eq!(fields.len(), 2);
    // Each item is a mapping with one key
    match &fields[0] {
        YamlValue::Mapping(pairs) => {
            assert_eq!(pairs[0].0, "name");
            assert_eq!(pairs[0].1, YamlValue::Scalar("required, string".into()));
        }
        other => panic!("Expected Mapping, got {:?}", other),
    }
}

#[test]
fn test_deeply_nested() {
    let input = "a:\n  b:\n    c: deep\n";
    let mut parser = YamlParser::new(input);
    let result = parser.parse().unwrap();
    let c_val = result
        .get("a").unwrap()
        .get("b").unwrap()
        .get("c").unwrap();
    assert_eq!(c_val, &YamlValue::Scalar("deep".into()));
}

#[test]
fn test_empty_input() {
    let input = "";
    let mut parser = YamlParser::new(input);
    let result = parser.parse().unwrap();
    assert_eq!(result, YamlValue::Mapping(Vec::new()));
}

#[test]
fn test_only_comments() {
    let input = "# just comments\n# nothing else\n";
    let mut parser = YamlParser::new(input);
    let result = parser.parse().unwrap();
    assert_eq!(result, YamlValue::Mapping(Vec::new()));
}

#[test]
fn test_inline_comment_handling() {
    // Comments at end of value lines are treated as part of the scalar
    // (our minimal parser doesn't strip inline comments to keep things simple
    //  and avoid breaking quoted strings with # in them)
    let input = "key: value\n";
    let mut parser = YamlParser::new(input);
    let result = parser.parse().unwrap();
    assert_eq!(
        result,
        YamlValue::Mapping(vec![
            ("key".into(), YamlValue::Scalar("value".into())),
        ])
    );
}

#[test]
fn test_multiple_top_level_sequences() {
    let input = "endpoints:\n  get-user:\n    description: \"Returns a user\"\n    input: user id\n";
    let mut parser = YamlParser::new(input);
    let result = parser.parse().unwrap();
    let get_user = result.get("endpoints").unwrap().get("get-user").unwrap();
    assert_eq!(
        get_user.get("description").unwrap(),
        &YamlValue::Scalar("Returns a user".into())
    );
    assert_eq!(
        get_user.get("input").unwrap(),
        &YamlValue::Scalar("user id".into())
    );
}

#[test]
fn test_spec_like_structure() {
    let input = "\
spec: SPEC-2024-0042
title: \"User service\"
owner: platform-team
domain:
  User:
    fields:
      - name: required, string, 1-200 chars
      - email: required, email format, unique
quality:
  - all functions must be total
";
    let mut parser = YamlParser::new(input);
    let result = parser.parse().unwrap();
    assert_eq!(
        result.get("spec").unwrap(),
        &YamlValue::Scalar("SPEC-2024-0042".into())
    );
    assert_eq!(
        result.get("title").unwrap(),
        &YamlValue::Scalar("User service".into())
    );
    let quality = result.get("quality").unwrap().as_sequence().unwrap();
    assert_eq!(quality[0], YamlValue::Scalar("all functions must be total".into()));
}
