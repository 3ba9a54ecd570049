use pact::lexer::Lexer;
use pact::parser::{Parser, SExpr, SExprKind};

fn parse(input: &str) -> Vec<SExpr> {
    let mut lexer = Lexer::new(input);
    let tokens = lexer.tokenize().unwrap();
    let mut parser = Parser::new(tokens);
    parser.parse_program().unwrap()
}

#[test]
fn parser_test_simple_list() {
    let result = parse("(foo bar)");
    assert_eq!(result.len(), 1);
    if let SExprKind::List(items) = &result[0].kind {
        assert_eq!(items.len(), 2);
        assert_eq!(items[0].as_symbol(), Some("foo"));
        assert_eq!(items[1].as_symbol(), Some("bar"));
    } else {
        panic!("expected list");
    }
}

#[test]
fn test_nested_list() {
    let result = parse("(a (b c) d)");
    assert_eq!(result.len(), 1);
    if let SExprKind::List(items) = &result[0].kind {
        assert_eq!(items.len(), 3);
        assert_eq!(items[0].as_symbol(), Some("a"));
        assert!(matches!(&items[1].kind, SExprKind::List(_)));
        assert_eq!(items[2].as_symbol(), Some("d"));
    } else {
        panic!("expected list");
    }
}

#[test]
fn test_vector() {
    let result = parse("[1 2 3]");
    assert_eq!(result.len(), 1);
    if let SExprKind::Vector(items) = &result[0].kind {
        assert_eq!(items.len(), 3);
        assert_eq!(items[0].as_int(), Some(1));
        assert_eq!(items[1].as_int(), Some(2));
        assert_eq!(items[2].as_int(), Some(3));
    } else {
        panic!("expected vector");
    }
}

#[test]
fn test_map_colon_syntax() {
    let result = parse(r#"{req: "hello", author: "world"}"#);
    assert_eq!(result.len(), 1);
    if let SExprKind::Mapping(entries) = &result[0].kind {
        assert_eq!(entries.len(), 2);
        assert_eq!(entries[0].0.as_symbol(), Some("req"));
        assert_eq!(entries[0].1.as_string(), Some("hello"));
        assert_eq!(entries[1].0.as_symbol(), Some("author"));
        assert_eq!(entries[1].1.as_string(), Some("world"));
    } else {
        panic!("expected map");
    }
}

#[test]
fn test_map_keyword_syntax() {
    // Maps can also use keyword keys without colon separator: {:id uuid}
    let result = parse("{:id uuid}");
    assert_eq!(result.len(), 1);
    if let SExprKind::Mapping(entries) = &result[0].kind {
        assert_eq!(entries.len(), 1);
        assert_eq!(entries[0].0.as_keyword(), Some("id"));
        assert_eq!(entries[0].1.as_symbol(), Some("uuid"));
    } else {
        panic!("expected map");
    }
}

#[test]
fn test_keyword_args() {
    let result = parse("(fn foo :total true :effects [db-read])");
    assert_eq!(result.len(), 1);
    if let SExprKind::List(items) = &result[0].kind {
        assert_eq!(items.len(), 6);
        assert_eq!(items[0].as_symbol(), Some("fn"));
        assert_eq!(items[1].as_symbol(), Some("foo"));
        assert_eq!(items[2].as_keyword(), Some("total"));
        assert_eq!(items[3].as_bool(), Some(true));
        assert_eq!(items[4].as_keyword(), Some("effects"));
        assert!(matches!(&items[5].kind, SExprKind::Vector(_)));
    } else {
        panic!("expected list");
    }
}

#[test]
fn test_complex_nested() {
    let input = r#"(module test
            :version 1
            (type User
                (field id UUID :immutable)))"#;
    let result = parse(input);
    assert_eq!(result.len(), 1);
    if let SExprKind::List(items) = &result[0].kind {
        assert_eq!(items[0].as_symbol(), Some("module"));
        assert_eq!(items[1].as_symbol(), Some("test"));
        assert_eq!(items[2].as_keyword(), Some("version"));
        assert_eq!(items[3].as_int(), Some(1));
        // The type decl is items[4]
        if let SExprKind::List(type_items) = &items[4].kind {
            assert_eq!(type_items[0].as_symbol(), Some("type"));
            assert_eq!(type_items[1].as_symbol(), Some("User"));
        } else {
            panic!("expected type list");
        }
    } else {
        panic!("expected list");
    }
}
