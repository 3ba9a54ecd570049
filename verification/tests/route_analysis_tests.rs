use pact::ast::Module;
use pact::lexer::Lexer;
use pact::lower::Lowerer;
use pact::parser::Parser;
use pact::scaffold::route_analysis::{
    analyze, collect_store_types, extract_form_fields, pluralize, to_title, RouteKind,
};

fn parse_module(input: &str) -> Module {
    let mut lexer = Lexer::new(input);
    let tokens = lexer.tokenize().unwrap();
    let mut parser = Parser::new(tokens);
    let sexprs = parser.parse_program().unwrap();
    let mut lowerer = Lowerer::new();
    lowerer.lower_module(&sexprs[0]).unwrap()
}

#[test]
fn test_collect_store_types() {
    let module = parse_module(
        "(module test :version 1
                (type User (field id UUID :immutable :generated) (field name String))
                (effect-set db-read [:reads user-store])
                (effect-set db-write [:writes user-store :reads user-store]))"
    );
    let stores = collect_store_types(&module);
    assert_eq!(stores.len(), 1);
    assert_eq!(stores[0].ty_name, "User");
    assert_eq!(stores[0].plural, "users");
    assert_eq!(stores[0].singular, "user");
    assert!(stores[0].needs_mut);
}

#[test]
fn test_analyze_produces_implicit_routes() {
    let module = parse_module(
        "(module test :version 1
                (type User (field id UUID :immutable :generated) (field name String))
                (effect-set db-read [:reads user-store]))"
    );
    let table = analyze(&module);
    assert_eq!(table.module_name, "test");

    let list = table.routes.iter().find(|r| r.kind == RouteKind::List);
    assert!(list.is_some());
    assert_eq!(list.unwrap().path, "/users");

    let new_form = table.routes.iter().find(|r| r.kind == RouteKind::NewForm);
    assert!(new_form.is_some());
    assert_eq!(new_form.unwrap().path, "/users/new");

    let delete = table.routes.iter().find(|r| r.kind == RouteKind::Delete);
    assert!(delete.is_some());
    assert_eq!(delete.unwrap().path, "/users/{id}/delete");
}

#[test]
fn test_form_fields_from_type() {
    let module = parse_module(
        "(module test :version 1
                (type User
                    (field id UUID :immutable :generated)
                    (field name String :min-len 1 :max-len 200)
                    (field email String :format :email)))"
    );
    let fields = extract_form_fields(&module.types[0]);
    assert_eq!(fields.len(), 2);
    assert_eq!(fields[0].name, "name");
    assert_eq!(fields[0].input_type, "text");
    assert_eq!(fields[0].min_len, Some(1));
    assert_eq!(fields[0].max_len, Some(200));
    assert_eq!(fields[1].name, "email");
    assert_eq!(fields[1].input_type, "email");
}

#[test]
fn test_pluralize() {
    assert_eq!(pluralize("user"), "users");
    assert_eq!(pluralize("item"), "items");
}

#[test]
fn test_to_title() {
    assert_eq!(to_title("name"), "Name");
    assert_eq!(to_title("email-address"), "Email Address");
    assert_eq!(to_title("first_name"), "First Name");
}
