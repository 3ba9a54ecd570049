use pact::codegen::rust_v2::{to_snake, RustV2Codegen};
use pact::lexer::Lexer;
use pact::lower::Lowerer;
use pact::parser::Parser;

fn generate(input: &str) -> String {
    let mut lexer = Lexer::new(input);
    let tokens = lexer.tokenize().unwrap();
    let mut parser = Parser::new(tokens);
    let sexprs = parser.parse_program().unwrap();
    let mut lowerer = Lowerer::new();
    let module = lowerer.lower_module(&sexprs[0]).unwrap();
    RustV2Codegen::new().generate(&module)
}

#[test]
fn test_header_uses_pact_runtime() {
    let output = generate("(module test :version 1)");
    assert!(output.contains("use pact_runtime::prelude::*;"));
    assert!(output.contains("use serde::{Serialize, Deserialize};"));
    assert!(output.contains("use std::fmt;"));
}

#[test]
fn test_struct_has_serde_derive() {
    let output = generate(
        "(module test :version 1 (type User (field id UUID :immutable :generated) (field name String :min-len 1 :max-len 200)))",
    );
    assert!(output.contains("#[derive(Debug, Clone, Serialize, Deserialize)]"));
    assert!(output.contains("pub struct User {"));
    assert!(output.contains("pub id: Uuid,"));
    assert!(output.contains("pub name: String,"));
}

#[test]
fn test_generates_has_id_impl() {
    let output = generate(
        "(module test :version 1 (type User (field id UUID :immutable :generated) (field name String)))",
    );
    assert!(output.contains("impl HasId for User {"));
    assert!(output.contains("fn id(&self) -> Uuid { self.id }"));
}

#[test]
fn test_generates_from_input() {
    let output = generate(
        "(module test :version 1 (type User (field id UUID :immutable :generated) (field name String)))",
    );
    assert!(output.contains("pub fn from_input(input: CreateUserInput) -> Self {"));
    assert!(output.contains("id: Uuid::new_v4(),"));
    assert!(output.contains("name: input.name,"));
}

#[test]
fn test_generates_validate() {
    let output = generate(
        "(module test :version 1 (type User (field id UUID :immutable :generated) (field name String :min-len 1 :max-len 200)))",
    );
    assert!(output.contains("pub fn validate(&self) -> Vec<ValidationError>"));
    assert!(output.contains("must be at least 1 characters"));
    assert!(output.contains("must be at most 200 characters"));
}

#[test]
fn test_generates_input_struct_for_map_param() {
    let input = r#"(module test :version 1
            (fn create-thing
                :effects []
                :total true
                (param input {:name String :email String})
                (returns (union (ok Thing :http 201)))
                (ok input)))"#;
    let output = generate(input);
    assert!(output.contains("pub struct CreateThingInput {"));
    assert!(output.contains("pub name: String,"));
    assert!(output.contains("pub email: String,"));
}

#[test]
fn test_enum_named_fields_for_map_payload() {
    let input = r#"(module test :version 1
            (type User (field id UUID :immutable :generated) (field name String))
            (fn get-thing
                :effects []
                :total true
                (param id UUID)
                (returns (union
                    (ok User :http 200)
                    (err :not-found {:id id} :http 404)))
                (ok id)))"#;
    let output = generate(input);
    assert!(output.contains("NotFound { id: String }"));
}

#[test]
fn test_to_snake_strips_suffixes() {
    assert_eq!(to_snake("non-empty?"), "non_empty");
    assert_eq!(to_snake("insert!"), "insert");
    assert_eq!(to_snake("get-user-by-id"), "get_user_by_id");
}

#[test]
fn test_store_trait_bound_in_function() {
    let input = r#"(module test :version 1
            (type User (field id UUID :immutable :generated) (field name String))
            (effect-set db-read [:reads user-store])
            (fn get-user
                :effects [db-read]
                :total true
                (param id UUID)
                (returns (union
                    (ok User :http 200)
                    (err :not-found {:id id} :http 404)))
                (ok id)))"#;
    let output = generate(input);
    assert!(output.contains("store: &impl Store<User>"));
}

#[test]
fn test_mut_store_for_writes() {
    let input = r#"(module test :version 1
            (type User (field id UUID :immutable :generated) (field name String))
            (effect-set db-write [:writes user-store :reads user-store])
            (fn create-user
                :effects [db-write]
                :total true
                (param input {:name String :email String})
                (returns (union (ok User :http 201)))
                (ok input)))"#;
    let output = generate(input);
    assert!(output.contains("store: &mut impl Store<User>"));
}
