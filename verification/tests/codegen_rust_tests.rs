use pact::codegen::rust::{to_pascal, to_snake, RustCodegen};
use pact::lexer::Lexer;
use pact::lower::Lowerer;
use pact::parser::Parser;

fn generate(input: &str) -> String {
    let mut lexer = Lexer::new(input);
    let tokens = lexer.tokenize().unwrap();
    let mut parser = Parser::new(tokens);
    let sexprs = parser.parse_program().unwrap();
    let mut lowerer = Lowerer::new();
    let module = lowerer.lower_module(&sexprs[0]).unwrap();
    RustCodegen::new().generate(&module)
}

#[test]
fn test_to_snake() {
    assert_eq!(to_snake("get-user-by-id"), "get_user_by_id");
    assert_eq!(to_snake("api-router/handle-request"), "api_router_handle_request");
}

#[test]
fn test_to_pascal() {
    assert_eq!(to_pascal("get-user-by-id"), "GetUserById");
    assert_eq!(to_pascal("db-read"), "DbRead");
    assert_eq!(to_pascal("not-found"), "NotFound");
}

#[test]
fn test_generates_struct() {
    let output = generate(
        "(module test :version 1 (type User (field id UUID :immutable) (field name String :min-len 1 :max-len 200)))",
    );
    assert!(output.contains("pub struct User {"));
    assert!(output.contains("pub id: Uuid,"));
    assert!(output.contains("pub name: String,"));
    assert!(output.contains("fn validate"));
}

#[test]
fn test_generates_effect_trait() {
    let output = generate(
        "(module test :version 1 (effect-set db-read [:reads user-store]))",
    );
    assert!(output.contains("pub trait DbRead {"));
}

#[test]
fn test_generates_return_enum() {
    let input = r#"(module test :version 1
            (fn get-thing
                :effects []
                :total true
                (param id UUID)
                (returns (union
                    (ok UUID :http 200)
                    (err :not-found {:id id} :http 404)))
                (ok id)))"#;
    let output = generate(input);
    assert!(output.contains("pub enum GetThingResult {"));
    assert!(output.contains("Ok(Uuid),"));
    assert!(output.contains("NotFound("));
    assert!(output.contains("fn http_status(&self) -> u16"));
}
