use pact::diagnostics::{Diagnostic, DiagnosticKind};
use pact::lexer::Lexer;
use pact::lower::Lowerer;
use pact::parser::Parser;
use pact::semantic::effects::check_effects;

fn check(input: &str) -> Vec<Diagnostic> {
    let mut lexer = Lexer::new(input);
    let tokens = lexer.tokenize().unwrap();
    let mut parser = Parser::new(tokens);
    let sexprs = parser.parse_program().unwrap();
    let mut lowerer = Lowerer::new();
    let module = lowerer.lower_module(&sexprs[0]).unwrap();
    check_effects(&module)
}

#[test]
fn test_effects_ok() {
    let input = r#"(module test :version 1
            (effect-set db-read [:reads user-store])
            (fn get-thing
                :effects [db-read]
                :total true
                (param id UUID)
                (returns (union (ok UUID :http 200)))
                (query user-store {:id id})))"#;
    let diags = check(input);
    let errors: Vec<_> = diags
        .iter()
        .filter(|d| d.kind == DiagnosticKind::Error)
        .collect();
    assert!(errors.is_empty(), "expected no errors, got: {:?}", errors);
}

#[test]
fn test_effects_missing() {
    let input = r#"(module test :version 1
            (effect-set db-read [:reads user-store])
            (fn get-thing
                :effects []
                :total true
                (param id UUID)
                (returns (union (ok UUID :http 200)))
                (query user-store {:id id})))"#;
    let diags = check(input);
    let errors: Vec<_> = diags
        .iter()
        .filter(|d| d.kind == DiagnosticKind::Error)
        .collect();
    assert!(!errors.is_empty(), "expected effect error");
    assert!(errors[0].message.contains("Reads"));
}
