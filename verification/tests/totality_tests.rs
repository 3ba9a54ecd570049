use pact::diagnostics::{Diagnostic, DiagnosticKind};
use pact::lexer::Lexer;
use pact::lower::Lowerer;
use pact::parser::Parser;
use pact::semantic::totality::check_totality;

fn check(input: &str) -> Vec<Diagnostic> {
    let mut lexer = Lexer::new(input);
    let tokens = lexer.tokenize().unwrap();
    let mut parser = Parser::new(tokens);
    let sexprs = parser.parse_program().unwrap();
    let mut lowerer = Lowerer::new();
    let module = lowerer.lower_module(&sexprs[0]).unwrap();
    check_totality(&module)
}

#[test]
fn test_exhaustive_match() {
    let input = r#"(module test :version 1
            (fn get-thing
                :effects []
                :total true
                (param id UUID)
                (returns (union
                    (ok UUID :http 200)
                    (err :not-found {:id id} :http 404)))
                (match id
                    (ok x)  (ok x)
                    (err _) (err :not-found {:id id}))))"#;
    let diags = check(input);
    let errors: Vec<_> = diags
        .iter()
        .filter(|d| d.kind == DiagnosticKind::Error)
        .collect();
    assert!(errors.is_empty());
}

#[test]
fn test_total_with_wildcard() {
    let input = r#"(module test :version 1
            (fn get-thing
                :effects []
                :total true
                (param id UUID)
                (returns (union (ok UUID :http 200)))
                (match id
                    _ (ok id))))"#;
    let diags = check(input);
    let errors: Vec<_> = diags
        .iter()
        .filter(|d| d.kind == DiagnosticKind::Error)
        .collect();
    assert!(errors.is_empty());
}
