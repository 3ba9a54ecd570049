use pact::ast::{EffectKind, Module};
use pact::lexer::Lexer;
use pact::lower::Lowerer;
use pact::parser::Parser;

fn parse_and_lower(input: &str) -> Module {
    let mut lexer = Lexer::new(input);
    let tokens = lexer.tokenize().unwrap();
    let mut parser = Parser::new(tokens);
    let sexprs = parser.parse_program().unwrap();
    let mut lowerer = Lowerer::new();
    lowerer.lower_module(&sexprs[0]).unwrap()
}

#[test]
fn test_lower_minimal_module() {
    let module = parse_and_lower("(module test-mod :version 1)");
    assert_eq!(module.name, "test-mod");
    assert_eq!(module.version, Some(1));
}

#[test]
fn test_lower_type_def() {
    let module = parse_and_lower(
        "(module test :version 1 (type User (field id UUID :immutable :generated) (field name String :min-len 1)))"
    );
    assert_eq!(module.types.len(), 1);
    let t = &module.types[0];
    assert_eq!(t.name, "User");
    assert_eq!(t.fields.len(), 2);
    assert_eq!(t.fields[0].name, "id");
    assert!(t.fields[0].immutable);
    assert!(t.fields[0].generated);
    assert_eq!(t.fields[1].name, "name");
    assert_eq!(t.fields[1].min_len, Some(1));
}

#[test]
fn test_lower_effect_set() {
    let module =
        parse_and_lower("(module test :version 1 (effect-set db-read [:reads user-store]))");
    assert_eq!(module.effect_sets.len(), 1);
    assert_eq!(module.effect_sets[0].name, "db-read");
    assert_eq!(module.effect_sets[0].effects.len(), 1);
    assert_eq!(module.effect_sets[0].effects[0].kind, EffectKind::Reads);
    assert_eq!(module.effect_sets[0].effects[0].target, "user-store");
}

#[test]
fn test_lower_simple_fn() {
    let input = r#"(module test :version 1
            (fn get-thing
                :effects [db-read]
                :total true
                :latency-budget 50ms
                (param id UUID :source http-path-param)
                (returns (union
                    (ok Thing :http 200)
                    (err :not-found {:id id} :http 404)))
                (ok id)))"#;
    let module = parse_and_lower(input);
    assert_eq!(module.functions.len(), 1);
    let f = &module.functions[0];
    assert_eq!(f.name, "get-thing");
    assert_eq!(f.effects, vec!["db-read"]);
    assert!(f.total);
    assert_eq!(f.params.len(), 1);
    assert_eq!(f.params[0].name, "id");
    assert_eq!(f.returns.variants.len(), 2);
}
