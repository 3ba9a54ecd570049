use pact::diagnostics::{format_diagnostics, Diagnostic, DiagnosticKind};
use pact::lexer::{DurationUnit, Lexer, Span, TokenKind};
use pact::lower::Lowerer;
use pact::parser::{AtomKind, Parser, SExprKind};
use pact::pipeline::{self, FrontEndError, GenerateError};
use pact::semantic;

fn kinds(input: &str) -> Vec<TokenKind> {
    let mut tokens: Vec<TokenKind> =
        Lexer::new(input).tokenize().unwrap().into_iter().map(|t| t.kind).collect();
    assert_eq!(tokens.pop(), Some(TokenKind::Eof));
    tokens
}

fn lex_error(input: &str) -> String {
    Lexer::new(input).tokenize().unwrap_err()
}

fn parse_error(input: &str) -> String {
    let tokens = Lexer::new(input).tokenize().unwrap();
    Parser::new(tokens).parse_program().unwrap_err()
}

fn lower_error(input: &str) -> String {
    let tokens = Lexer::new(input).tokenize().unwrap();
    let sexprs = Parser::new(tokens).parse_program().unwrap();
    match Lowerer::new().lower_module(&sexprs[0]) {
        Ok(module) => panic!("lowered to {:?}", module),
        Err(message) => message,
    }
}

fn sym(s: &str) -> TokenKind {
    TokenKind::Symbol(s.into())
}

#[test]
fn empty_source_is_one_sentinel() {
    let tokens = Lexer::new("").tokenize().unwrap();
    assert_eq!(tokens.len(), 1);
    assert_eq!(tokens[0].kind, TokenKind::Eof);
    assert_eq!(tokens[0].span, Span::new(0, 0));
    let only_trivia = Lexer::new("  ;; nothing here\n\t\r\n;; nor here").tokenize().unwrap();
    assert_eq!(only_trivia.len(), 1);
    assert_eq!(only_trivia[0].span.start, 32);
}

#[test]
fn duration_needs_a_boundary_after_the_unit() {
    assert_eq!(kinds("10m"), vec![TokenKind::DurationLit(10, DurationUnit::M)]);
    assert_eq!(kinds("10max"), vec![TokenKind::IntLit(10), sym("max")]);
    assert_eq!(kinds("10m)"), vec![TokenKind::DurationLit(10, DurationUnit::M), TokenKind::RParen]);
    assert_eq!(kinds("50ms"), vec![TokenKind::DurationLit(50, DurationUnit::Ms)]);
    assert_eq!(kinds("50msx"), vec![TokenKind::IntLit(50), sym("msx")]);
    assert_eq!(kinds("5s 3h"), vec![
        TokenKind::DurationLit(5, DurationUnit::S),
        TokenKind::DurationLit(3, DurationUnit::H),
    ]);
    assert_eq!(kinds("7seconds"), vec![TokenKind::IntLit(7), sym("seconds")]);
    assert_eq!(kinds("7d"), vec![TokenKind::IntLit(7), sym("d")]);
}

#[test]
fn negative_numbers_and_minus_symbols() {
    assert_eq!(kinds("-5"), vec![TokenKind::IntLit(-5)]);
    assert_eq!(kinds("- 5"), vec![sym("-"), TokenKind::IntLit(5)]);
    assert_eq!(kinds("-x"), vec![sym("-x")]);
    assert_eq!(kinds("a-1"), vec![sym("a-1")]);
    assert_eq!(kinds("-9223372036854775808"), vec![TokenKind::IntLit(i64::MIN)]);
    assert_eq!(kinds("9223372036854775807"), vec![TokenKind::IntLit(i64::MAX)]);
    assert_eq!(kinds("007"), vec![TokenKind::IntLit(7)]);
}

#[test]
fn largest_duration() {
    assert_eq!(
        kinds("18446744073709551615s"),
        vec![TokenKind::DurationLit(u64::MAX, DurationUnit::S)]
    );
}

#[test]
fn numbers_out_of_range() {
    assert_eq!(
        lex_error("9223372036854775808"),
        "invalid integer '9223372036854775808': number too large to fit in target type"
    );
    assert_eq!(
        lex_error("(x -9223372036854775809)"),
        "invalid integer '-9223372036854775809': number too small to fit in target type"
    );
    assert_eq!(
        lex_error("18446744073709551616ms"),
        "invalid duration number: number too large to fit in target type"
    );
}

#[test]
fn booleans_are_whole_symbols() {
    assert_eq!(kinds("true false"), vec![TokenKind::BoolLit(true), TokenKind::BoolLit(false)]);
    assert_eq!(kinds("truex true? falsey"), vec![sym("truex"), sym("true?"), sym("falsey")]);
}

#[test]
fn colon_alone_and_keyword() {
    assert_eq!(kinds(":a"), vec![TokenKind::Keyword("a".into())]);
    assert_eq!(kinds(": a"), vec![TokenKind::Colon, sym("a")]);
    assert_eq!(kinds(":1"), vec![TokenKind::Colon, TokenKind::IntLit(1)]);
    assert_eq!(kinds("a:b"), vec![sym("a"), TokenKind::Keyword("b".into())]);
    assert_eq!(kinds(":min-len"), vec![TokenKind::Keyword("min-len".into())]);
    assert_eq!(kinds("::"), vec![TokenKind::Colon, TokenKind::Colon]);
}

#[test]
fn string_escapes() {
    assert_eq!(
        kinds(r#""a\nb\tc\\d\"e\rf""#),
        vec![TokenKind::StringLit("a\nb\tc\\d\"e\rf".into())]
    );
    assert_eq!(kinds("\"\""), vec![TokenKind::StringLit(String::new())]);
    assert_eq!(kinds("\"a ; b\""), vec![TokenKind::StringLit("a ; b".into())]);
}

#[test]
fn string_failures() {
    assert_eq!(lex_error("  \"abc"), "unterminated string starting at byte 2");
    assert_eq!(lex_error("\"é\" \"abc\\"), "unterminated string escape at byte 5");
    let unknown = lex_error(r#""a\qb""#);
    assert!(unknown.starts_with("unknown escape '\\q' at byte "), "{}", unknown);
}

#[test]
fn regex_literals() {
    assert_eq!(kinds("#/a\\/b/"), vec![TokenKind::RegexLit("a/b".into())]);
    assert_eq!(kinds("#/\\d+\\.x/"), vec![TokenKind::RegexLit("\\d+\\.x".into())]);
    assert_eq!(kinds("#//"), vec![TokenKind::RegexLit(String::new())]);
    assert_eq!(lex_error("(x #/abc"), "unterminated regex literal starting at byte 3");
    assert_eq!(lex_error("a #b"), "unexpected '#' at byte 2");
    assert_eq!(lex_error("#"), "unexpected '#' at byte 0");
}

#[test]
fn unexpected_characters() {
    assert_eq!(lex_error("(a @b)"), "unexpected character '@' at byte 3");
    assert_eq!(lex_error("é"), "unexpected character 'é' at byte 0");
    assert_eq!(lex_error("\"é\" ~"), "unexpected character '~' at byte 5");
}

#[test]
fn comments_end_with_the_line() {
    assert_eq!(kinds("a ;; b c\nd"), vec![sym("a"), sym("d")]);
    assert_eq!(kinds(";; only"), vec![]);
    assert_eq!(kinds("a;;b"), vec![sym("a")]);
    assert_eq!(kinds(";;;; more ;; and more\n;;\nx"), vec![sym("x")]);
    assert_eq!(kinds("\";; kept\""), vec![TokenKind::StringLit(";; kept".into())]);
    assert_eq!(lex_error("a ; b"), "unexpected character ';' at byte 2");
}

#[test]
fn symbol_characters() {
    assert_eq!(
        kinds("<= >= != + * / _x a.b?! a_b"),
        vec![
            sym("<="),
            sym(">="),
            sym("!="),
            sym("+"),
            sym("*"),
            sym("/"),
            sym("_x"),
            sym("a.b?!"),
            sym("a_b"),
        ]
    );
}

#[test]
fn reader_failures() {
    assert_eq!(parse_error("(a))"), "unexpected closing delimiter at byte 3");
    assert_eq!(parse_error("]"), "unexpected closing delimiter at byte 0");
    assert_eq!(parse_error("(a [b)"), "unexpected closing delimiter at byte 5");
    assert_eq!(parse_error("(a b"), "expected RParen, got Eof at byte 4");
    assert_eq!(parse_error("[a"), "expected RBracket, got Eof at byte 2");
    assert_eq!(parse_error("{:a 1"), "expected RBrace, got Eof at byte 5");
    assert_eq!(parse_error("(a , b)"), "unexpected token Comma at byte 3");
    assert_eq!(parse_error(": a"), "unexpected token Colon at byte 0");
}

#[test]
fn map_with_a_key_and_no_value() {
    let message = parse_error("{:a}");
    assert_eq!(message, "unexpected closing delimiter at byte 3");
    assert_eq!(parse_error("{:a"), "unexpected end of input");
}

#[test]
fn map_separators_are_optional() {
    let read = |input: &str| {
        let tokens = Lexer::new(input).tokenize().unwrap();
        Parser::new(tokens).parse_program().unwrap()
    };
    let plain = read("{:a 1 :b 2}");
    let dressed = read("{:a: 1, :b: 2,}");
    for program in [&plain, &dressed] {
        assert_eq!(program.len(), 1);
        let entries = program[0].as_map().unwrap();
        assert_eq!(entries.len(), 2);
        assert_eq!(entries[0].0.as_keyword(), Some("a"));
        assert_eq!(entries[0].1.as_int(), Some(1));
        assert_eq!(entries[1].0.as_keyword(), Some("b"));
        assert_eq!(entries[1].1.as_int(), Some(2));
    }
}

#[test]
fn several_top_level_expressions() {
    let tokens = Lexer::new("a (b) [c] 10ms").tokenize().unwrap();
    let program = Parser::new(tokens).parse_program().unwrap();
    assert_eq!(program.len(), 4);
    assert_eq!(program[0].as_symbol(), Some("a"));
    assert_eq!(program[0].span, Span::new(0, 1));
    assert_eq!(program[1].as_list().unwrap().len(), 1);
    assert_eq!(program[1].span, Span::new(2, 5));
    assert_eq!(program[2].as_vector().unwrap().len(), 1);
    assert_eq!(program[3].as_duration(), Some((10, DurationUnit::Ms)));
    assert!(program[3].as_symbol().is_none());
    assert!(program[0].as_list().is_none());
    match &program[3].kind {
        SExprKind::Atom(AtomKind::DurationLit(10, DurationUnit::Ms)) => {}
        other => panic!("unexpected {:?}", other),
    }
    let tokens = Lexer::new("").tokenize().unwrap();
    assert!(Parser::new(tokens).parse_program().unwrap().is_empty());
}

#[test]
fn module_shape_failures() {
    assert_eq!(lower_error("module"), "expected module to be a list");
    assert_eq!(lower_error("()"), "expected (module ...)");
    assert_eq!(lower_error("(fn f)"), "expected (module ...)");
    assert_eq!(lower_error("(module)"), "expected module name");
    assert_eq!(lower_error("(module :version 1)"), "expected module name");
    assert_eq!(lower_error("(module m :version)"), "expected a value after :version");
}

#[test]
fn type_failures() {
    assert_eq!(lower_error("(module m (type))"), "expected type name");
    assert_eq!(lower_error("(module m (type T (field)))"), "expected field name");
    assert_eq!(lower_error("(module m (type T (field a)))"), "expected field type");
    assert_eq!(lower_error("(module m (type T (field a 5)))"), "unexpected type expression");
    assert_eq!(lower_error("(module m (type T (field a (list))))"), "expected list element type");
    assert_eq!(lower_error("(module m (effect-set))"), "expected effect-set name");
}

#[test]
fn function_failures() {
    assert_eq!(lower_error("(module m (fn))"), "expected function name");
    assert_eq!(lower_error("(module m (fn f))"), "expected (returns ...) in function");
    assert_eq!(
        lower_error("(module m (fn f (returns (union (ok Int)))))"),
        "expected body expression in function"
    );
    assert_eq!(lower_error("(module m (fn f (param) (returns (union (ok Int))) (ok 1)))"), "expected param name");
    assert_eq!(
        lower_error("(module m (fn f (param a) (returns (union (ok Int))) (ok 1)))"),
        "expected param type"
    );
    assert_eq!(
        lower_error("(module m (fn f (returns (union (maybe Int))) (ok 1)))"),
        "expected 'ok' or 'err' variant, got 'maybe'"
    );
    assert_eq!(lower_error("(module m (fn f (returns (union (ok))) (ok 1)))"), "expected ok type");
    assert_eq!(
        lower_error("(module m (fn f (returns (union (err))) (ok 1)))"),
        "expected error tag keyword"
    );
    assert_eq!(
        lower_error("(module m (fn f (returns (union (ok Int))) 1))"),
        "expected body expression in function"
    );
}

#[test]
fn expression_failures() {
    let wrap = |body: &str| format!("(module m (fn f (returns (union (ok Int))) {}))", body);
    assert_eq!(lower_error(&wrap("(g ())")), "unexpected empty list in expression");
    assert_eq!(lower_error(&wrap("(g (1 2))")), "expected symbol at head of expression");
    assert_eq!(lower_error(&wrap("(err)")), "expected error tag");
    assert_eq!(lower_error(&wrap("(err 1)")), "expected error tag");
    assert_eq!(lower_error(&wrap("(let [x 1])")), "let requires bindings and body");
    assert_eq!(lower_error(&wrap("(let x 1)")), "expected let bindings to be a vector");
    assert_eq!(lower_error(&wrap("(let [1 2] 3)")), "expected binding name");
    assert_eq!(lower_error(&wrap("(if a b)")), "if requires condition, then, and else branches");
    assert_eq!(lower_error(&wrap("(match x)")), "match requires expression and at least one arm");
    assert_eq!(lower_error(&wrap("(match x () 1)")), "unexpected empty pattern");
    assert_eq!(lower_error(&wrap("(match x (1) 1)")), "expected constructor name in pattern");
    assert_eq!(lower_error(&wrap("(.)")), "expected (. expr field)");
    assert_eq!(lower_error(&wrap("(g {1 2})")), "expected map key to be symbol or keyword");
}

#[test]
fn unknown_top_level_form_is_a_warning() {
    let tokens = Lexer::new("(module m (bogus 1) (type T))").tokenize().unwrap();
    let sexprs = Parser::new(tokens).parse_program().unwrap();
    let mut lowerer = Lowerer::new();
    let module = lowerer.lower_module(&sexprs[0]).unwrap();
    assert_eq!(module.types.len(), 1);
    assert_eq!(lowerer.diagnostics.len(), 1);
    let warning = &lowerer.diagnostics[0];
    assert_eq!(warning.kind, DiagnosticKind::Warning);
    assert_eq!(warning.message, "unknown top-level form 'bogus'");
    assert_eq!(warning.span, Some(Span::new(10, 19)));
    assert_eq!(warning.to_string(), "warning: unknown top-level form 'bogus' (at byte 10..19)");
}

#[test]
fn error_variant_without_payload() {
    let tokens = Lexer::new("(module m (fn f (returns (union (err :gone :http 410))) (ok 1)))")
        .tokenize()
        .unwrap();
    let sexprs = Parser::new(tokens).parse_program().unwrap();
    let module = Lowerer::new().lower_module(&sexprs[0]).unwrap();
    let text = format!("{:?}", module.functions[0].returns.variants[0].kind);
    assert!(text.contains("tag: \"gone\""), "{}", text);
    assert!(text.contains("Named(\"Unit\")"), "{}", text);
    assert!(text.contains("http_status: Some(410)"), "{}", text);
}

#[test]
fn diagnostics_with_place_and_caret() {
    let source = "(module m\n  (bad))";
    let diagnostics = vec![
        Diagnostic::warning("unknown form".to_string(), Some(Span::new(12, 17))),
        Diagnostic::error("no place".to_string(), None),
        Diagnostic::error("first".to_string(), Some(Span::new(0, 1))),
    ];
    assert_eq!(
        format_diagnostics(source, &diagnostics),
        "<input>:2:3: warning: unknown form\n  |   (bad))\n  |   ^\n\
         error: no place\n\
         <input>:1:1: error: first\n  | (module m\n  | ^\n"
    );
    assert_eq!(format_diagnostics(source, &Vec::new()), "");
    assert_eq!(diagnostics[1].to_string(), "error: no place");
    assert_eq!(pipeline::count_kinds(&diagnostics), (2, 1));
}

#[test]
fn diagnostics_count_columns_in_characters() {
    let source = "\"éé\" x";
    let diagnostics = vec![Diagnostic::error("here".to_string(), Some(Span::new(7, 8)))];
    assert_eq!(
        format_diagnostics(source, &diagnostics),
        "<input>:1:6: error: here\n  | \"éé\" x\n  |      ^\n"
    );
}

#[test]
fn unknown_effect_set_is_an_error() {
    let (module, _) = match pipeline::front_end(
        "(module m (fn f :effects [nowhere] (returns (union (ok Int))) (ok 1)))",
    ) {
        Ok(pair) => pair,
        Err(e) => panic!("{:?}", e),
    };
    let diags = semantic::resolve::resolve_names(&module);
    assert_eq!(diags.len(), 1);
    assert_eq!(diags[0].kind, DiagnosticKind::Error);
    assert_eq!(diags[0].message, "function 'f' references unknown effect set 'nowhere'");
}

#[test]
fn unknown_type_and_reference_are_warnings() {
    let (module, _) = match pipeline::front_end(
        "(module m (type T (field a Absent)) (fn f (param p T) (param r Missing) (returns (union (ok Int) (err :no Gone))) (g p q)))",
    ) {
        Ok(pair) => pair,
        Err(e) => panic!("{:?}", e),
    };
    let diags = semantic::resolve::resolve_names(&module);
    assert!(diags.iter().all(|d| d.kind == DiagnosticKind::Warning));
    let messages: Vec<&str> = diags.iter().map(|d| d.message.as_str()).collect();
    assert!(messages.contains(&"in 'f': type 'Missing' is not defined in this module"), "{:?}", messages);
    assert!(messages.contains(&"in 'f': type 'Gone' is not defined in this module"), "{:?}", messages);
    assert!(!messages.iter().any(|m| m.contains("Absent")), "{:?}", messages);
    assert!(messages.contains(&"in 'f': unresolved reference 'q'"), "{:?}", messages);
    assert!(!messages.iter().any(|m| m.contains("'p'")), "{:?}", messages);
}

#[test]
fn front_end_failures() {
    match pipeline::front_end("(module m \"open") {
        Err(FrontEndError::Lex(m)) => assert_eq!(m, "unterminated string starting at byte 10"),
        other => panic!("{:?}", other.map(|_| ())),
    }
    match pipeline::front_end("(module m") {
        Err(FrontEndError::Parse(m)) => assert_eq!(m, "expected RParen, got Eof at byte 9"),
        other => panic!("{:?}", other.map(|_| ())),
    }
    match pipeline::front_end(" ;; nothing\n") {
        Err(FrontEndError::Empty) => {}
        other => panic!("{:?}", other.map(|_| ())),
    }
    match pipeline::front_end("(module)") {
        Err(e @ FrontEndError::Lower(..)) => {
            assert_eq!(e.to_string(), "Lowering error: expected module name")
        }
        other => panic!("{:?}", other.map(|_| ())),
    }
    assert_eq!(FrontEndError::Empty.to_string(), "No top-level expressions found");
    assert_eq!(FrontEndError::Lex("x".to_string()).to_string(), "Lexer error: x");
    assert_eq!(FrontEndError::Parse("y".to_string()).to_string(), "Parse error: y");
}

#[test]
fn compile_stops_before_code_on_errors() {
    let bad = "(module m (effect-set r [:reads s-store]) \
               (fn f :effects [r] (param x String) (returns (union (ok String))) (put! s-store x)))";
    let compiled = match pipeline::compile(bad, false) {
        Ok(c) => c,
        Err(e) => panic!("{:?}", e),
    };
    assert_eq!(compiled.module_name, "m");
    assert!(compiled.code.is_none());
    assert_eq!(pipeline::count_kinds(&compiled.diagnostics).0, 1);

    let good = bad.replace(":reads", ":writes");
    for runtime in [false, true] {
        let compiled = match pipeline::compile(&good, runtime) {
            Ok(c) => c,
            Err(e) => panic!("{:?}", e),
        };
        assert_eq!(pipeline::count_kinds(&compiled.diagnostics).0, 0);
        let code = compiled.code.expect("code is generated");
        assert!(code.contains("pub fn f"), "{}", code);
    }
    assert!(matches!(pipeline::compile("(", true), Err(FrontEndError::Parse(_))));
}

#[test]
fn generate_failures() {
    match pipeline::generate("title: \"open\n") {
        Err(GenerateError::Yaml { line, message }) => {
            assert_eq!((line, message.as_str()), (0, "unterminated quoted string"))
        }
        other => panic!("{:?}", other.map(|_| ())),
    }
    match pipeline::generate("- a\n- b\n") {
        Err(GenerateError::Spec(m)) => assert_eq!(m, "Expected top-level YAML mapping"),
        other => panic!("{:?}", other.map(|_| ())),
    }
    match pipeline::generate("title: T\ndomain: oops\n") {
        Err(GenerateError::Spec(m)) => assert_eq!(m, "'domain' must be a mapping"),
        other => panic!("{:?}", other.map(|_| ())),
    }
    match pipeline::generate("title: \"!!!\"\n") {
        Err(GenerateError::Invalid { source, error }) => {
            assert!(source.starts_with("(module "), "{}", source);
            assert!(matches!(error, FrontEndError::Lower(..)), "{:?}", error);
        }
        other => panic!("{:?}", other.map(|_| ())),
    }
}

#[test]
fn duplicate_names_are_warned_and_kept() {
    let source = "(module m (type A (field x Int)) (type A (field y Int) (field y Int)) \
                  (effect-set e [:reads s-store]) (effect-set e [:reads t-store]) \
                  (fn f (returns (union (ok Int))) (ok 1)) (fn f (returns (union (ok Int))) (ok 2)) \
                  (fn g (returns (union (ok Int))) (ok 3)))";
    let tokens = Lexer::new(source).tokenize().unwrap();
    let sexprs = Parser::new(tokens).parse_program().unwrap();
    let mut lowerer = Lowerer::new();
    let module = lowerer.lower_module(&sexprs[0]).unwrap();
    assert_eq!(module.types.len(), 2);
    assert_eq!(module.types[0].fields[0].name, "x");
    assert_eq!(module.types[1].fields.len(), 2);
    assert_eq!(module.effect_sets.len(), 2);
    assert_eq!(module.functions.len(), 3);
    let messages: Vec<&str> = lowerer.diagnostics.iter().map(|d| d.message.as_str()).collect();
    assert_eq!(
        messages,
        vec!["duplicate type 'A'", "duplicate field 'y'", "duplicate effect set 'e'", "duplicate function 'f'"]
    );
    assert!(lowerer.diagnostics.iter().all(|d| d.kind == DiagnosticKind::Warning));
    assert_eq!(lowerer.diagnostics[0].span, Some(module.types[1].span.clone()));
    assert_eq!(lowerer.diagnostics[3].span, Some(module.functions[1].span.clone()));
}

#[test]
fn a_name_declared_three_times_is_warned_twice() {
    let tokens = Lexer::new("(module m (type A) (bogus) (type B) (type A) (type A))").tokenize().unwrap();
    let sexprs = Parser::new(tokens).parse_program().unwrap();
    let mut lowerer = Lowerer::new();
    let module = lowerer.lower_module(&sexprs[0]).unwrap();
    assert_eq!(module.types.len(), 4);
    let messages: Vec<&str> = lowerer.diagnostics.iter().map(|d| d.message.as_str()).collect();
    assert_eq!(
        messages,
        vec!["unknown top-level form 'bogus'", "duplicate type 'A'", "duplicate type 'A'"]
    );
}

#[test]
fn a_lowering_failure_names_the_form_at_fault() {
    let fault = |source: &str| {
        let tokens = Lexer::new(source).tokenize().unwrap();
        let sexprs = Parser::new(tokens).parse_program().unwrap();
        let mut lowerer = Lowerer::new();
        let message = lowerer.lower_module(&sexprs[0]).unwrap_err();
        let span = lowerer.fault.clone().expect("a failure has a span");
        (message, source[span.start..span.end].to_string())
    };
    assert_eq!(fault("(fn f)"), ("expected (module ...)".to_string(), "(fn f)".to_string()));
    assert_eq!(
        fault("(module m (type A (field x Int)) (type B (field y)) (fn f))"),
        ("expected field type".to_string(), "(type B (field y))".to_string())
    );
    assert_eq!(
        fault("(module m :provenance 5 (type A))"),
        ("expected provenance to be a map".to_string(), "5".to_string())
    );
    assert_eq!(
        fault("(module m (type A) :version)"),
        ("expected a value after :version".to_string(), ":version".to_string())
    );
    assert_eq!(
        fault("(module m (fn f (returns (union (ok Int)))))"),
        (
            "expected body expression in function".to_string(),
            "(fn f (returns (union (ok Int))))".to_string()
        )
    );
    let tokens = Lexer::new("(module m (type A))").tokenize().unwrap();
    let sexprs = Parser::new(tokens).parse_program().unwrap();
    let mut lowerer = Lowerer::new();
    assert!(lowerer.lower_module(&sexprs[0]).is_ok());
    assert!(lowerer.fault.is_none());
    match pipeline::front_end("(module m (effect-set))") {
        Err(FrontEndError::Lower(message, span)) => {
            assert_eq!(message, "expected effect-set name");
            assert_eq!((span.start, span.end), (10, 22));
        }
        other => panic!("{:?}", other.map(|_| ())),
    }
}
