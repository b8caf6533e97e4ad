use celeste::ast::{CelesteType, Expr, Stmt};
use celeste::compiler::Compiler;
use celeste::lexer::{lexe, LexError};
use celeste::parser::{parse_begin, parse_step, string_to_celeste_type, ParseError, ParseStep};
use celeste::tokens::TokenType;

fn tokens(src: &str) -> Result<Vec<TokenType>, LexError> {
    let mut comp = Compiler::new(src.to_string(), "test.cel".to_string());
    let mut out = Vec::new();
    loop {
        lexe(&mut comp)?;
        if comp.cur_tok == TokenType::Eof {
            return Ok(out);
        }
        out.push(comp.cur_tok.clone());
    }
}

fn parse_all(src: &str) -> Result<Vec<Stmt>, ParseError> {
    let mut comp = Compiler::new(src.to_string(), "test.cel".to_string());
    parse_begin(&mut comp)?;
    let mut stmts = Vec::new();
    loop {
        match parse_step(&mut comp)? {
            ParseStep::Done => return Ok(stmts),
            ParseStep::Item(s) => stmts.push(s),
            ParseStep::Include(p) => panic!("unexpected include of {}", p),
        }
    }
}

#[test]
fn lexes_a_let_statement() {
    let toks = tokens("let mut x = 42;").unwrap();
    assert_eq!(
        toks,
        vec![
            TokenType::Let,
            TokenType::Mut,
            TokenType::Ident("x".to_string()),
            TokenType::Equals,
            TokenType::Int(42),
            TokenType::Semicolon,
        ]
    );
}

#[test]
fn lexes_punctuation_and_keywords() {
    let toks = tokens("extrn fn f(a, ..) { return a + 1 - 2 * 3 / 4; } include").unwrap();
    assert_eq!(
        toks,
        vec![
            TokenType::Extrn,
            TokenType::Fn,
            TokenType::Ident("f".to_string()),
            TokenType::OpenParen,
            TokenType::Ident("a".to_string()),
            TokenType::Comma,
            TokenType::Ellipsis,
            TokenType::CloseParen,
            TokenType::OpenCurly,
            TokenType::Return,
            TokenType::Ident("a".to_string()),
            TokenType::Plus,
            TokenType::Int(1),
            TokenType::Minus,
            TokenType::Int(2),
            TokenType::Star,
            TokenType::Int(3),
            TokenType::Slash,
            TokenType::Int(4),
            TokenType::Semicolon,
            TokenType::CloseCurly,
            TokenType::Include,
        ]
    );
}

#[test]
fn lexer_skips_comments_and_counts_lines() {
    let mut comp = Compiler::new("// one\n/* two\nthree */\n  x".to_string(), "t.cel".to_string());
    lexe(&mut comp).unwrap();
    assert_eq!(comp.cur_tok, TokenType::Ident("x".to_string()));
    // A block comment's own newlines are not counted.
    assert_eq!(comp.line, 3);
    assert_eq!(comp.index, 26);
    lexe(&mut comp).unwrap();
    assert_eq!(comp.cur_tok, TokenType::Eof);
}

#[test]
fn lexer_reads_string_escapes() {
    let toks = tokens("\"a\\nb\\t\\\"c\"").unwrap();
    assert_eq!(toks, vec![TokenType::StringLiteral("a\nb\t\"c".to_string())]);
}

#[test]
fn lexer_reports_unterminated_comment() {
    match tokens("x /* never closed") {
        Err(LexError::UnterminatedComment { start }) => assert_eq!(start, 2),
        other => panic!("unexpected {:?}", other),
    }
}

#[test]
fn lexer_reports_unclosed_string() {
    match tokens("\n\"open") {
        Err(LexError::UnclosedString { line }) => assert_eq!(line, 2),
        other => panic!("unexpected {:?}", other),
    }
}

#[test]
fn lexer_reports_invalid_word() {
    match tokens("1abc") {
        Err(LexError::InvalidToken { line, text }) => {
            assert_eq!(line, 1);
            assert_eq!(text, "1abc");
        }
        other => panic!("unexpected {:?}", other),
    }
}

#[test]
fn lexer_at_end_stays_at_end() {
    let mut comp = Compiler::new("   ".to_string(), "t.cel".to_string());
    lexe(&mut comp).unwrap();
    assert_eq!(comp.cur_tok, TokenType::Eof);
    assert_eq!(comp.index, 3);
    lexe(&mut comp).unwrap();
    assert_eq!(comp.cur_tok, TokenType::Eof);
    assert_eq!(comp.index, 3);
}

#[test]
fn type_names() {
    assert_eq!(string_to_celeste_type("int"), CelesteType::Int);
    assert_eq!(string_to_celeste_type("  string\t"), CelesteType::String);
    assert_eq!(string_to_celeste_type("void"), CelesteType::Void);
    assert_eq!(string_to_celeste_type("Int"), CelesteType::Void);
    assert_eq!(string_to_celeste_type(""), CelesteType::Void);
}

#[test]
fn parses_a_function() {
    let stmts = parse_all("fn main() int { let x = 1 + 2; return x; }").unwrap();
    assert_eq!(stmts.len(), 1);
    match &stmts[0] {
        Stmt::Function { name, params, return_type, body } => {
            assert_eq!(name, "main");
            assert!(params.is_empty());
            assert_eq!(return_type, "int");
            assert_eq!(body.len(), 2);
            match &body[0] {
                Stmt::Let { name, value, .. } => {
                    assert_eq!(name, "x");
                    assert!(matches!(**value, Expr::Binary { op: '+', .. }));
                }
                other => panic!("unexpected {:?}", other),
            }
            assert!(matches!(body[1], Stmt::Return { value: Expr::Variable(_), .. }));
        }
        other => panic!("unexpected {:?}", other),
    }
}

#[test]
fn parses_parameters() {
    let stmts = parse_all("fn add(a int, b int) int { return a + b; }").unwrap();
    match &stmts[0] {
        Stmt::Function { params, .. } => {
            assert_eq!(params.len(), 2);
            assert_eq!(params[0].name, "a");
            assert_eq!(params[0].ty, CelesteType::Int);
            assert_eq!(params[1].name, "b");
        }
        other => panic!("unexpected {:?}", other),
    }
}

#[test]
fn parses_a_variadic_extern() {
    let stmts = parse_all("extrn fn printf(string, ..) int;").unwrap();
    match &stmts[0] {
        Stmt::Extern { name, arg_types, return_type, is_variadic } => {
            assert_eq!(name, "printf");
            assert_eq!(arg_types, &vec![CelesteType::String]);
            assert_eq!(*return_type, CelesteType::Int);
            assert!(*is_variadic);
        }
        other => panic!("unexpected {:?}", other),
    }
}

#[test]
fn parses_an_extern_without_return_type() {
    let stmts = parse_all("extrn fn puts(string);").unwrap();
    match &stmts[0] {
        Stmt::Extern { return_type, is_variadic, .. } => {
            assert_eq!(*return_type, CelesteType::Void);
            assert!(!*is_variadic);
        }
        other => panic!("unexpected {:?}", other),
    }
}

#[test]
fn parses_calls_and_assignments() {
    let src = "extrn fn printf(string, ..) int;\nfn main() { let mut n = 1; n = n * 3; printf(\"%d\", n); }";
    let stmts = parse_all(src).unwrap();
    assert_eq!(stmts.len(), 2);
    match &stmts[1] {
        Stmt::Function { body, .. } => {
            assert_eq!(body.len(), 3);
            assert!(matches!(body[1], Stmt::Assign { .. }));
            match &body[2] {
                Stmt::Expression(Expr::Call { name, args }, _) => {
                    assert_eq!(name, "printf");
                    assert_eq!(args.len(), 2);
                }
                other => panic!("unexpected {:?}", other),
            }
        }
        other => panic!("unexpected {:?}", other),
    }
}

#[test]
fn parse_reports_include() {
    let mut comp = Compiler::new("include \"lib.cel\";".to_string(), "t.cel".to_string());
    parse_begin(&mut comp).unwrap();
    match parse_step(&mut comp).unwrap() {
        ParseStep::Include(p) => assert_eq!(p, "lib.cel"),
        other => panic!("unexpected {:?}", other),
    }
    assert!(matches!(parse_step(&mut comp).unwrap(), ParseStep::Done));
}

#[test]
fn parse_step_consumes_input() {
    let mut comp = Compiler::new("fn a() { } fn b() { }".to_string(), "t.cel".to_string());
    parse_begin(&mut comp).unwrap();
    let before = comp.index;
    assert!(matches!(parse_step(&mut comp).unwrap(), ParseStep::Item(_)));
    assert!(comp.index > before);
}

#[test]
fn parse_rejects_missing_return() {
    match parse_all("fn f() int { let x = 1; }") {
        Err(ParseError::MissingReturn { name, .. }) => assert_eq!(name, "f"),
        other => panic!("unexpected {:?}", other),
    }
}

#[test]
fn parse_rejects_empty_body_with_return_type() {
    match parse_all("fn f() int { }") {
        Err(ParseError::EmptyBodyNeedsReturn { name, .. }) => assert_eq!(name, "f"),
        other => panic!("unexpected {:?}", other),
    }
}

#[test]
fn parse_rejects_undefined_variable() {
    match parse_all("fn f() { return y; }") {
        Err(ParseError::UndefinedVariable { name, line }) => {
            assert_eq!(name, "y");
            assert_eq!(line, 1);
        }
        other => panic!("unexpected {:?}", other),
    }
}

#[test]
fn parse_rejects_assignment_to_immutable() {
    match parse_all("fn f() { let x = 1; x = 2; }") {
        Err(ParseError::NotMutable { name, .. }) => assert_eq!(name, "x"),
        other => panic!("unexpected {:?}", other),
    }
}

#[test]
fn parse_rejects_unknown_top_level() {
    match parse_all("let x = 1;") {
        Err(ParseError::UnexpectedTopLevel { token, .. }) => assert_eq!(token, TokenType::Let),
        other => panic!("unexpected {:?}", other),
    }
}

#[test]
fn parse_rejects_missing_name() {
    assert!(matches!(parse_all("fn (a int) { }"), Err(ParseError::ExpectedFunctionName { .. })));
}

#[test]
fn parse_passes_lex_errors_on() {
    assert!(matches!(parse_all("fn f() { \"x }"), Err(ParseError::Lex(LexError::UnclosedString { .. }))));
}

#[test]
fn lone_dot_reads_as_zero_without_moving() {
    let mut comp = Compiler::new(".".to_string(), "t.cel".to_string());
    lexe(&mut comp).unwrap();
    assert_eq!(comp.cur_tok, TokenType::Int(0));
    assert_eq!(comp.index, 0);
}

#[test]
fn extern_with_an_unknown_token_in_its_parameters_stalls() {
    assert!(matches!(parse_all("extrn fn f(+) int;"), Err(ParseError::Stalled { line: 1 })));
}

#[test]
fn parse_rejects_include_without_path() {
    assert!(matches!(parse_all("include lib;"), Err(ParseError::ExpectedIncludePath { line: 1 })));
}

#[test]
fn parse_rejects_missing_open_paren() {
    assert!(matches!(parse_all("fn f { }"), Err(ParseError::ExpectedOpenParen { line: 1 })));
}

#[test]
fn parse_rejects_unclosed_paren() {
    assert!(matches!(parse_all("fn f() { let x = (1 + 2; }"), Err(ParseError::ExpectedCloseParen { line: 1 })));
}

#[test]
fn parse_rejects_missing_open_curly() {
    assert!(matches!(parse_all("fn f() int return 1;"), Err(ParseError::ExpectedOpenCurly { line: 1 })));
}

#[test]
fn parse_rejects_missing_close_curly() {
    assert!(matches!(parse_all("fn f() {\n let x = 1;\n"), Err(ParseError::ExpectedCloseCurly { line: 3 })));
}

#[test]
fn parse_rejects_let_without_equals() {
    assert!(matches!(parse_all("fn f() { let x 1; }"), Err(ParseError::ExpectedEquals { line: 1 })));
}

#[test]
fn parse_rejects_assignment_to_a_call() {
    assert!(matches!(parse_all("fn f() { g() = 2; }"), Err(ParseError::InvalidAssignmentTarget { line: 1 })));
}

#[test]
fn parse_rejects_unknown_statement() {
    match parse_all("fn f() { 1; }") {
        Err(ParseError::UnknownStatement { token, .. }) => assert_eq!(token, TokenType::Int(1)),
        other => panic!("unexpected {:?}", other),
    }
}

#[test]
fn parse_rejects_missing_expression() {
    match parse_all("fn f() { let x = ; }") {
        Err(ParseError::ExpectedExpression { token, .. }) => assert_eq!(token, TokenType::Semicolon),
        other => panic!("unexpected {:?}", other),
    }
}

#[test]
fn parse_rejects_malformed_parameters() {
    assert!(matches!(parse_all("fn f(1) { }"), Err(ParseError::Malformed { line: 1 })));
}

#[test]
fn include_splice_appends_statements_and_globals() {
    let mut comp = Compiler::new("fn main() { }".to_string(), "main.cel".to_string());
    comp.globals.insert("main".to_string(), CelesteType::Void);
    let mut stmts = parse_all("fn main() { }").unwrap();
    let mut sub = Compiler::new("fn lib() int { return 1; }".to_string(), "lib.cel".to_string());
    parse_begin(&mut sub).unwrap();
    let mut lib_stmts = Vec::new();
    while let ParseStep::Item(s) = parse_step(&mut sub).unwrap() {
        lib_stmts.push(s);
    }
    celeste::parser::splice_include(&mut comp, &mut stmts, &sub, celeste::ast::Program { stmts: lib_stmts });
    assert_eq!(stmts.len(), 2);
    assert!(matches!(&stmts[1], Stmt::Function { name, .. } if name == "lib"));
    assert_eq!(comp.globals.get("lib"), Some(&CelesteType::Int));
    assert_eq!(comp.globals.get("main"), Some(&CelesteType::Void));
}
