use celeste::ast::{CelesteType, Expr, Param, Program, Stmt};
use celeste::compiler::Compiler;
use celeste::typechecker::{IntContext, TypeChecker, TypeError};

fn check(stmts: Vec<Stmt>) -> Result<(), TypeError> {
    let mut comp = Compiler::new(String::new(), "t.cel".to_string());
    let program = Program { stmts };
    let mut tc = TypeChecker::new(&mut comp);
    tc.check_program(&program)
}

fn func(name: &str, params: Vec<Param>, return_type: &str, body: Vec<Stmt>) -> Stmt {
    Stmt::Function { name: name.to_string(), params, return_type: return_type.to_string(), body }
}

fn var(n: &str) -> Expr {
    Expr::Variable(n.to_string())
}

fn num(n: i32) -> Expr {
    Expr::Integer(n)
}

fn string(s: &str) -> Expr {
    Expr::StringLiteral(s.to_string())
}

fn call(name: &str, args: Vec<Expr>) -> Expr {
    Expr::Call { name: name.to_string(), args }
}

fn let_(name: &str, value: Expr, line: usize) -> Stmt {
    Stmt::Let { name: name.to_string(), value: Box::new(value), line }
}

fn assign(name: &str, value: Expr, line: usize) -> Stmt {
    Stmt::Assign { name: name.to_string(), value: Box::new(value), line }
}

fn extern_(name: &str, arg_types: Vec<CelesteType>, return_type: CelesteType, is_variadic: bool) -> Stmt {
    Stmt::Extern { name: name.to_string(), arg_types, return_type, is_variadic }
}

fn printf() -> Stmt {
    extern_("printf", vec![CelesteType::String], CelesteType::Int, true)
}

#[test]
fn accepts_a_well_typed_program() {
    let prog = vec![
        printf(),
        func(
            "main",
            vec![],
            "int",
            vec![
                let_("x", num(1), 1),
                assign("x", Expr::Binary { op: '+', lhs: Box::new(var("x")), rhs: Box::new(num(2)) }, 2),
                Stmt::Expression(call("printf", vec![string("%d %s\n"), var("x"), string("ok")]), 3),
                Stmt::Return { value: var("x"), line: 4 },
            ],
        ),
    ];
    assert!(check(prog).is_ok());
}

#[test]
fn let_binds_the_type_of_its_value() {
    let prog = vec![func("main", vec![], "void", vec![let_("s", string("hi"), 1), assign("s", num(1), 2)])];
    match check(prog) {
        Err(TypeError::AssignMismatch { line, name, value_type, var_type }) => {
            assert_eq!(line, 2);
            assert_eq!(name, "s");
            assert_eq!(value_type, CelesteType::Int);
            assert_eq!(var_type, CelesteType::String);
        }
        other => panic!("unexpected {:?}", other),
    }
}

#[test]
fn block_bindings_do_not_leak() {
    let prog = vec![func(
        "main",
        vec![],
        "int",
        vec![
            Stmt::If { condition: num(1), then_block: vec![let_("y", num(1), 1)], else_ifs: vec![], else_block: None, line: 1 },
            Stmt::Return { value: var("y"), line: 2 },
        ],
    )];
    match check(prog) {
        Err(TypeError::UndefinedVariable { line, name }) => {
            assert_eq!(line, 2);
            assert_eq!(name, "y");
        }
        other => panic!("unexpected {:?}", other),
    }
}

#[test]
fn parameters_are_in_scope() {
    let prog = vec![func(
        "id",
        vec![Param { name: "a".to_string(), ty: CelesteType::String }],
        "string",
        vec![let_("b", var("a"), 1), Stmt::Return { value: var("b"), line: 2 }],
    )];
    assert!(check(prog).is_ok());
}

#[test]
fn reports_undefined_function() {
    let prog = vec![func("main", vec![], "void", vec![Stmt::Expression(call("nope", vec![]), 7)])];
    match check(prog) {
        Err(TypeError::UndefinedFunction { line, name }) => {
            assert_eq!(line, 7);
            assert_eq!(name, "nope");
        }
        other => panic!("unexpected {:?}", other),
    }
}

#[test]
fn reports_argument_count_mismatch() {
    let prog = vec![
        extern_("f", vec![CelesteType::Int, CelesteType::Int], CelesteType::Int, false),
        func("main", vec![], "void", vec![Stmt::Expression(call("f", vec![num(1)]), 3)]),
    ];
    match check(prog) {
        Err(TypeError::ArgCountMismatch { name, expected, provided, .. }) => {
            assert_eq!(name, "f");
            assert_eq!(expected, 2);
            assert_eq!(provided, 1);
        }
        other => panic!("unexpected {:?}", other),
    }
}

#[test]
fn reports_too_few_variadic_arguments() {
    let prog = vec![
        extern_("g", vec![CelesteType::String, CelesteType::Int], CelesteType::Int, true),
        func("main", vec![], "void", vec![Stmt::Expression(call("g", vec![string("x")]), 3)]),
    ];
    match check(prog) {
        Err(TypeError::TooFewVariadicArgs { expected, provided, .. }) => {
            assert_eq!(expected, 2);
            assert_eq!(provided, 1);
        }
        other => panic!("unexpected {:?}", other),
    }
}

#[test]
fn reports_argument_type_mismatch() {
    let prog = vec![
        extern_("h", vec![CelesteType::Int, CelesteType::String], CelesteType::Void, false),
        func("main", vec![], "void", vec![Stmt::Expression(call("h", vec![num(1), num(2)]), 5)]),
    ];
    match check(prog) {
        Err(TypeError::ArgTypeMismatch { line, position, name, expected, got }) => {
            assert_eq!(line, 5);
            assert_eq!(position, 2);
            assert_eq!(name, "h");
            assert_eq!(expected, CelesteType::String);
            assert_eq!(got, CelesteType::Int);
        }
        other => panic!("unexpected {:?}", other),
    }
}

#[test]
fn later_declaration_wins() {
    let prog = vec![
        extern_("k", vec![CelesteType::Int], CelesteType::Int, false),
        extern_("k", vec![], CelesteType::Int, false),
        func("main", vec![], "void", vec![Stmt::Expression(call("k", vec![]), 1)]),
    ];
    assert!(check(prog).is_ok());
}

#[test]
fn reports_printf_argument_count() {
    let prog = vec![printf(), func("main", vec![], "void", vec![Stmt::Expression(call("printf", vec![string("%d %s"), num(1)]), 4)])];
    match check(prog) {
        Err(TypeError::PrintfArgCount { line, expected, got }) => {
            assert_eq!(line, 4);
            assert_eq!(expected, 2);
            assert_eq!(got, 1);
        }
        other => panic!("unexpected {:?}", other),
    }
}

#[test]
fn reports_printf_specifier_mismatch() {
    let prog = vec![printf(), func("main", vec![], "void", vec![Stmt::Expression(call("printf", vec![string("%d"), string("x")]), 4)])];
    match check(prog) {
        Err(TypeError::PrintfSpecifier { specifier, expected, got, .. }) => {
            assert_eq!(specifier, 'd');
            assert_eq!(expected, CelesteType::Int);
            assert_eq!(got, CelesteType::String);
        }
        other => panic!("unexpected {:?}", other),
    }
}

#[test]
fn printf_with_a_computed_format_is_not_checked() {
    let prog = vec![
        printf(),
        func("main", vec![], "void", vec![let_("f", string("%d"), 1), Stmt::Expression(call("printf", vec![var("f")]), 2)]),
    ];
    assert!(check(prog).is_ok());
}

#[test]
fn reports_operator_mismatch() {
    let e = Expr::Binary { op: '+', lhs: Box::new(num(1)), rhs: Box::new(string("a")) };
    let prog = vec![func("main", vec![], "void", vec![let_("x", e, 9)])];
    match check(prog) {
        Err(TypeError::OperatorMismatch { line, op, left, right }) => {
            assert_eq!(line, 9);
            assert_eq!(op, '+');
            assert_eq!(left, CelesteType::Int);
            assert_eq!(right, CelesteType::String);
        }
        other => panic!("unexpected {:?}", other),
    }
}

#[test]
fn reports_non_integer_condition() {
    let prog = vec![func(
        "main",
        vec![],
        "void",
        vec![Stmt::If { condition: string("s"), then_block: vec![], else_ifs: vec![], else_block: None, line: 6 }],
    )];
    match check(prog) {
        Err(TypeError::NotInteger { line, context }) => {
            assert_eq!(line, 6);
            assert!(matches!(context, IntContext::IfCondition));
        }
        other => panic!("unexpected {:?}", other),
    }
}

#[test]
fn reports_bad_not() {
    let e = Expr::Unary { op: '!', right: Box::new(string("s")) };
    let prog = vec![func("main", vec![], "void", vec![Stmt::Expression(e, 2)])];
    match check(prog) {
        Err(TypeError::BadNot { line, operand }) => {
            assert_eq!(line, 2);
            assert_eq!(operand, CelesteType::String);
        }
        other => panic!("unexpected {:?}", other),
    }
}

#[test]
fn reports_deref_of_non_pointer() {
    let e = Expr::Deref(Box::new(num(3)));
    let prog = vec![func("main", vec![], "void", vec![Stmt::Expression(e, 8)])];
    assert!(matches!(check(prog), Err(TypeError::DerefNonPointer { line: 8 })));
}

#[test]
fn address_and_deref_round_trip() {
    let e = Expr::Deref(Box::new(Expr::AddressOf(Box::new(var("x")))));
    let prog = vec![func(
        "main",
        vec![],
        "void",
        vec![let_("x", string("a"), 1), let_("y", e, 2), assign("y", string("b"), 3)],
    )];
    assert!(check(prog).is_ok());
}

#[test]
fn checking_a_program_leaves_no_scope_open() {
    let mut comp = Compiler::new(String::new(), "t.cel".to_string());
    let program = Program {
        stmts: vec![func("main", vec![Param { name: "a".to_string(), ty: CelesteType::Int }], "void", vec![let_("x", var("a"), 1)])],
    };
    let mut tc = TypeChecker::new(&mut comp);
    assert!(tc.check_program(&program).is_ok());
    assert!(comp.scopes.is_empty());
    assert!(comp.lookup_variable("x").is_none());
    assert!(comp.lookup_function("main").is_some());
}

#[test]
fn expression_types() {
    let mut comp = Compiler::new(String::new(), "t.cel".to_string());
    comp.enter_scope();
    comp.add_variable(
        "s".to_string(),
        celeste::compiler::VariableInfo { stack_slot: None, var_type: CelesteType::String, is_mutable: true, cranelift_var: None },
    );
    let addr = Expr::AddressOf(Box::new(var("s")));
    assert_eq!(comp.get_expr_type(&addr), CelesteType::Pointer(Box::new(CelesteType::String)));
    let arr = Expr::ArrayLiteral(vec![string("a"), string("b")]);
    assert_eq!(comp.get_expr_type(&arr), CelesteType::Array(Box::new(CelesteType::String)));
    let idx = Expr::Index { array: Box::new(arr), index: Box::new(num(0)) };
    assert_eq!(comp.get_expr_type(&idx), CelesteType::String);
    assert_eq!(comp.get_expr_type(&Expr::ArrayLiteral(vec![])), CelesteType::Array(Box::new(CelesteType::Int)));
    assert_eq!(comp.get_expr_type(&var("missing")), CelesteType::Int);
    match comp.expr_type(&var("missing"), 4) {
        Err(TypeError::UndefinedVariable { line, name }) => {
            assert_eq!(line, 4);
            assert_eq!(name, "missing");
        }
        other => panic!("unexpected {:?}", other),
    }
}
