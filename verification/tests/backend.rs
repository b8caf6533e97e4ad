use celeste::ast::{CelesteType, Expr, Param, Program, Stmt};
use celeste::codegen::{CodegenError, CraneliftAOTBackend};
use celeste::compiler::Compiler;

fn var(n: &str) -> Expr {
    Expr::Variable(n.to_string())
}

fn num(n: i32) -> Expr {
    Expr::Integer(n)
}

fn string(s: &str) -> Expr {
    Expr::StringLiteral(s.to_string())
}

fn bin(op: char, l: Expr, r: Expr) -> Expr {
    Expr::Binary { op, lhs: Box::new(l), rhs: Box::new(r) }
}

fn call(name: &str, args: Vec<Expr>) -> Expr {
    Expr::Call { name: name.to_string(), args }
}

fn let_(name: &str, value: Expr) -> Stmt {
    Stmt::Let { name: name.to_string(), value: Box::new(value), line: 1 }
}

fn ret(value: Expr) -> Stmt {
    Stmt::Return { value, line: 1 }
}

fn func(name: &str, params: Vec<Param>, return_type: &str, body: Vec<Stmt>) -> Stmt {
    Stmt::Function { name: name.to_string(), params, return_type: return_type.to_string(), body }
}

fn printf() -> Stmt {
    Stmt::Extern {
        name: "printf".to_string(),
        arg_types: vec![CelesteType::String],
        return_type: CelesteType::Int,
        is_variadic: true,
    }
}

fn compile(stmts: Vec<Stmt>) -> (Result<(), CodegenError>, CraneliftAOTBackend, Compiler) {
    let mut comp = Compiler::new(String::new(), "t.cel".to_string());
    let mut backend = CraneliftAOTBackend::new().expect("host supported");
    let r = backend.compile_program(&Program { stmts }, &mut comp);
    (r, backend, comp)
}

#[test]
fn compiles_hello_world_to_an_object_file() {
    let (r, backend, comp) = compile(vec![
        printf(),
        func("main", vec![], "int", vec![
            Stmt::Expression(call("printf", vec![string("hi %d\n"), bin('+', num(1), num(2))]), 1),
            ret(num(0)),
        ]),
    ]);
    assert!(r.is_ok(), "{:?}", r);
    assert!(comp.scopes.is_empty());
    let bytes = backend.finalize().expect("object bytes");
    assert!(bytes.len() > 4);
    let magic = &bytes[0..4];
    assert!(magic == b"\x7fELF" || magic == b"\xcf\xfa\xed\xfe" || magic[0..2] == [0x64, 0x86], "{:?}", magic);
}

#[test]
fn compiles_calls_between_functions() {
    let (r, backend, _) = compile(vec![
        func("add", vec![
            Param { name: "a".to_string(), ty: CelesteType::Int },
            Param { name: "b".to_string(), ty: CelesteType::Int },
        ], "int", vec![ret(bin('+', var("a"), var("b")))]),
        func("main", vec![], "int", vec![let_("x", call("add", vec![num(1), num(2)])), ret(var("x"))]),
    ]);
    assert!(r.is_ok(), "{:?}", r);
    assert!(backend.finalize().is_some());
}

#[test]
fn compiles_control_flow() {
    let body = vec![
        let_("n", num(0)),
        Stmt::For {
            init: Some(Box::new(let_("i", num(0)))),
            condition: Some(bin('<', var("i"), num(10))),
            post: Some(Box::new(Stmt::Assign { name: "i".to_string(), value: Box::new(bin('+', var("i"), num(1))), line: 2 })),
            body: vec![
                let_("sq", bin('*', var("i"), var("i"))),
                Stmt::Assign { name: "n".to_string(), value: Box::new(bin('+', var("n"), var("sq"))), line: 3 },
            ],
        },
        Stmt::If {
            condition: bin('>', var("n"), num(100)),
            then_block: vec![ret(num(1))],
            else_ifs: vec![(bin('=', var("n"), num(0)), vec![let_("z", num(2)), ret(var("z"))])],
            else_block: Some(vec![Stmt::Assign { name: "n".to_string(), value: Box::new(bin('%', var("n"), num(7))), line: 4 }]),
            line: 4,
        },
        ret(bin('/', var("n"), bin('-', num(3), num(1)))),
    ];
    let (r, backend, comp) = compile(vec![func("main", vec![], "int", body)]);
    assert!(r.is_ok(), "{:?}", r);
    assert!(comp.scopes.is_empty());
    assert!(backend.finalize().is_some());
}

#[test]
fn compiles_memory_operations() {
    let body = vec![
        let_("a", Expr::ArrayLiteral(vec![num(1), num(2), num(3)])),
        let_("x", Expr::Index { array: Box::new(var("a")), index: Box::new(num(1)) }),
        let_("p", Expr::AddressOf(Box::new(var("x")))),
        let_("q", Expr::AddressOf(Box::new(Expr::Index { array: Box::new(var("a")), index: Box::new(num(2)) }))),
        Stmt::PtrAssign { ptr_expr: Box::new(Expr::AddressOf(Box::new(var("x")))), value: Box::new(num(5)) },
        Stmt::IndexAssign { array: var("a"), index: num(0), value: Box::new(num(9)) },
        let_("y", Expr::Deref(Box::new(Expr::AddressOf(Box::new(var("x")))))),
        let_("b", Expr::Unary { op: '!', right: Box::new(var("y")) }),
        ret(var("b")),
    ];
    let (r, backend, _) = compile(vec![func("main", vec![], "int", body)]);
    assert!(r.is_ok(), "{:?}", r);
    assert!(backend.finalize().is_some());
}

#[test]
fn void_function_without_return_gets_one() {
    let (r, backend, _) = compile(vec![func("f", vec![], "void", vec![let_("x", num(1))])]);
    assert!(r.is_ok(), "{:?}", r);
    assert!(backend.finalize().is_some());
}

#[test]
fn reports_undeclared_function() {
    let (r, _, _) = compile(vec![func("main", vec![], "void", vec![Stmt::Expression(call("nope", vec![]), 1)])]);
    match r {
        Err(CodegenError::FunctionNotDeclared(n)) => assert_eq!(n, "nope"),
        other => panic!("unexpected {:?}", other),
    }
}

#[test]
fn reports_undefined_variable() {
    let (r, _, _) = compile(vec![func("main", vec![], "int", vec![ret(var("zz"))])]);
    match r {
        Err(CodegenError::UndefinedVariable(n)) => assert_eq!(n, "zz"),
        other => panic!("unexpected {:?}", other),
    }
}

#[test]
fn reports_address_of_a_parameter() {
    let (r, _, _) = compile(vec![func(
        "f",
        vec![Param { name: "a".to_string(), ty: CelesteType::Int }],
        "void",
        vec![let_("p", Expr::AddressOf(Box::new(var("a"))))],
    )]);
    match r {
        Err(CodegenError::NoStackSlot(n)) => assert_eq!(n, "a"),
        other => panic!("unexpected {:?}", other),
    }
}

#[test]
fn reports_unsupported_operators() {
    let (r, _, _) = compile(vec![func("f", vec![], "void", vec![let_("x", bin('^', num(1), num(2)))])]);
    assert!(matches!(r, Err(CodegenError::UnsupportedOperator('^'))));
    let (r, _, _) = compile(vec![func("f", vec![], "void", vec![let_("x", Expr::Unary { op: '-', right: Box::new(num(1)) })])]);
    assert!(matches!(r, Err(CodegenError::UnsupportedUnary('-'))));
    let (r, _, _) = compile(vec![func("f", vec![], "void", vec![let_("x", Expr::AddressOf(Box::new(num(1))))])]);
    assert!(matches!(r, Err(CodegenError::UnsupportedAddressOf)));
}

#[test]
fn reports_assignment_to_unknown_variable() {
    let (r, _, _) = compile(vec![func("f", vec![], "void", vec![Stmt::Assign { name: "w".to_string(), value: Box::new(num(1)), line: 1 }])]);
    match r {
        Err(CodegenError::UndefinedVariable(n)) => assert_eq!(n, "w"),
        other => panic!("unexpected {:?}", other),
    }
}

#[test]
fn reports_conflicting_declarations() {
    let (r, _, _) = compile(vec![
        printf(),
        Stmt::Extern { name: "printf".to_string(), arg_types: vec![], return_type: CelesteType::Void, is_variadic: false },
    ]);
    assert!(matches!(r, Err(CodegenError::Module(_))));
}

#[test]
fn each_string_literal_gets_its_own_data_object() {
    let (r, backend, _) = compile(vec![
        printf(),
        func("main", vec![], "void", vec![
            Stmt::Expression(call("printf", vec![string("one\n")]), 1),
            Stmt::Expression(call("printf", vec![string("two\n")]), 2),
        ]),
        func("other", vec![], "void", vec![Stmt::Expression(call("printf", vec![string("three\n")]), 3)]),
    ]);
    assert!(r.is_ok(), "{:?}", r);
    assert!(backend.finalize().is_some());
}

#[test]
fn reports_variables_without_storage() {
    let mut comp = Compiler::new(String::new(), "t.cel".to_string());
    comp.enter_scope();
    comp.add_variable(
        "g".to_string(),
        celeste::compiler::VariableInfo { stack_slot: None, var_type: CelesteType::Int, is_mutable: true, cranelift_var: None },
    );
    let mut backend = CraneliftAOTBackend::new().expect("host supported");
    let r = backend.compile_program(&Program { stmts: vec![func("f", vec![], "int", vec![ret(var("g"))])] }, &mut comp);
    match r {
        Err(CodegenError::NoStorage(n)) => assert_eq!(n, "g"),
        other => panic!("unexpected {:?}", other),
    }
    let mut backend = CraneliftAOTBackend::new().expect("host supported");
    let stmts = vec![func("h", vec![], "void", vec![Stmt::Assign { name: "g".to_string(), value: Box::new(num(1)), line: 1 }])];
    let r = backend.compile_program(&Program { stmts }, &mut comp);
    match r {
        Err(CodegenError::NoVariable(n)) => assert_eq!(n, "g"),
        other => panic!("unexpected {:?}", other),
    }
}

#[test]
fn reports_code_after_return() {
    let (r, _, _) = compile(vec![func("f", vec![], "int", vec![ret(num(1)), ret(num(2))])]);
    assert!(matches!(r, Err(CodegenError::CodeAfterReturn)));
    let body = vec![Stmt::For { init: None, condition: None, post: None, body: vec![ret(num(1))] }, ret(num(0))];
    let (r, _, _) = compile(vec![func("g", vec![], "int", body)]);
    assert!(matches!(r, Err(CodegenError::CodeAfterReturn)));
}

#[test]
fn if_whose_branch_returns_continues_after_it() {
    let body = vec![
        Stmt::If { condition: num(1), then_block: vec![ret(num(0))], else_ifs: vec![], else_block: None, line: 1 },
        ret(num(2)),
    ];
    let (r, backend, comp) = compile(vec![func("main", vec![], "int", body)]);
    assert!(r.is_ok(), "{:?}", r);
    assert!(comp.scopes.is_empty());
    assert!(backend.finalize().is_some());
}

#[test]
fn backend_can_compile_after_a_failed_function() {
    let mut comp = Compiler::new(String::new(), "t.cel".to_string());
    let mut backend = CraneliftAOTBackend::new().expect("host supported");
    let bad = Program { stmts: vec![func("f", vec![], "int", vec![ret(var("nope"))])] };
    assert!(backend.compile_program(&bad, &mut comp).is_err());
    let mut comp = Compiler::new(String::new(), "t.cel".to_string());
    let good = Program { stmts: vec![func("g", vec![], "int", vec![ret(num(3))])] };
    assert!(backend.compile_program(&good, &mut comp).is_ok());
    assert!(backend.finalize().is_some());
}

fn contains_bytes(hay: &[u8], needle: &[u8]) -> bool {
    hay.windows(needle.len()).any(|w| w == needle)
}

#[test]
fn empty_program_compiles() {
    let (r, backend, comp) = compile(vec![]);
    assert!(r.is_ok(), "{:?}", r);
    assert!(comp.scopes.is_empty());
    assert!(backend.finalize().is_some());
}

#[test]
fn string_data_objects_are_named_by_their_count() {
    let mut body = Vec::new();
    for k in 0..12 {
        body.push(Stmt::Expression(call("printf", vec![string(&format!("s{}\n", k))]), 1));
    }
    let (r, backend, _) = compile(vec![printf(), func("main", vec![], "void", body)]);
    assert!(r.is_ok(), "{:?}", r);
    let bytes = backend.finalize().expect("object bytes");
    assert!(contains_bytes(&bytes, b"str_0"));
    assert!(contains_bytes(&bytes, b"str_11"));
    assert!(contains_bytes(&bytes, b"s11\n\0"));
}

#[test]
fn extern_functions_are_named_in_the_object_file() {
    let (r, backend, _) = compile(vec![
        printf(),
        func("main", vec![], "int", vec![Stmt::Expression(call("printf", vec![string("x\n")]), 1), ret(num(0))]),
    ]);
    assert!(r.is_ok(), "{:?}", r);
    let bytes = backend.finalize().expect("object bytes");
    assert!(contains_bytes(&bytes, b"printf"));
    assert!(contains_bytes(&bytes, b"main"));
}

#[test]
fn arithmetic_comparisons_and_arrays_compile() {
    let (r, backend, _) = compile(vec![func("main", vec![], "int", vec![
        let_("a", Expr::ArrayLiteral(vec![num(1), num(2), num(3)])),
        Stmt::IndexAssign { array: var("a"), index: num(1), value: Box::new(bin('-', num(7), num(2))) },
        ret(bin('<', Expr::Index { array: Box::new(var("a")), index: Box::new(num(1)) }, num(9))),
    ])]);
    assert!(r.is_ok(), "{:?}", r);
    assert!(backend.finalize().is_some());
}
