use celeste::ast::{CelesteType, Param, Program, Stmt};
use celeste::compiler::{Compiler, NameMap, VariableInfo};

fn info(t: CelesteType, is_mutable: bool) -> VariableInfo {
    VariableInfo { stack_slot: None, var_type: t, is_mutable, cranelift_var: None }
}

fn fresh() -> Compiler {
    Compiler::new("fn main() { }".to_string(), "dir/main.cel".to_string())
}

#[test]
fn new_compiler_starts_at_the_beginning() {
    let comp = fresh();
    assert_eq!(comp.src, b"fn main() { }".to_vec());
    assert_eq!(comp.filename, "dir/main.cel");
    assert_eq!(comp.line, 1);
    assert_eq!(comp.index, 0);
    assert!(comp.scopes.is_empty());
}

#[test]
fn lookup_after_add_gives_the_binding() {
    let mut comp = fresh();
    comp.enter_scope();
    comp.add_variable("x".to_string(), info(CelesteType::Int, true));
    let v = comp.lookup_variable("x").unwrap();
    assert_eq!(v.var_type, CelesteType::Int);
    assert!(v.is_mutable);
    assert!(comp.lookup_variable("y").is_none());
}

#[test]
fn add_without_a_scope_does_nothing() {
    let mut comp = fresh();
    comp.add_variable("x".to_string(), info(CelesteType::Int, true));
    assert!(comp.lookup_variable("x").is_none());
    assert!(comp.scopes.is_empty());
}

#[test]
fn inner_binding_shadows_and_is_forgotten() {
    let mut comp = fresh();
    comp.enter_scope();
    comp.add_variable("x".to_string(), info(CelesteType::Int, false));
    comp.enter_scope();
    assert_eq!(comp.lookup_variable("x").unwrap().var_type, CelesteType::Int);
    comp.add_variable("x".to_string(), info(CelesteType::String, true));
    assert_eq!(comp.lookup_variable("x").unwrap().var_type, CelesteType::String);
    comp.exit_scope();
    let v = comp.lookup_variable("x").unwrap();
    assert_eq!(v.var_type, CelesteType::Int);
    assert!(!v.is_mutable);
    comp.exit_scope();
    assert!(comp.lookup_variable("x").is_none());
    comp.exit_scope();
    assert!(comp.scopes.is_empty());
}

#[test]
fn rebinding_in_one_scope_replaces() {
    let mut comp = fresh();
    comp.enter_scope();
    comp.add_variable("x".to_string(), info(CelesteType::Int, false));
    comp.add_variable("x".to_string(), info(CelesteType::String, false));
    assert_eq!(comp.lookup_variable("x").unwrap().var_type, CelesteType::String);
}

#[test]
fn lookup_variable_mut_edits_the_innermost_binding() {
    let mut comp = fresh();
    comp.enter_scope();
    comp.add_variable("x".to_string(), info(CelesteType::Int, false));
    comp.enter_scope();
    comp.add_variable("x".to_string(), info(CelesteType::Int, false));
    comp.lookup_variable_mut("x").unwrap().is_mutable = true;
    assert!(comp.lookup_variable("x").unwrap().is_mutable);
    comp.exit_scope();
    assert!(!comp.lookup_variable("x").unwrap().is_mutable);
    assert!(comp.lookup_variable_mut("nope").is_none());
}

#[test]
fn name_map_reads_its_last_write() {
    let mut m: NameMap<i32> = NameMap::new();
    assert!(m.get("a").is_none());
    m.insert("a".to_string(), 1);
    m.insert("b".to_string(), 2);
    m.insert("a".to_string(), 3);
    assert_eq!(m.get("a"), Some(&3));
    assert_eq!(m.get("b"), Some(&2));
    assert!(m.position("c").is_none());
}

#[test]
fn merge_globals_prefers_the_included() {
    let mut comp = fresh();
    comp.globals.insert("f".to_string(), CelesteType::Int);
    comp.globals.insert("g".to_string(), CelesteType::Int);
    let mut other: NameMap<CelesteType> = NameMap::new();
    other.insert("g".to_string(), CelesteType::String);
    other.insert("h".to_string(), CelesteType::Void);
    comp.merge_globals(&other);
    assert_eq!(comp.globals.get("f"), Some(&CelesteType::Int));
    assert_eq!(comp.globals.get("g"), Some(&CelesteType::String));
    assert_eq!(comp.globals.get("h"), Some(&CelesteType::Void));
}

#[test]
fn register_functions_records_signatures() {
    let mut comp = fresh();
    let program = Program {
        stmts: vec![
            Stmt::Extern {
                name: "printf".to_string(),
                arg_types: vec![CelesteType::String],
                return_type: CelesteType::Int,
                is_variadic: true,
            },
            Stmt::Function {
                name: "add".to_string(),
                params: vec![
                    Param { name: "a".to_string(), ty: CelesteType::Int },
                    Param { name: "b".to_string(), ty: CelesteType::Int },
                ],
                return_type: "int".to_string(),
                body: vec![],
            },
            Stmt::Extern { name: "add".to_string(), arg_types: vec![], return_type: CelesteType::Void, is_variadic: false },
        ],
    };
    comp.register_functions(&program);
    let p = comp.lookup_function("printf").unwrap();
    assert_eq!(p.params, vec![CelesteType::String]);
    assert_eq!(p.return_type, CelesteType::Int);
    assert!(p.is_variadic);
    let a = comp.lookup_function("add").unwrap();
    assert!(a.params.is_empty());
    assert_eq!(a.return_type, CelesteType::Void);
    assert!(comp.lookup_function("main").is_none());
}

#[test]
fn register_functions_reads_return_type_names() {
    let mut comp = fresh();
    let program = Program {
        stmts: vec![Stmt::Function {
            name: "s".to_string(),
            params: vec![Param { name: "a".to_string(), ty: CelesteType::String }],
            return_type: "string".to_string(),
            body: vec![],
        }],
    };
    comp.register_functions(&program);
    let s = comp.lookup_function("s").unwrap();
    assert_eq!(s.params, vec![CelesteType::String]);
    assert_eq!(s.return_type, CelesteType::String);
    assert!(!s.is_variadic);
}
