use vstd::prelude::*;
use vstd::utf8::encode_utf8;
use crate::ast::{CelesteType, Expr, Program, SpecExpr, SpecStmt, Stmt, stmts_view, exprs_view, params_view, else_ifs_view};
use crate::compiler::{Compiler, FunctionSig, VariableInfo, law_lookup_after_add, maps_add, maps_lookup, maps_pop, register_spec, scope_maps, sigs, str_equal};

verus! {

/// Where an integer is required.
#[derive(Debug, Clone, Copy)]
pub enum IntContext {
    IfCondition,
    ElseIfCondition,
    ForCondition,
}

/// Why a program does not type check.
#[derive(Debug)]
pub enum TypeError {
    UndefinedVariable { line: usize, name: String },
    AssignMismatch { line: usize, name: String, value_type: CelesteType, var_type: CelesteType },
    NotInteger { line: usize, context: IntContext },
    OperatorMismatch { line: usize, op: char, left: CelesteType, right: CelesteType },
    BadNot { line: usize, operand: CelesteType },
    DerefNonPointer { line: usize },
    UndefinedFunction { line: usize, name: String },
    TooFewVariadicArgs { line: usize, name: String, expected: usize, provided: usize },
    ArgCountMismatch { line: usize, name: String, expected: usize, provided: usize },
    ArgTypeMismatch { line: usize, position: usize, name: String, expected: CelesteType, got: CelesteType },
    PrintfArgCount { line: usize, expected: usize, got: usize },
    PrintfSpecifier { line: usize, specifier: char, expected: CelesteType, got: CelesteType },
}

/// The mathematical value of a [`TypeError`].
pub enum TypeErrorSpec {
    UndefinedVariable { line: nat, name: Seq<char> },
    AssignMismatch { line: nat, name: Seq<char>, value_type: CelesteType, var_type: CelesteType },
    NotInteger { line: nat, context: IntContext },
    OperatorMismatch { line: nat, op: char, left: CelesteType, right: CelesteType },
    BadNot { line: nat, operand: CelesteType },
    DerefNonPointer { line: nat },
    UndefinedFunction { line: nat, name: Seq<char> },
    TooFewVariadicArgs { line: nat, name: Seq<char>, expected: nat, provided: nat },
    ArgCountMismatch { line: nat, name: Seq<char>, expected: nat, provided: nat },
    ArgTypeMismatch { line: nat, position: nat, name: Seq<char>, expected: CelesteType, got: CelesteType },
    PrintfArgCount { line: nat, expected: nat, got: nat },
    PrintfSpecifier { line: nat, specifier: char, expected: CelesteType, got: CelesteType },
}

impl View for TypeError {
    type V = TypeErrorSpec;

    open spec fn view(&self) -> TypeErrorSpec {
        match self {
            TypeError::UndefinedVariable { line, name } => TypeErrorSpec::UndefinedVariable { line: *line as nat, name: name@ },
            TypeError::AssignMismatch { line, name, value_type, var_type } => TypeErrorSpec::AssignMismatch {
                line: *line as nat,
                name: name@,
                value_type: *value_type,
                var_type: *var_type,
            },
            TypeError::NotInteger { line, context } => TypeErrorSpec::NotInteger { line: *line as nat, context: *context },
            TypeError::OperatorMismatch { line, op, left, right } => TypeErrorSpec::OperatorMismatch {
                line: *line as nat,
                op: *op,
                left: *left,
                right: *right,
            },
            TypeError::BadNot { line, operand } => TypeErrorSpec::BadNot { line: *line as nat, operand: *operand },
            TypeError::DerefNonPointer { line } => TypeErrorSpec::DerefNonPointer { line: *line as nat },
            TypeError::UndefinedFunction { line, name } => TypeErrorSpec::UndefinedFunction { line: *line as nat, name: name@ },
            TypeError::TooFewVariadicArgs { line, name, expected, provided } => TypeErrorSpec::TooFewVariadicArgs {
                line: *line as nat,
                name: name@,
                expected: *expected as nat,
                provided: *provided as nat,
            },
            TypeError::ArgCountMismatch { line, name, expected, provided } => TypeErrorSpec::ArgCountMismatch {
                line: *line as nat,
                name: name@,
                expected: *expected as nat,
                provided: *provided as nat,
            },
            TypeError::ArgTypeMismatch { line, position, name, expected, got } => TypeErrorSpec::ArgTypeMismatch {
                line: *line as nat,
                position: *position as nat,
                name: name@,
                expected: *expected,
                got: *got,
            },
            TypeError::PrintfArgCount { line, expected, got } => TypeErrorSpec::PrintfArgCount {
                line: *line as nat,
                expected: *expected as nat,
                got: *got as nat,
            },
            TypeError::PrintfSpecifier { line, specifier, expected, got } => TypeErrorSpec::PrintfSpecifier {
                line: *line as nat,
                specifier: *specifier,
                expected: *expected,
                got: *got,
            },
        }
    }
}

pub type Scopes = Seq<Map<Seq<char>, VariableInfo>>;

pub type Funcs = Map<Seq<char>, FunctionSig>;

pub open spec fn printf_name() -> Seq<char> {
    seq!['p', 'r', 'i', 'n', 't', 'f']
}

/// The argument types that the `printf` format bytes `b`, from position `i`
/// on, ask for: `%d` an integer, `%s` a string; any other character after a
/// `%` asks for nothing and is skipped.
pub open spec fn format_specs(b: Seq<u8>, i: int) -> Seq<CelesteType>
    decreases b.len() - i,
{
    if i >= b.len() {
        Seq::empty()
    } else if b[i] == ('%' as u8) && i + 1 < b.len() {
        let rest = format_specs(b, i + 2);
        if b[i + 1] == ('d' as u8) {
            seq![CelesteType::Int] + rest
        } else if b[i + 1] == ('s' as u8) {
            seq![CelesteType::String] + rest
        } else {
            rest
        }
    } else {
        format_specs(b, i + 1)
    }
}

pub open spec fn specifier_char(t: CelesteType) -> char {
    if t == CelesteType::Int {
        'd'
    } else {
        's'
    }
}

/// The type of `e` in the scopes `sc` with the functions `fs`; errors are
/// reported at `line`.
pub open spec fn type_of(e: SpecExpr, sc: Scopes, fs: Funcs, line: nat) -> Result<CelesteType, TypeErrorSpec>
    decreases e, 0nat,
{
    match e {
        SpecExpr::Integer(_) => Ok(CelesteType::Int),
        SpecExpr::StringLiteral(_) => Ok(CelesteType::String),
        SpecExpr::Variable(n) => match maps_lookup(sc, n) {
            Some(v) => Ok(v.var_type),
            None => Err(TypeErrorSpec::UndefinedVariable { line, name: n }),
        },
        SpecExpr::Binary { op, lhs, rhs } => match type_of(*lhs, sc, fs, line) {
            Err(x) => Err(x),
            Ok(lt) => match type_of(*rhs, sc, fs, line) {
                Err(x) => Err(x),
                Ok(rt) => {
                    if lt != rt {
                        Err(TypeErrorSpec::OperatorMismatch { line, op, left: lt, right: rt })
                    } else {
                        Ok(CelesteType::Int)
                    }
                },
            },
        },
        SpecExpr::Unary { op, right } => match type_of(*right, sc, fs, line) {
            Err(x) => Err(x),
            Ok(t) => {
                if op == '!' && t != CelesteType::Int {
                    Err(TypeErrorSpec::BadNot { line, operand: t })
                } else {
                    Ok(CelesteType::Int)
                }
            },
        },
        SpecExpr::Call { name, args } => {
            if name == printf_name() {
                if args.len() == 0 {
                    Ok(CelesteType::Int)
                } else {
                    match args[0] {
                        SpecExpr::StringLiteral(fmt) => {
                            let specs = format_specs(encode_utf8(fmt), 0);
                            if specs.len() != args.len() - 1 {
                                Err(TypeErrorSpec::PrintfArgCount {
                                    line,
                                    expected: specs.len(),
                                    got: (args.len() - 1) as nat,
                                })
                            } else {
                                match printf_args_spec(specs, args, 0, sc, fs, line) {
                                    Err(x) => Err(x),
                                    Ok(()) => Ok(CelesteType::Int),
                                }
                            }
                        },
                        _ => Ok(CelesteType::Int),
                    }
                }
            } else if !fs.contains_key(name) {
                Err(TypeErrorSpec::UndefinedFunction { line, name })
            } else {
                let f = fs[name];
                if f.is_variadic && args.len() < f.params.len() {
                    Err(TypeErrorSpec::TooFewVariadicArgs { line, name, expected: f.params.len(), provided: args.len() })
                } else if !f.is_variadic && f.params.len() != args.len() {
                    Err(TypeErrorSpec::ArgCountMismatch { line, name, expected: f.params.len(), provided: args.len() })
                } else {
                    match call_args_spec(name, f.params, args, 0, sc, fs, line) {
                        Err(x) => Err(x),
                        Ok(()) => Ok(f.return_type),
                    }
                }
            }
        },
        SpecExpr::AddressOf(inner) => match type_of(*inner, sc, fs, line) {
            Err(x) => Err(x),
            Ok(t) => Ok(CelesteType::Pointer(Box::new(t))),
        },
        SpecExpr::Deref(inner) => match type_of(*inner, sc, fs, line) {
            Err(x) => Err(x),
            Ok(CelesteType::Pointer(t)) => Ok(*t),
            Ok(_) => Err(TypeErrorSpec::DerefNonPointer { line }),
        },
        SpecExpr::Index { array, index } => match type_of(*array, sc, fs, line) {
            Err(x) => Err(x),
            Ok(at) => match type_of(*index, sc, fs, line) {
                Err(x) => Err(x),
                Ok(_) => Ok(
                    match at {
                        CelesteType::Array(t) => *t,
                        CelesteType::Pointer(t) => *t,
                        _ => CelesteType::Int,
                    },
                ),
            },
        },
        SpecExpr::ArrayLiteral(elems) => match elements_spec(elems, 0, sc, fs, line) {
            Err(x) => Err(x),
            Ok(first) => Ok(CelesteType::Array(Box::new(
                match first {
                    Some(t) => t,
                    None => CelesteType::Int,
                },
            ))),
        },
    }
}

/// Checks the arguments `args[i..]` of a call of `name` against the
/// parameter types `params` (as far as both go).
pub open spec fn call_args_spec(
    name: Seq<char>,
    params: Seq<CelesteType>,
    args: Seq<SpecExpr>,
    i: int,
    sc: Scopes,
    fs: Funcs,
    line: nat,
) -> Result<(), TypeErrorSpec>
    decreases args, args.len() - i,
{
    if i < 0 || i >= params.len() || i >= args.len() {
        Ok(())
    } else {
        match type_of(args[i], sc, fs, line) {
            Err(x) => Err(x),
            Ok(t) => {
                if params[i] != t {
                    Err(TypeErrorSpec::ArgTypeMismatch { line, position: (i + 1) as nat, name, expected: params[i], got: t })
                } else {
                    call_args_spec(name, params, args, i + 1, sc, fs, line)
                }
            },
        }
    }
}

/// Checks the arguments after the format string of a `printf` call, from the
/// one that `specs[i]` describes on.
pub open spec fn printf_args_spec(
    specs: Seq<CelesteType>,
    args: Seq<SpecExpr>,
    i: int,
    sc: Scopes,
    fs: Funcs,
    line: nat,
) -> Result<(), TypeErrorSpec>
    decreases args, args.len() - i,
{
    if i < 0 || i >= specs.len() || i + 1 >= args.len() {
        Ok(())
    } else {
        match type_of(args[i + 1], sc, fs, line) {
            Err(x) => Err(x),
            Ok(got) => {
                if specs[i] != got {
                    Err(TypeErrorSpec::PrintfSpecifier { line, specifier: specifier_char(specs[i]), expected: specs[i], got })
                } else {
                    printf_args_spec(specs, args, i + 1, sc, fs, line)
                }
            },
        }
    }
}

/// Checks the elements `elems[i..]` of an array literal; gives the type of
/// `elems[i]`, if there is one.
pub open spec fn elements_spec(elems: Seq<SpecExpr>, i: int, sc: Scopes, fs: Funcs, line: nat) -> Result<Option<CelesteType>, TypeErrorSpec>
    decreases elems, elems.len() - i,
{
    if i < 0 || i >= elems.len() {
        Ok(None)
    } else {
        match type_of(elems[i], sc, fs, line) {
            Err(x) => Err(x),
            Ok(t) => match elements_spec(elems, i + 1, sc, fs, line) {
                Err(x) => Err(x),
                Ok(_) => Ok(Some(t)),
            },
        }
    }
}


/// The record of a variable that the type checker binds.
pub open spec fn var_record(t: CelesteType, is_mutable: bool) -> VariableInfo {
    VariableInfo { stack_slot: None, var_type: t, is_mutable, cranelift_var: None }
}

/// The scopes `sc` after binding the parameters `params`, in order, as
/// read-only variables in the innermost scope.
pub open spec fn bind_params(sc: Scopes, params: Seq<(Seq<char>, CelesteType)>) -> Scopes
    decreases params.len(),
{
    if params.len() == 0 {
        sc
    } else {
        maps_add(bind_params(sc, params.drop_last()), params.last().0, var_record(params.last().1, false))
    }
}

/// `e` must have the integer type.
pub open spec fn ensure_int_spec(e: SpecExpr, context: IntContext, line: nat, sc: Scopes, fs: Funcs) -> Result<(), TypeErrorSpec> {
    match type_of(e, sc, fs, line) {
        Err(x) => Err(x),
        Ok(t) => {
            if t != CelesteType::Int {
                Err(TypeErrorSpec::NotInteger { line, context })
            } else {
                Ok(())
            }
        },
    }
}

/// Checks the statement `s` in the scopes `sc`; gives the scopes after it.
/// Blocks open a scope of their own; a `let` binds a mutable variable of
/// its value's type; an assignment needs a variable of the value's type;
/// conditions must be integers.
pub open spec fn check_stmt_spec(s: SpecStmt, sc: Scopes, fs: Funcs) -> Result<Scopes, TypeErrorSpec>
    decreases s, 0nat,
{
    match s {
        SpecStmt::Function { params, body, .. } => {
            match check_stmts_spec(body, 0, bind_params(sc.push(Map::empty()), params), fs) {
                Err(x) => Err(x),
                Ok(sc1) => Ok(maps_pop(sc1)),
            }
        },
        SpecStmt::Let { name, value, line } => match type_of(value, sc, fs, line) {
            Err(x) => Err(x),
            Ok(t) => Ok(maps_add(sc, name, var_record(t, true))),
        },
        SpecStmt::Assign { name, value, line } => match maps_lookup(sc, name) {
            None => Err(TypeErrorSpec::UndefinedVariable { line, name }),
            Some(v) => match type_of(value, sc, fs, line) {
                Err(x) => Err(x),
                Ok(t) => {
                    if v.var_type != t {
                        Err(TypeErrorSpec::AssignMismatch { line, name, value_type: t, var_type: v.var_type })
                    } else {
                        Ok(sc)
                    }
                },
            },
        },
        SpecStmt::If { condition, then_block, else_ifs, else_block, line } => {
            match ensure_int_spec(condition, IntContext::IfCondition, line, sc, fs) {
                Err(x) => Err(x),
                Ok(()) => match check_stmts_spec(then_block, 0, sc.push(Map::empty()), fs) {
                    Err(x) => Err(x),
                    Ok(sc1) => match else_ifs_spec(else_ifs, 0, maps_pop(sc1), fs, line) {
                        Err(x) => Err(x),
                        Ok(sc2) => match else_block {
                            None => Ok(sc2),
                            Some(b) => match check_stmts_spec(b, 0, sc2.push(Map::empty()), fs) {
                                Err(x) => Err(x),
                                Ok(sc3) => Ok(maps_pop(sc3)),
                            },
                        },
                    },
                },
            }
        },
        SpecStmt::For { init, condition, post, body } => {
            let sc0 = sc.push(Map::empty());
            let r1 = match init {
                Some(i) => check_stmt_spec(*i, sc0, fs),
                None => Ok(sc0),
            };
            match r1 {
                Err(x) => Err(x),
                Ok(sc1) => {
                    let r2 = match condition {
                        Some(c) => ensure_int_spec(c, IntContext::ForCondition, 0, sc1, fs),
                        None => Ok(()),
                    };
                    match r2 {
                        Err(x) => Err(x),
                        Ok(()) => {
                            let r3 = match post {
                                Some(p) => check_stmt_spec(*p, sc1, fs),
                                None => Ok(sc1),
                            };
                            match r3 {
                                Err(x) => Err(x),
                                Ok(sc2) => match check_stmts_spec(body, 0, sc2, fs) {
                                    Err(x) => Err(x),
                                    Ok(sc3) => Ok(maps_pop(sc3)),
                                },
                            }
                        },
                    }
                },
            }
        },
        SpecStmt::Return { value, line } => match type_of(value, sc, fs, line) {
            Err(x) => Err(x),
            Ok(_) => Ok(sc),
        },
        SpecStmt::Expression(e, line) => match type_of(e, sc, fs, line) {
            Err(x) => Err(x),
            Ok(_) => Ok(sc),
        },
        _ => Ok(sc),
    }
}

/// Checks the statements `ss[i..]` in order, each in the scopes that the
/// one before it left.
pub open spec fn check_stmts_spec(ss: Seq<SpecStmt>, i: int, sc: Scopes, fs: Funcs) -> Result<Scopes, TypeErrorSpec>
    decreases ss, ss.len() - i,
{
    if i < 0 || i >= ss.len() {
        Ok(sc)
    } else {
        match check_stmt_spec(ss[i], sc, fs) {
            Err(x) => Err(x),
            Ok(sc1) => check_stmts_spec(ss, i + 1, sc1, fs),
        }
    }
}

/// Checks the `else if` branches `eis[j..]`: each condition must be an
/// integer, and each body is checked in a scope of its own.
pub open spec fn else_ifs_spec(eis: Seq<(SpecExpr, Seq<SpecStmt>)>, j: int, sc: Scopes, fs: Funcs, line: nat) -> Result<Scopes, TypeErrorSpec>
    decreases eis, eis.len() - j,
{
    if j < 0 || j >= eis.len() {
        Ok(sc)
    } else {
        match ensure_int_spec(eis[j].0, IntContext::ElseIfCondition, line, sc, fs) {
            Err(x) => Err(x),
            Ok(()) => match check_stmts_spec(eis[j].1, 0, sc.push(Map::empty()), fs) {
                Err(x) => Err(x),
                Ok(sc1) => else_ifs_spec(eis, j + 1, maps_pop(sc1), fs, line),
            },
        }
    }
}

/// A whole program: the signatures of its functions are recorded first,
/// then its statements are checked in order.
pub open spec fn check_program_spec(ss: Seq<SpecStmt>, sc: Scopes, fs: Funcs) -> Result<Scopes, TypeErrorSpec> {
    check_stmts_spec(ss, 0, sc, register_spec(fs, ss))
}

/// A statement's effect on the scopes: as many as before, none but the
/// innermost changed, and only by a `let`.
pub open spec fn keeps_scopes(s: SpecStmt, before: Scopes, after: Scopes) -> bool {
    &&& after.len() == before.len()
    &&& before.len() > 0 ==> after.drop_last() == before.drop_last()
    &&& !(s is Let) ==> after == before
}

/// In a format string, `%d` asks for an `int` and `%s` for a `string`; a
/// `%` before any other byte asks for nothing and skips that byte; any other
/// byte asks for nothing.
pub proof fn law_format_specifiers(b: Seq<u8>, i: int)
    requires
        0 <= i < b.len(),
    ensures
        b[i] == 0x25 && i + 1 < b.len() && b[i + 1] == 0x64
            ==> format_specs(b, i) == seq![CelesteType::Int] + format_specs(b, i + 2),
        b[i] == 0x25 && i + 1 < b.len() && b[i + 1] == 0x73
            ==> format_specs(b, i) == seq![CelesteType::String] + format_specs(b, i + 2),
        b[i] == 0x25 && i + 1 < b.len() && b[i + 1] != 0x64 && b[i + 1] != 0x73
            ==> format_specs(b, i) == format_specs(b, i + 2),
        b[i] != 0x25 ==> format_specs(b, i) == format_specs(b, i + 1),
{
}

/// When the arguments after the format of a `printf` check against the
/// format's specifiers, the argument after the format that each specifier
/// asks for has the type it asks for.
pub proof fn law_printf_arguments_match_specifiers(specs: Seq<CelesteType>, args: Seq<SpecExpr>, i: int, sc: Scopes, fs: Funcs, line: nat)
    requires
        0 <= i,
        specs.len() + 1 == args.len(),
        printf_args_spec(specs, args, i, sc, fs, line) is Ok,
    ensures
        forall|k: int| i <= k < specs.len() ==> type_of(#[trigger] args[k + 1], sc, fs, line) == Ok::<CelesteType, TypeErrorSpec>(specs[k]),
    decreases args.len() - i,
{
    if i < specs.len() {
        law_printf_arguments_match_specifiers(specs, args, i + 1, sc, fs, line);
    }
}

/// A binary expression type checks only when both operands type check with
/// the same type, and then it is an `int`.
pub proof fn law_binary_operands_agree(op: char, l: SpecExpr, r: SpecExpr, sc: Scopes, fs: Funcs, line: nat)
    ensures
        type_of(SpecExpr::Binary { op, lhs: Box::new(l), rhs: Box::new(r) }, sc, fs, line) is Ok ==> {
            &&& type_of(l, sc, fs, line) is Ok
            &&& type_of(r, sc, fs, line) is Ok
            &&& type_of(l, sc, fs, line) == type_of(r, sc, fs, line)
            &&& type_of(SpecExpr::Binary { op, lhs: Box::new(l), rhs: Box::new(r) }, sc, fs, line) == Ok::<CelesteType, TypeErrorSpec>(CelesteType::Int)
        },
        type_of(l, sc, fs, line) matches Ok(a) && type_of(r, sc, fs, line) matches Ok(b) && a != b
            ==> type_of(SpecExpr::Binary { op, lhs: Box::new(l), rhs: Box::new(r) }, sc, fs, line) is Err,
{
}

/// An integer literal is an `int` and a string literal a `string`; a name
/// bound in the innermost scope has the type it was bound with there.
pub proof fn law_literal_and_variable_types(n: i32, t: Seq<char>, name: Seq<char>, sc: Scopes, fs: Funcs, line: nat)
    ensures
        type_of(SpecExpr::Integer(n), sc, fs, line) == Ok::<CelesteType, TypeErrorSpec>(CelesteType::Int),
        type_of(SpecExpr::StringLiteral(t), sc, fs, line) == Ok::<CelesteType, TypeErrorSpec>(CelesteType::String),
        sc.len() > 0 && sc.last().contains_key(name)
            ==> type_of(SpecExpr::Variable(name), sc, fs, line) == Ok::<CelesteType, TypeErrorSpec>(sc.last()[name].var_type),
{
    if sc.len() > 0 && sc.last().contains_key(name) {
        assert(sc[sc.len() - 1] == sc.last());
    }
}

/// A call of a declared function other than `printf` that type checks has
/// the type that the function was declared to return, whatever its
/// arguments are.
pub proof fn law_call_has_declared_return_type(name: Seq<char>, args: Seq<SpecExpr>, sc: Scopes, fs: Funcs, line: nat)
    requires
        name != seq!['p', 'r', 'i', 'n', 't', 'f'],
        fs.contains_key(name),
    ensures
        type_of(SpecExpr::Call { name, args }, sc, fs, line) is Ok
            ==> type_of(SpecExpr::Call { name, args }, sc, fs, line) == Ok::<CelesteType, TypeErrorSpec>(fs[name].return_type),
{
}

/// A `let` that type checks binds its name, in the innermost scope, to a
/// mutable variable of its value's type.
pub proof fn law_let_binds_value_type(name: Seq<char>, value: SpecExpr, line: nat, sc: Scopes, fs: Funcs)
    requires
        sc.len() > 0,
        type_of(value, sc, fs, line) is Ok,
    ensures
        check_stmt_spec(SpecStmt::Let { name, value, line }, sc, fs) matches Ok(sc2)
            && maps_lookup(sc2, name) == Some(var_record(type_of(value, sc, fs, line)->Ok_0, true)),
{
    law_lookup_after_add(sc, name, var_record(type_of(value, sc, fs, line)->Ok_0, true), name);
}

proof fn lemma_add_keeps_outer(sc: Scopes, k: Seq<char>, v: VariableInfo)
    ensures
        maps_add(sc, k, v).len() == sc.len(),
        sc.len() > 0 ==> maps_add(sc, k, v).drop_last() == sc.drop_last(),
{
    if sc.len() > 0 {
        assert(maps_add(sc, k, v).drop_last() =~= sc.drop_last());
    }
}

proof fn lemma_bind_params_keeps_outer(sc: Scopes, params: Seq<(Seq<char>, CelesteType)>)
    requires
        sc.len() > 0,
    ensures
        bind_params(sc, params).len() == sc.len(),
        bind_params(sc, params).drop_last() == sc.drop_last(),
    decreases params.len(),
{
    if params.len() > 0 {
        lemma_bind_params_keeps_outer(sc, params.drop_last());
        lemma_add_keeps_outer(bind_params(sc, params.drop_last()), params.last().0, var_record(params.last().1, false));
    }
}

/// Type checking keeps the scope discipline: a statement leaves as many
/// scopes as it found, changes none but the innermost, and only a `let`
/// changes anything; what a block binds is gone when it closes.
pub proof fn law_stmt_keeps_scopes(s: SpecStmt, sc: Scopes, fs: Funcs)
    ensures
        check_stmt_spec(s, sc, fs) matches Ok(sc2) ==> keeps_scopes(s, sc, sc2),
    decreases s, 0nat,
{
    match s {
        SpecStmt::Function { params, body, .. } => {
            let sc0 = sc.push(Map::empty());
            lemma_bind_params_keeps_outer(sc0, params);
            assert(sc0.drop_last() =~= sc);
            lemma_stmts_keep_scopes(body, 0, bind_params(sc0, params), fs);
        },
        SpecStmt::Let { name, value, line } => {
            if type_of(value, sc, fs, line) is Ok {
                lemma_add_keeps_outer(sc, name, var_record(type_of(value, sc, fs, line)->Ok_0, true));
            }
        },
        SpecStmt::If { condition, then_block, else_ifs, else_block, line } => {
            let sc0 = sc.push(Map::empty());
            assert(sc0.drop_last() =~= sc);
            lemma_stmts_keep_scopes(then_block, 0, sc0, fs);
            if let Ok(sc1) = check_stmts_spec(then_block, 0, sc0, fs) {
                lemma_else_ifs_keep_scopes(else_ifs, 0, maps_pop(sc1), fs, line);
                if let Ok(sc2) = else_ifs_spec(else_ifs, 0, maps_pop(sc1), fs, line) {
                    if let Some(b) = else_block {
                        assert(sc2.push(Map::empty()).drop_last() =~= sc2);
                        lemma_stmts_keep_scopes(b, 0, sc2.push(Map::empty()), fs);
                    }
                }
            }
        },
        SpecStmt::For { init, condition, post, body } => {
            let sc0 = sc.push(Map::empty());
            assert(sc0.drop_last() =~= sc);
            let r1 = match init {
                Some(i) => check_stmt_spec(*i, sc0, fs),
                None => Ok(sc0),
            };
            if let Some(i) = init {
                law_stmt_keeps_scopes(*i, sc0, fs);
            }
            if let Ok(sc1) = r1 {
                let r3 = match post {
                    Some(p) => check_stmt_spec(*p, sc1, fs),
                    None => Ok(sc1),
                };
                if let Some(p) = post {
                    law_stmt_keeps_scopes(*p, sc1, fs);
                }
                if let Ok(sc2) = r3 {
                    lemma_stmts_keep_scopes(body, 0, sc2, fs);
                }
            }
        },
        _ => {},
    }
}

proof fn lemma_stmts_keep_scopes(ss: Seq<SpecStmt>, i: int, sc: Scopes, fs: Funcs)
    requires
        sc.len() > 0,
    ensures
        check_stmts_spec(ss, i, sc, fs) matches Ok(sc2) ==> sc2.len() == sc.len() && sc2.drop_last() == sc.drop_last(),
    decreases ss, ss.len() - i,
{
    if 0 <= i < ss.len() {
        law_stmt_keeps_scopes(ss[i], sc, fs);
        if let Ok(sc1) = check_stmt_spec(ss[i], sc, fs) {
            lemma_stmts_keep_scopes(ss, i + 1, sc1, fs);
        }
    }
}

proof fn lemma_else_ifs_keep_scopes(eis: Seq<(SpecExpr, Seq<SpecStmt>)>, j: int, sc: Scopes, fs: Funcs, line: nat)
    ensures
        else_ifs_spec(eis, j, sc, fs, line) matches Ok(sc2) ==> sc2 == sc,
    decreases eis, eis.len() - j,
{
    if 0 <= j < eis.len() {
        let sc0 = sc.push(Map::empty());
        assert(sc0.drop_last() =~= sc);
        lemma_stmts_keep_scopes(eis[j].1, 0, sc0, fs);
        if let Ok(sc1) = check_stmts_spec(eis[j].1, 0, sc0, fs) {
            lemma_else_ifs_keep_scopes(eis, j + 1, maps_pop(sc1), fs, line);
        }
    }
}

/// Checking a whole program from no open scope leaves no scope open: what
/// its functions bind is gone once each is checked.
pub proof fn law_program_leaves_no_scope(ss: Seq<SpecStmt>, fs: Funcs)
    ensures
        check_program_spec(ss, Seq::empty(), fs) matches Ok(sc) ==> sc.len() == 0,
{
    lemma_stmts_keep_no_scope(ss, 0, Seq::empty(), register_spec(fs, ss));
}

proof fn lemma_stmts_keep_no_scope(ss: Seq<SpecStmt>, i: int, sc: Scopes, fs: Funcs)
    requires
        sc.len() == 0,
    ensures
        check_stmts_spec(ss, i, sc, fs) matches Ok(sc2) ==> sc2.len() == 0,
    decreases ss.len() - i,
{
    if 0 <= i < ss.len() {
        law_stmt_keeps_scopes(ss[i], sc, fs);
        if let Ok(sc1) = check_stmt_spec(ss[i], sc, fs) {
            lemma_stmts_keep_no_scope(ss, i + 1, sc1, fs);
        }
    }
}

/// `a` and `b` differ at most in their block scopes.
pub open spec fn same_but_scopes(a: Compiler, b: Compiler) -> bool {
    &&& a.src == b.src
    &&& a.index == b.index
    &&& a.line == b.line
    &&& a.cur_tok == b.cur_tok
    &&& a.filename == b.filename
    &&& a.locals == b.locals
    &&& a.globals == b.globals
    &&& a.functions == b.functions
}

impl Compiler {
    /// The variables in scope, innermost last.
    pub open spec fn var_scopes(&self) -> Scopes {
        scope_maps(self.scopes@)
    }

    /// The known function signatures.
    pub open spec fn func_sigs(&self) -> Funcs {
        sigs(self.functions@)
    }

    /// The type of `expr`; errors are reported at `line`.
    pub fn expr_type(&self, expr: &Expr, line: usize) -> (r: Result<CelesteType, TypeError>)
        ensures
            match type_of(expr@, self.var_scopes(), self.func_sigs(), line as nat) {
                Ok(t) => r == Ok::<CelesteType, TypeError>(t),
                Err(e) => r matches Err(x) && x@ == e,
            },
        decreases expr,
    {
        match expr {
            Expr::Integer(_) => Ok(CelesteType::Int),
            Expr::StringLiteral(_) => Ok(CelesteType::String),
            Expr::Variable(name) => match self.lookup_variable(name.as_str()) {
                Some(v) => Ok(v.var_type.duplicate()),
                None => Err(TypeError::UndefinedVariable { line, name: name.clone() }),
            },
            Expr::Binary { op, lhs, rhs } => {
                let lt = match self.expr_type(lhs, line) {
                    Ok(t) => t,
                    Err(e) => return Err(e),
                };
                let rt = match self.expr_type(rhs, line) {
                    Ok(t) => t,
                    Err(e) => return Err(e),
                };
                if !lt.same_as(&rt) {
                    return Err(TypeError::OperatorMismatch { line, op: *op, left: lt, right: rt });
                }
                Ok(CelesteType::Int)
            }
            Expr::Unary { op, right } => {
                let ty = match self.expr_type(right, line) {
                    Ok(t) => t,
                    Err(e) => return Err(e),
                };
                if *op == '!' && !ty.same_as(&CelesteType::Int) {
                    return Err(TypeError::BadNot { line, operand: ty });
                }
                Ok(CelesteType::Int)
            }
            Expr::Call { name, args } => {
                proof {
                    assert(exprs_view(args@) == expr@->args);
                }
                self.check_call(name, args, line)
            }
            Expr::AddressOf(inner) => match self.expr_type(inner, line) {
                Ok(t) => Ok(CelesteType::Pointer(Box::new(t))),
                Err(e) => Err(e),
            },
            Expr::Deref(inner) => match self.expr_type(inner, line) {
                Ok(CelesteType::Pointer(t)) => Ok(*t),
                Ok(_) => Err(TypeError::DerefNonPointer { line }),
                Err(e) => Err(e),
            },
            Expr::Index { array, index } => {
                let at = match self.expr_type(array, line) {
                    Ok(t) => t,
                    Err(e) => return Err(e),
                };
                match self.expr_type(index, line) {
                    Ok(_) => {}
                    Err(e) => return Err(e),
                }
                match at {
                    CelesteType::Array(t) => Ok(*t),
                    CelesteType::Pointer(t) => Ok(*t),
                    _ => Ok(CelesteType::Int),
                }
            }
            Expr::ArrayLiteral(elems) => {
                proof {
                    assert(exprs_view(elems@) == expr@->ArrayLiteral_0);
                }
                match self.check_elements(elems, line) {
                    Ok(first) => Ok(CelesteType::Array(Box::new(
                        match first {
                            Some(t) => t,
                            None => CelesteType::Int,
                        },
                    ))),
                    Err(e) => Err(e),
                }
            }
        }
    }

    /// Checks the elements of an array literal; gives the type of the first.
    #[verifier::rlimit(40)]
    fn check_elements(&self, elems: &Vec<Expr>, line: usize) -> (r: Result<Option<CelesteType>, TypeError>)
        ensures
            match elements_spec(exprs_view(elems@), 0, self.var_scopes(), self.func_sigs(), line as nat) {
                Ok(t) => r == Ok::<Option<CelesteType>, TypeError>(t),
                Err(e) => r matches Err(x) && x@ == e,
            },
        decreases elems,
    {
        let mut first: Option<CelesteType> = None;
        let mut i: usize = elems.len();
        let ghost es = exprs_view(elems@);
        // Every element is checked, the first error found from the front wins;
        // walk from the back so that the result for `i` builds on `i + 1`.
        let mut result: Result<Option<CelesteType>, TypeError> = Ok(None);
        while i > 0
            invariant
                i <= elems@.len(),
                es == exprs_view(elems@),
                match elements_spec(es, i as int, self.var_scopes(), self.func_sigs(), line as nat) {
                    Ok(t) => result == Ok::<Option<CelesteType>, TypeError>(t),
                    Err(e) => result matches Err(x) && x@ == e,
                },
            decreases i,
        {
            i = i - 1;
            let ghost tail = elements_spec(es, (i + 1) as int, self.var_scopes(), self.func_sigs(), line as nat);
            assert(es[i as int] == elems@[i as int]@);
            result = match self.expr_type(&elems[i], line) {
                Err(e) => Err(e),
                Ok(t) => match result {
                    Err(e) => Err(e),
                    Ok(_) => Ok(Some(t)),
                },
            };
        }
        result
    }

    /// Checks the arguments of a call of `name` and gives its result type.
    #[verifier::rlimit(40)]
    fn check_call(&self, name: &String, args: &Vec<Expr>, line: usize) -> (r: Result<CelesteType, TypeError>)
        ensures
            match type_of(SpecExpr::Call { name: name@, args: exprs_view(args@) }, self.var_scopes(), self.func_sigs(), line as nat) {
                Ok(t) => r == Ok::<CelesteType, TypeError>(t),
                Err(e) => r matches Err(x) && x@ == e,
            },
        decreases args, 1nat,
    {
        let ghost es = exprs_view(args@);
        let printf = "printf";
        proof {
            reveal_strlit("printf");
            assert(printf@ =~= printf_name());
        }
        if str_equal(name.as_str(), printf) {
            return match self.check_printf(args, line) {
                Ok(()) => Ok(CelesteType::Int),
                Err(e) => Err(e),
            };
        }
        let fn_info = match self.lookup_function(name.as_str()) {
            Some(f) => f,
            None => return Err(TypeError::UndefinedFunction { line, name: name.clone() }),
        };
        let expected = fn_info.params.len();
        let provided = args.len();
        if fn_info.is_variadic {
            if provided < expected {
                return Err(TypeError::TooFewVariadicArgs { line, name: name.clone(), expected, provided });
            }
        } else {
            if expected != provided {
                return Err(TypeError::ArgCountMismatch { line, name: name.clone(), expected, provided });
            }
        }
        proof {
            assert(self.func_sigs().contains_key(name@));
            assert(self.func_sigs()[name@] == fn_info.sig());
        }
        let mut i: usize = 0;
        while i < expected && i < provided
            invariant
                expected == fn_info.params@.len(),
                provided == args@.len(),
                name@ != printf_name(),
                self.func_sigs().contains_key(name@),
                self.func_sigs()[name@] == fn_info.sig(),
                fn_info.is_variadic ==> provided >= expected,
                !fn_info.is_variadic ==> provided == expected,
                es == exprs_view(args@),
                i <= expected,
                call_args_spec(name@, fn_info.params@, es, 0, self.var_scopes(), self.func_sigs(), line as nat)
                    == call_args_spec(name@, fn_info.params@, es, i as int, self.var_scopes(), self.func_sigs(), line as nat),
            decreases expected - i,
        {
            assert(es[i as int] == args@[i as int]@);
            assert(es.len() == args@.len());
            let provided_ty = match self.expr_type(&args[i], line) {
                Ok(t) => t,
                Err(e) => return Err(e),
            };
            if !fn_info.params[i].same_as(&provided_ty) {
                return Err(TypeError::ArgTypeMismatch {
                    line,
                    position: i + 1,
                    name: name.clone(),
                    expected: fn_info.params[i].duplicate(),
                    got: provided_ty,
                });
            }
            i = i + 1;
        }
        Ok(fn_info.return_type.duplicate())
    }

    /// Checks a `printf` call whose first argument is a string literal: the
    /// other arguments must match, in number and type, the `%d` and `%s` of
    /// the format.
    #[verifier::rlimit(40)]
    fn check_printf(&self, args: &Vec<Expr>, line: usize) -> (r: Result<(), TypeError>)
        ensures
            match type_of(SpecExpr::Call { name: printf_name(), args: exprs_view(args@) }, self.var_scopes(), self.func_sigs(), line as nat) {
                Ok(_) => r is Ok,
                Err(e) => r matches Err(x) && x@ == e,
            },
        decreases args, 0nat,
    {
        let ghost es = exprs_view(args@);
        if args.len() == 0 {
            return Ok(());
        }
        let fmt = match &args[0] {
            Expr::StringLiteral(fmt) => fmt,
            _ => return Ok(()),
        };
        let bytes = fmt.as_str().as_bytes();
        let mut expected: Vec<CelesteType> = Vec::new();
        let mut i: usize = 0;
        while i < bytes.len()
            invariant
                bytes@ == encode_utf8(fmt@),
                i <= bytes@.len() + 1,
                format_specs(bytes@, 0) == expected@ + format_specs(bytes@, i as int),
            decreases bytes@.len() + 1 - i,
        {
            if bytes[i] == ('%' as u8) && i + 1 < bytes.len() {
                let ghost before = expected@;
                if bytes[i + 1] == ('d' as u8) {
                    expected.push(CelesteType::Int);
                    assert(before + format_specs(bytes@, i as int) =~= expected@ + format_specs(bytes@, i + 2));
                } else if bytes[i + 1] == ('s' as u8) {
                    expected.push(CelesteType::String);
                    assert(before + format_specs(bytes@, i as int) =~= expected@ + format_specs(bytes@, i + 2));
                }
                i = i + 1;
            }
            i = i + 1;
        }
        assert(expected@ + format_specs(bytes@, i as int) =~= expected@);
        let provided = args.len() - 1;
        if expected.len() != provided {
            return Err(TypeError::PrintfArgCount { line, expected: expected.len(), got: provided });
        }
        let mut idx: usize = 0;
        while idx < expected.len()
            invariant
                expected@ == format_specs(encode_utf8(fmt@), 0),
                expected@.len() == args@.len() - 1,
                args@.len() > 0,
                es == exprs_view(args@),
                es[0] == SpecExpr::StringLiteral(fmt@),
                idx <= expected@.len(),
                printf_args_spec(expected@, es, 0, self.var_scopes(), self.func_sigs(), line as nat)
                    == printf_args_spec(expected@, es, idx as int, self.var_scopes(), self.func_sigs(), line as nat),
            decreases expected@.len() - idx,
        {
            assert(es[idx + 1] == args@[idx + 1]@);
            let got_ty = match self.expr_type(&args[idx + 1], line) {
                Ok(t) => t,
                Err(e) => return Err(e),
            };
            if !expected[idx].same_as(&got_ty) {
                let spec_char = if expected[idx].same_as(&CelesteType::Int) { 'd' } else { 's' };
                return Err(TypeError::PrintfSpecifier {
                    line,
                    specifier: spec_char,
                    expected: expected[idx].duplicate(),
                    got: got_ty,
                });
            }
            idx = idx + 1;
        }
        Ok(())
    }

    /// The type of `expr` where it has one, the integer type where it has none.
    pub fn get_expr_type(&self, expr: &Expr) -> (r: CelesteType)
        ensures
            r == match type_of(expr@, self.var_scopes(), self.func_sigs(), 0) {
                Ok(t) => t,
                Err(_) => CelesteType::Int,
            },
    {
        match self.expr_type(expr, 0) {
            Ok(t) => t,
            Err(_) => CelesteType::Int,
        }
    }
}

/// A type checker over the name tables of `comp`.
pub struct TypeChecker<'a> {
    pub comp: &'a mut Compiler,
}

impl<'a> TypeChecker<'a> {
    /// The variables in scope, innermost last.
    pub open spec fn scopes(&self) -> Scopes {
        scope_maps(self.comp.scopes@)
    }

    /// The known function signatures.
    pub open spec fn funcs(&self) -> Funcs {
        sigs(self.comp.functions@)
    }

    pub fn new(comp: &'a mut Compiler) -> (r: Self)
        ensures
            *r.comp == *old(comp),
    {
        Self { comp }
    }

    /// The type of `expr`; errors are reported at `line`.
    pub fn check_expr(&self, expr: &Expr, line: usize) -> (r: Result<CelesteType, TypeError>)
        ensures
            match type_of(expr@, self.scopes(), self.funcs(), line as nat) {
                Ok(t) => r == Ok::<CelesteType, TypeError>(t),
                Err(e) => r matches Err(x) && x@ == e,
            },
    {
        self.comp.expr_type(expr, line)
    }

    /// `expr` must have the integer type.
    fn ensure_int(&self, expr: &Expr, context: IntContext, line: usize) -> (r: Result<(), TypeError>)
        ensures
            match ensure_int_spec(expr@, context, line as nat, self.scopes(), self.funcs()) {
                Ok(()) => r is Ok,
                Err(e) => r matches Err(x) && x@ == e,
            },
    {
        match self.check_expr(expr, line) {
            Ok(t) => {
                if !t.same_as(&CelesteType::Int) {
                    Err(TypeError::NotInteger { line, context })
                } else {
                    Ok(())
                }
            }
            Err(e) => Err(e),
        }
    }

    /// Checks `stmts` in order.
    #[verifier::rlimit(40)]
    fn check_block(&mut self, stmts: &Vec<Stmt>) -> (r: Result<(), TypeError>)
        ensures
            same_but_scopes(*final(self).comp, *old(self).comp),
            match check_stmts_spec(stmts_view(stmts@), 0, old(self).scopes(), old(self).funcs()) {
                Ok(sc) => r is Ok && final(self).scopes() == sc,
                Err(e) => r matches Err(x) && x@ == e,
            },
        decreases stmts, 1nat,
    {
        let ghost ss = stmts_view(stmts@);
        let ghost fs = self.funcs();
        let mut i: usize = 0;
        while i < stmts.len()
            invariant
                ss == stmts_view(stmts@),
                fs == self.funcs(),
                fs == old(self).funcs(),
                i <= stmts@.len(),
                same_but_scopes(*self.comp, *old(self).comp),
                check_stmts_spec(ss, 0, old(self).scopes(), fs) == check_stmts_spec(ss, i as int, self.scopes(), fs),
            decreases stmts@.len() - i,
        {
            assert(ss[i as int] == stmts@[i as int]@);
            proof {
                assert(decreases_to!(stmts => stmts@[i as int]));
            }
            match self.check_stmt(&stmts[i]) {
                Ok(()) => {}
                Err(e) => return Err(e),
            }
            i = i + 1;
        }
        Ok(())
    }

    /// Checks one statement, updating the scopes.
    #[verifier::rlimit(40)]
    fn check_stmt(&mut self, stmt: &Stmt) -> (r: Result<(), TypeError>)
        ensures
            same_but_scopes(*final(self).comp, *old(self).comp),
            match check_stmt_spec(stmt@, old(self).scopes(), old(self).funcs()) {
                Ok(sc) => r is Ok && final(self).scopes() == sc,
                Err(e) => r matches Err(x) && x@ == e,
            },
        decreases stmt, 0nat,
    {
        match stmt {
            Stmt::Function { body, params, .. } => {
                self.comp.enter_scope();
                let ghost sc0 = self.scopes();
                let ghost pv = params_view(params@);
                let mut i: usize = 0;
                assert(pv.take(0) =~= Seq::<(Seq<char>, CelesteType)>::empty());
                while i < params.len()
                    invariant
                        pv == params_view(params@),
                        i <= params@.len(),
                        same_but_scopes(*self.comp, *old(self).comp),
                        self.scopes() == bind_params(sc0, pv.take(i as int)),
                    decreases params@.len() - i,
                {
                    assert(pv.take(i + 1).drop_last() =~= pv.take(i as int));
                    self.comp.add_variable(
                        params[i].name.clone(),
                        VariableInfo {
                            stack_slot: None,
                            var_type: params[i].ty.duplicate(),
                            is_mutable: false,
                            cranelift_var: None,
                        },
                    );
                    i = i + 1;
                }
                assert(pv.take(params@.len() as int) =~= pv);
                proof {
                    assert(stmt@->Function_body =~= stmts_view(body@));
                    assert(stmt@->Function_params =~= pv);
                }
                match self.check_block(body) {
                    Ok(()) => {}
                    Err(e) => return Err(e),
                }
                self.comp.exit_scope();
                Ok(())
            }
            Stmt::Let { name, value, line } => {
                let val_ty = match self.check_expr(value, *line) {
                    Ok(t) => t,
                    Err(e) => return Err(e),
                };
                self.comp.add_variable(
                    name.clone(),
                    VariableInfo { stack_slot: None, var_type: val_ty, is_mutable: true, cranelift_var: None },
                );
                Ok(())
            }
            Stmt::Assign { name, value, line } => {
                let var_ty = match self.comp.lookup_variable(name.as_str()) {
                    Some(v) => v.var_type.duplicate(),
                    None => return Err(TypeError::UndefinedVariable { line: *line, name: name.clone() }),
                };
                let val_ty = match self.check_expr(value, *line) {
                    Ok(t) => t,
                    Err(e) => return Err(e),
                };
                if !var_ty.same_as(&val_ty) {
                    return Err(TypeError::AssignMismatch { line: *line, name: name.clone(), value_type: val_ty, var_type: var_ty });
                }
                Ok(())
            }
            Stmt::If { condition, then_block, else_ifs, else_block, line } => {
                proof {
                    assert(stmt@->If_then_block =~= stmts_view(then_block@));
                    assert forall|j: int| 0 <= j < else_ifs@.len() implies #[trigger] stmt@->If_else_ifs[j] == else_ifs_view(else_ifs@)[j] by {
                        assert(stmt@->If_else_ifs[j].1 =~= stmts_view(else_ifs@[j].1@));
                    }
                    assert(stmt@->If_else_ifs =~= else_ifs_view(else_ifs@));
                    if let Some(b) = else_block {
                        assert(stmt@->If_else_block->0 =~= stmts_view(b@));
                    }
                }
                match self.ensure_int(condition, IntContext::IfCondition, *line) {
                    Ok(()) => {}
                    Err(e) => return Err(e),
                }
                self.comp.enter_scope();
                match self.check_block(then_block) {
                    Ok(()) => {}
                    Err(e) => return Err(e),
                }
                self.comp.exit_scope();
                match self.check_else_ifs(else_ifs, *line) {
                    Ok(()) => {}
                    Err(e) => return Err(e),
                }
                if let Some(eb) = else_block {
                    self.comp.enter_scope();
                    match self.check_block(eb) {
                        Ok(()) => {}
                        Err(e) => return Err(e),
                    }
                    self.comp.exit_scope();
                }
                Ok(())
            }
            Stmt::For { init, condition, post, body } => {
                proof {
                    assert(stmt@->For_body =~= stmts_view(body@));
                }
                self.comp.enter_scope();
                if let Some(i) = init {
                    match self.check_stmt(i) {
                        Ok(()) => {}
                        Err(e) => return Err(e),
                    }
                }
                if let Some(c) = condition {
                    match self.ensure_int(c, IntContext::ForCondition, 0) {
                        Ok(()) => {}
                        Err(e) => return Err(e),
                    }
                }
                if let Some(p) = post {
                    match self.check_stmt(p) {
                        Ok(()) => {}
                        Err(e) => return Err(e),
                    }
                }
                match self.check_block(body) {
                    Ok(()) => {}
                    Err(e) => return Err(e),
                }
                self.comp.exit_scope();
                Ok(())
            }
            Stmt::Return { value, line } => match self.check_expr(value, *line) {
                Ok(_) => Ok(()),
                Err(e) => Err(e),
            },
            Stmt::Expression(expr, line) => match self.check_expr(expr, *line) {
                Ok(_) => Ok(()),
                Err(e) => Err(e),
            },
            _ => Ok(()),
        }
    }

    /// Checks the `else if` branches of an `if`.
    #[verifier::rlimit(40)]
    fn check_else_ifs(&mut self, else_ifs: &Vec<(Expr, Vec<Stmt>)>, line: usize) -> (r: Result<(), TypeError>)
        ensures
            same_but_scopes(*final(self).comp, *old(self).comp),
            match else_ifs_spec(else_ifs_view(else_ifs@), 0, old(self).scopes(), old(self).funcs(), line as nat) {
                Ok(sc) => r is Ok && final(self).scopes() == sc,
                Err(e) => r matches Err(x) && x@ == e,
            },
        decreases else_ifs, 1nat,
    {
        let ghost eis = else_ifs_view(else_ifs@);
        let ghost fs = self.funcs();
        let mut j: usize = 0;
        while j < else_ifs.len()
            invariant
                eis == else_ifs_view(else_ifs@),
                fs == self.funcs(),
                fs == old(self).funcs(),
                j <= else_ifs@.len(),
                same_but_scopes(*self.comp, *old(self).comp),
                else_ifs_spec(eis, 0, old(self).scopes(), fs, line as nat) == else_ifs_spec(eis, j as int, self.scopes(), fs, line as nat),
            decreases else_ifs@.len() - j,
        {
            let (cond, body) = &else_ifs[j];
            match self.ensure_int(cond, IntContext::ElseIfCondition, line) {
                Ok(()) => {}
                Err(e) => return Err(e),
            }
            self.comp.enter_scope();
            proof {
                assert(decreases_to!(else_ifs => else_ifs@[j as int].1));
            }
            match self.check_block(body) {
                Ok(()) => {}
                Err(e) => return Err(e),
            }
            self.comp.exit_scope();
            j = j + 1;
        }
        Ok(())
    }

    /// Records the functions that `program` declares, then checks its
    /// statements in order.
    pub fn check_program(&mut self, program: &Program) -> (r: Result<(), TypeError>)
        ensures
            final(self).comp.src == old(self).comp.src,
            final(self).comp.index == old(self).comp.index,
            final(self).comp.line == old(self).comp.line,
            final(self).comp.cur_tok == old(self).comp.cur_tok,
            final(self).comp.globals == old(self).comp.globals,
            sigs(final(self).comp.functions@) == register_spec(old(self).funcs(), stmts_view(program.stmts@)),
            match check_program_spec(stmts_view(program.stmts@), old(self).scopes(), old(self).funcs()) {
                Ok(sc) => r is Ok && final(self).scopes() == sc,
                Err(e) => r matches Err(x) && x@ == e,
            },
    {
        self.comp.register_functions(program);
        self.check_block(&program.stmts)
    }
}

} // verus!