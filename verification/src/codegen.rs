//! The ahead-of-time backend: translates a type-checked program into
//! Cranelift IR, one function at a time, inside an object module.
use vstd::prelude::*;
use vstd::utf8::encode_utf8;
use crate::ast::{CelesteType, Expr, Param, Program, SpecExpr, SpecStmt, Stmt, else_ifs_view, exprs_view, params_view, stmts_view};
use crate::clif::{
    Comparison, SymbolLinkage, append_function_params, block_param, clear_context, clear_function, clone_signature,
    create_block, create_stack_slot, declare_data, declare_data_in_func, declare_func_in_func, declare_function,
    declare_var, declared_signature, def_var, default_call_conv, define_bytes, define_data, define_function,
    emit_module, object_bytes, explicit_slot, finalize_builder, first_result, function_id, host_object_module,
    import_signature, ins_brif, ins_call, ins_call_indirect, ins_func_addr, ins_iadd, ins_iconst, ins_icmp, ins_imul,
    ins_isub, ins_jump, ins_load, ins_return, ins_sdiv, ins_srem, ins_stack_addr, ins_stack_load, ins_stack_store,
    ins_store, ins_symbol_value, ins_uextend, make_context, make_signature, new_builder_context,
    new_data_description, new_function_builder, param_count, plain_mem_flags, pointer_type, push_param, push_return,
    returns_nothing, seal_all_blocks, set_call_conv, set_function_signature, switch_to_block, target_config, type_i64,
    use_var, value_type, fb_values, fb_defs, fb_stores, fb_slot_stores, module_data_exported, Def, fb_terms, Term, fb_grown, fb_term_at, fb_entries, funcs_injective, module_sigs, sig_params, sig_returns, module_funcs, module_defined, module_exported, funcs_kept, module_data, module_data_bytes, fb_ops, Op, fb_current, fb_blocks, fb_filled, fb_sealed, fb_vars, fb_ready, fb_unchanged,
};
use crate::compiler::{Compiler, VariableInfo, maps_add, maps_lookup, str_equal};
use crate::lexer::push_char;
use crate::typechecker::{Scopes, same_but_scopes};
use cranelift::codegen::Context;
use cranelift::codegen::ir::StackSlot;
use cranelift::prelude::{FunctionBuilder, FunctionBuilderContext, Type};
use cranelift_module::ModuleError;
use cranelift_object::ObjectModule;

verus! {

broadcast use vstd::map_lib::lemma_submap_of_trans;

/// Why the backend stopped.
#[derive(Debug)]
pub enum CodegenError {
    /// The host machine cannot be targeted.
    HostUnsupported,
    /// A statement follows a `return` in the same block, or a `for` loop's
    /// body, first or last clause ends in one: no code can be added to a
    /// block after its terminator.
    CodeAfterReturn,
    /// A Cranelift variable was declared twice.
    VariableRedeclared,
    /// The value assigned to the variable is not of its Cranelift type.
    TypeMismatch(String),
    /// No function of this name was declared in the module.
    FunctionNotDeclared(String),
    /// No variable of this name is in scope.
    UndefinedVariable(String),
    /// The variable is in scope but is kept neither in a Cranelift variable
    /// nor in a stack slot.
    NoStorage(String),
    /// The variable is in scope but has no Cranelift variable to assign.
    NoVariable(String),
    /// The address of a variable without a stack slot was taken.
    NoStackSlot(String),
    /// A binary operator the backend does not implement.
    UnsupportedOperator(char),
    /// A unary operator the backend does not implement.
    UnsupportedUnary(char),
    /// `&` applied to something other than a variable or an element.
    UnsupportedAddressOf,
    /// The per-function variable counter ran out.
    TooManyVariables,
    /// The string-literal counter ran out.
    TooManyStrings,
    /// An array literal too large to lay out.
    ArrayTooLarge,
    /// The entry block lacks a parameter that the signature declares.
    MissingParam,
    /// A call to a function that returns a value produced none.
    MissingResult,
    /// Cranelift's module refused a declaration or definition.
    Module(ModuleError),
}

/// How a value is represented in machine code: a 64-bit integer or an
/// address of the target's pointer width.
pub enum ValueKind {
    Integer,
    Address,
}

/// The representation of a parameter of an `extrn` function.
pub open spec fn extern_param_kind(t: CelesteType) -> ValueKind {
    match t {
        CelesteType::String => ValueKind::Address,
        CelesteType::Pointer(_) => ValueKind::Address,
        _ => ValueKind::Integer,
    }
}

/// The representation of a parameter of a function defined in Celeste.
pub open spec fn function_param_kind(t: CelesteType) -> ValueKind {
    match t {
        CelesteType::String => ValueKind::Address,
        _ => ValueKind::Integer,
    }
}

/// The representation of a value of type `t` read from memory.
pub open spec fn value_kind(t: CelesteType) -> ValueKind {
    match t {
        CelesteType::Int => ValueKind::Integer,
        CelesteType::Void => ValueKind::Integer,
        _ => ValueKind::Address,
    }
}

/// The binary operators the backend implements (`N`, `L` and `G` stand for
/// `!=`, `<=` and `>=`).
pub open spec fn binary_op_supported(op: char) -> bool {
    op == '+' || op == '-' || op == '*' || op == '/' || op == '%' || op == '=' || op == 'N'
        || op == '<' || op == '>' || op == 'L' || op == 'G'
}

/// Where a variable is kept: whether it has a Cranelift variable, and
/// whether it has a stack slot.
pub open spec fn storage(v: VariableInfo) -> (bool, bool) {
    (v.cranelift_var is Some, v.stack_slot is Some)
}

/// The storage of the variables in scope, innermost scope last.
pub type StorageScopes = Seq<Map<Seq<char>, (bool, bool)>>;

/// The storage of the variables in the scopes `sc`.
pub open spec fn storage_of(sc: Scopes) -> StorageScopes {
    Seq::new(sc.len(), |i: int| Map::new(|k: Seq<char>| sc[i].contains_key(k), |k: Seq<char>| storage(sc[i][k])))
}

/// The storage of the variable that `k` denotes: that of the innermost
/// scope that binds it.
pub open spec fn storage_lookup(st: StorageScopes, k: Seq<char>) -> Option<(bool, bool)>
    decreases st.len(),
{
    if st.len() == 0 {
        None
    } else if st.last().contains_key(k) {
        Some(st.last()[k])
    } else {
        storage_lookup(st.drop_last(), k)
    }
}

/// `st` with `k` bound to `s` in the innermost scope (no change when there
/// is none).
pub open spec fn storage_add(st: StorageScopes, k: Seq<char>, s: (bool, bool)) -> StorageScopes {
    if st.len() == 0 {
        st
    } else {
        st.update(st.len() - 1, st.last().insert(k, s))
    }
}

proof fn lemma_storage_lookup(sc: Scopes, k: Seq<char>)
    ensures
        storage_lookup(storage_of(sc), k) == match maps_lookup(sc, k) {
            Some(v) => Some(storage(v)),
            None => None::<(bool, bool)>,
        },
    decreases sc.len(),
{
    if sc.len() > 0 {
        assert(storage_of(sc).drop_last() =~~= storage_of(sc.drop_last()));
        lemma_storage_lookup(sc.drop_last(), k);
    }
}

proof fn lemma_storage_add(sc: Scopes, k: Seq<char>, v: VariableInfo)
    ensures
        storage_of(maps_add(sc, k, v)) == storage_add(storage_of(sc), k, storage(v)),
{
    assert(storage_of(maps_add(sc, k, v)) =~~= storage_add(storage_of(sc), k, storage(v)));
}

proof fn lemma_storage_push(sc: Scopes)
    ensures
        storage_of(sc.push(Map::empty())) == storage_of(sc).push(Map::empty()),
{
    assert(storage_of(sc.push(Map::empty())) =~~= storage_of(sc).push(Map::empty()));
}

/// Whether the backend can translate `e` where the variables in scope are
/// kept as `sc` says, as far as `e` and the scopes decide it: every
/// variable read has storage, every operator is implemented, and every
/// address taken is that of a variable with a stack slot or of an element.
pub open spec fn translatable(e: SpecExpr, sc: StorageScopes) -> bool
    decreases e, 0nat,
{
    match e {
        SpecExpr::Integer(_) => true,
        SpecExpr::StringLiteral(_) => true,
        SpecExpr::Variable(n) => match storage_lookup(sc, n) {
            Some(s) => s.0 || s.1,
            None => false,
        },
        SpecExpr::Binary { op, lhs, rhs } => translatable(*lhs, sc) && translatable(*rhs, sc) && binary_op_supported(op),
        SpecExpr::Call { args, .. } => all_translatable(args, 0, sc),
        SpecExpr::Unary { op, right } => translatable(*right, sc) && op == '!',
        SpecExpr::ArrayLiteral(elems) => all_translatable(elems, 0, sc),
        SpecExpr::Index { array, index } => translatable(*array, sc) && translatable(*index, sc),
        SpecExpr::AddressOf(inner) => match *inner {
            SpecExpr::Variable(n) => match storage_lookup(sc, n) {
                Some(s) => s.1,
                None => false,
            },
            SpecExpr::Index { array, index } => translatable(*array, sc) && translatable(*index, sc),
            _ => false,
        },
        SpecExpr::Deref(inner) => translatable(*inner, sc),
    }
}

/// Whether every one of `es[i..]` is translatable.
pub open spec fn all_translatable(es: Seq<SpecExpr>, i: int, sc: StorageScopes) -> bool
    decreases es, es.len() - i,
{
    if i < 0 || i >= es.len() {
        true
    } else {
        translatable(es[i], sc) && all_translatable(es, i + 1, sc)
    }
}

/// The instructions that a binary operator emits after its operands: one
/// arithmetic instruction, or a comparison widened to 64 bits.
pub open spec fn binop_ops(op: char) -> Seq<Op> {
    if op == '+' {
        seq![Op::Iadd]
    } else if op == '-' {
        seq![Op::Isub]
    } else if op == '*' {
        seq![Op::Imul]
    } else if op == '/' {
        seq![Op::Sdiv]
    } else if op == '%' {
        seq![Op::Srem]
    } else if op == '=' {
        seq![Op::Compare(Comparison::Equal), Op::Uextend]
    } else if op == 'N' {
        seq![Op::Compare(Comparison::NotEqual), Op::Uextend]
    } else if op == '<' {
        seq![Op::Compare(Comparison::SignedLess), Op::Uextend]
    } else if op == '>' {
        seq![Op::Compare(Comparison::SignedGreater), Op::Uextend]
    } else if op == 'L' {
        seq![Op::Compare(Comparison::SignedLessOrEqual), Op::Uextend]
    } else if op == 'G' {
        seq![Op::Compare(Comparison::SignedGreaterOrEqual), Op::Uextend]
    } else {
        Seq::empty()
    }
}

/// The instructions that translating `e` emits, in order, where the
/// variables in scope are kept as `st` says; `None` for a call, whose code
/// depends on the signature the module holds. Operands come before the
/// instruction that uses them, left before right; an element's address is
/// the base plus 8 times the index; `!` compares with 0.
pub open spec fn expr_ops(e: SpecExpr, st: StorageScopes) -> Option<Seq<Op>>
    decreases e, 0nat,
{
    match e {
        SpecExpr::Integer(n) => Some(seq![Op::Iconst(n as i64)]),
        SpecExpr::StringLiteral(_) => Some(seq![Op::SymbolValue]),
        SpecExpr::Variable(n) => match storage_lookup(st, n) {
            Some(s) => if s.0 { Some(Seq::empty()) } else { Some(seq![Op::StackLoad(0)]) },
            None => None,
        },
        SpecExpr::Binary { op, lhs, rhs } => match (expr_ops(*lhs, st), expr_ops(*rhs, st)) {
            (Some(a), Some(b)) => Some(a + b + binop_ops(op)),
            _ => None,
        },
        SpecExpr::Call { .. } => None,
        SpecExpr::Unary { right, .. } => match expr_ops(*right, st) {
            Some(a) => Some(a + seq![Op::Iconst(0), Op::Compare(Comparison::Equal), Op::Uextend]),
            None => None,
        },
        SpecExpr::ArrayLiteral(elems) => match elems_ops(elems, 0, st) {
            Some(a) => Some(a + seq![Op::StackAddr(0)]),
            None => None,
        },
        SpecExpr::Index { array, index } => match (expr_ops(*array, st), expr_ops(*index, st)) {
            (Some(a), Some(b)) => Some(a + b + seq![Op::Iconst(8), Op::Imul, Op::Iadd, Op::Load]),
            _ => None,
        },
        SpecExpr::AddressOf(inner) => match *inner {
            SpecExpr::Variable(_) => Some(seq![Op::StackAddr(0)]),
            SpecExpr::Index { array, index } => match (expr_ops(*array, st), expr_ops(*index, st)) {
                (Some(a), Some(b)) => Some(a + b + seq![Op::Iconst(8), Op::Imul, Op::Iadd]),
                _ => None,
            },
            _ => None,
        },
        SpecExpr::Deref(inner) => match expr_ops(*inner, st) {
            Some(a) => Some(a + seq![Op::Load]),
            None => None,
        },
    }
}

/// The instructions that storing the elements `es[i..]` of an array literal
/// emits: each element's code, then its store at offset 8 times its index
/// (cut to 32 bits).
pub open spec fn elems_ops(es: Seq<SpecExpr>, i: int, st: StorageScopes) -> Option<Seq<Op>>
    decreases es, es.len() - i,
{
    if i < 0 || i >= es.len() {
        Some(Seq::empty())
    } else {
        match (expr_ops(es[i], st), elems_ops(es, i + 1, st)) {
            (Some(a), Some(b)) => Some(a + seq![Op::StackStore(((i * 8) as usize) as i32)] + b),
            _ => None,
        }
    }
}

/// The jump to the exit that a branch body ends with, unless it returns.
pub open spec fn exit_jump(body: Seq<SpecStmt>) -> Seq<Op> {
    if body.len() > 0 && body.last() is Return {
        Seq::empty()
    } else {
        seq![Op::Jump]
    }
}

/// The instructions that translating `s` emits, in order, where the
/// variables in scope are kept as `st` says; `None` where an expression's
/// code is not known. A `let` stores its value in its stack slot, a
/// `return` returns it, `*p = v` stores `v` at `p` and `a[i] = v` at
/// `a + 8 * i`. An `if` branches on its condition to its body or to the
/// next test, each body jumps to the exit unless it returns, and without an
/// `else` the last test jumps to the exit. A `for` runs its first clause,
/// jumps to its header, which tests the condition (or jumps on), then the
/// body and the last clause, and jumps back.
pub open spec fn stmt_ops(s: SpecStmt, st: StorageScopes) -> Option<Seq<Op>>
    decreases s, 0nat,
{
    match s {
        SpecStmt::Let { value, .. } => match expr_ops(value, st) {
            Some(a) => Some(a + seq![Op::StackStore(0)]),
            None => None,
        },
        SpecStmt::Assign { value, .. } => expr_ops(value, st),
        SpecStmt::Return { value, .. } => match expr_ops(value, st) {
            Some(a) => Some(a + seq![Op::Return]),
            None => None,
        },
        SpecStmt::Expression(e, _) => expr_ops(e, st),
        SpecStmt::PtrAssign { ptr_expr, value } => match (expr_ops(ptr_expr, st), expr_ops(value, st)) {
            (Some(a), Some(b)) => Some(a + b + seq![Op::Store]),
            _ => None,
        },
        SpecStmt::IndexAssign { array, index, value } => match (expr_ops(array, st), expr_ops(index, st), expr_ops(value, st)) {
            (Some(a), Some(b), Some(c)) => Some(a + b + c + seq![Op::Iconst(8), Op::Imul, Op::Iadd, Op::Store]),
            _ => None,
        },
        SpecStmt::If { condition, then_block, else_ifs, else_block, .. } => {
            let inner = st.push(Map::empty());
            match (expr_ops(condition, st), block_ops(then_block, 0, inner), else_ifs_ops(else_ifs, 0, st)) {
                (Some(c), Some(t), Some(e)) => {
                    let tail = match else_block {
                        Some(b) => match block_ops(b, 0, inner) {
                            Some(x) => Some(x + exit_jump(b)),
                            None => None,
                        },
                        None => Some(seq![Op::Jump]),
                    };
                    match tail {
                        Some(x) => Some(c + seq![Op::Brif] + t + exit_jump(then_block) + e + x),
                        None => None,
                    }
                },
                _ => None,
            }
        },
        SpecStmt::For { init, condition, post, body } => {
            let st0 = st.push(Map::empty());
            let st1 = match init {
                Some(i) => stmt_storage(*i, st0),
                None => st0,
            };
            let i_ops = match init {
                Some(i) => stmt_ops(*i, st0),
                None => Some(Seq::empty()),
            };
            let c_ops = match condition {
                Some(c) => match expr_ops(c, st1) {
                    Some(x) => Some(x + seq![Op::Brif]),
                    None => None,
                },
                None => Some(seq![Op::Jump]),
            };
            let p_ops = match post {
                Some(p) => stmt_ops(*p, block_storage(body, 0, st1)),
                None => Some(Seq::empty()),
            };
            match (i_ops, c_ops, block_ops(body, 0, st1), p_ops) {
                (Some(a), Some(c), Some(b), Some(p)) => Some(a + seq![Op::Jump] + c + b + p + seq![Op::Jump]),
                _ => None,
            }
        },
        _ => Some(Seq::empty()),
    }
}

/// The instructions that translating `ss[i..]` emits, each statement in the
/// scopes that the one before it left.
pub open spec fn block_ops(ss: Seq<SpecStmt>, i: int, st: StorageScopes) -> Option<Seq<Op>>
    decreases ss, ss.len() - i,
{
    if i < 0 || i >= ss.len() {
        Some(Seq::empty())
    } else {
        match (stmt_ops(ss[i], st), block_ops(ss, i + 1, stmt_storage(ss[i], st))) {
            (Some(a), Some(b)) => Some(a + b),
            _ => None,
        }
    }
}

/// The instructions that translating the branches `eis[j..]` emits: each
/// condition, a branch to its body or the next test, and the body.
pub open spec fn else_ifs_ops(eis: Seq<(SpecExpr, Seq<SpecStmt>)>, j: int, st: StorageScopes) -> Option<Seq<Op>>
    decreases eis, eis.len() - j,
{
    if j < 0 || j >= eis.len() {
        Some(Seq::empty())
    } else {
        match (expr_ops(eis[j].0, st), block_ops(eis[j].1, 0, st.push(Map::empty())), else_ifs_ops(eis, j + 1, st)) {
            (Some(c), Some(b), Some(r)) => Some(c + seq![Op::Brif] + b + exit_jump(eis[j].1) + r),
            _ => None,
        }
    }
}

/// Whether translating `e` needs nothing of the module that can fail: it
/// holds no string literal (each becomes a data object) and no call (which
/// looks its function up), and its array literals fit in memory.
pub open spec fn module_free(e: SpecExpr) -> bool
    decreases e, 0nat,
{
    match e {
        SpecExpr::StringLiteral(_) => false,
        SpecExpr::Call { .. } => false,
        SpecExpr::Binary { lhs, rhs, .. } => module_free(*lhs) && module_free(*rhs),
        SpecExpr::Unary { right, .. } => module_free(*right),
        SpecExpr::ArrayLiteral(elems) => elems.len() * 8 <= usize::MAX && all_module_free(elems, 0),
        SpecExpr::Index { array, index } => module_free(*array) && module_free(*index),
        SpecExpr::AddressOf(inner) => module_free(*inner),
        SpecExpr::Deref(inner) => module_free(*inner),
        _ => true,
    }
}

/// Whether every one of `es[i..]` is module-free.
pub open spec fn all_module_free(es: Seq<SpecExpr>, i: int) -> bool
    decreases es, es.len() - i,
{
    if i < 0 || i >= es.len() {
        true
    } else {
        module_free(es[i]) && all_module_free(es, i + 1)
    }
}

/// Whether translating `s` rests on nothing but the statement itself:
/// its expressions are module-free, it binds and assigns no variable (whether
/// a Cranelift variable takes a value depends on the value's Cranelift type),
/// no statement follows a `return` in its blocks, and no clause or body of a
/// `for` ends in one.
pub open spec fn stmt_module_free(s: SpecStmt) -> bool
    decreases s, 0nat,
{
    match s {
        SpecStmt::Let { .. } => false,
        SpecStmt::Assign { .. } => false,
        SpecStmt::Return { value, .. } => module_free(value),
        SpecStmt::Expression(e, _) => module_free(e),
        SpecStmt::PtrAssign { ptr_expr, value } => module_free(ptr_expr) && module_free(value),
        SpecStmt::IndexAssign { array, index, value } => module_free(array) && module_free(index) && module_free(value),
        SpecStmt::If { condition, then_block, else_ifs, else_block, .. } => {
            &&& module_free(condition)
            &&& block_module_free(then_block, 0)
            &&& else_ifs_module_free(else_ifs, 0)
            &&& match else_block {
                Some(b) => block_module_free(b, 0),
                None => true,
            }
        },
        SpecStmt::For { init, condition, post, body } => {
            &&& match init {
                Some(i) => stmt_module_free(*i) && !(*i is Return),
                None => true,
            }
            &&& match condition {
                Some(c) => module_free(c),
                None => true,
            }
            &&& block_module_free(body, 0)
            &&& !(body.len() > 0 && body.last() is Return)
            &&& match post {
                Some(p) => stmt_module_free(*p) && !(*p is Return),
                None => true,
            }
        },
        _ => true,
    }
}

/// Whether every statement of `ss[i..]` is module-free and none but the
/// last is a `return`.
pub open spec fn block_module_free(ss: Seq<SpecStmt>, i: int) -> bool
    decreases ss, ss.len() - i,
{
    if i < 0 || i >= ss.len() {
        true
    } else {
        stmt_module_free(ss[i]) && (ss[i] is Return ==> i == ss.len() - 1) && block_module_free(ss, i + 1)
    }
}

/// Whether every branch of `eis[j..]` is module-free.
pub open spec fn else_ifs_module_free(eis: Seq<(SpecExpr, Seq<SpecStmt>)>, j: int) -> bool
    decreases eis, eis.len() - j,
{
    if j < 0 || j >= eis.len() {
        true
    } else {
        module_free(eis[j].0) && block_module_free(eis[j].1, 0) && else_ifs_module_free(eis, j + 1)
    }
}

/// The number of string literals in `e`; each becomes a data object of its own.
pub open spec fn strings_in(e: SpecExpr) -> nat
    decreases e, 0nat,
{
    match e {
        SpecExpr::StringLiteral(_) => 1,
        SpecExpr::Binary { lhs, rhs, .. } => strings_in(*lhs) + strings_in(*rhs),
        SpecExpr::Call { args, .. } => strings_in_all(args, 0),
        SpecExpr::Unary { right, .. } => strings_in(*right),
        SpecExpr::ArrayLiteral(elems) => strings_in_all(elems, 0),
        SpecExpr::Index { array, index } => strings_in(*array) + strings_in(*index),
        SpecExpr::AddressOf(inner) => strings_in(*inner),
        SpecExpr::Deref(inner) => strings_in(*inner),
        _ => 0,
    }
}

/// The number of string literals in `es[i..]`.
pub open spec fn strings_in_all(es: Seq<SpecExpr>, i: int) -> nat
    decreases es, es.len() - i,
{
    if i < 0 || i >= es.len() {
        0
    } else {
        strings_in(es[i]) + strings_in_all(es, i + 1)
    }
}

/// The number of string literals that translating `s` emits.
pub open spec fn stmt_strings(s: SpecStmt) -> nat
    decreases s, 0nat,
{
    match s {
        SpecStmt::Let { value, .. } => strings_in(value),
        SpecStmt::Assign { value, .. } => strings_in(value),
        SpecStmt::Return { value, .. } => strings_in(value),
        SpecStmt::Expression(e, _) => strings_in(e),
        SpecStmt::PtrAssign { ptr_expr, value } => strings_in(ptr_expr) + strings_in(value),
        SpecStmt::IndexAssign { array, index, value } => strings_in(array) + strings_in(index) + strings_in(value),
        SpecStmt::If { condition, then_block, else_ifs, else_block, .. } => {
            strings_in(condition) + block_strings(then_block, 0) + else_if_strings(else_ifs, 0) + match else_block {
                Some(b) => block_strings(b, 0),
                None => 0,
            }
        },
        SpecStmt::For { init, condition, post, body } => {
            (match init {
                Some(i) => stmt_strings(*i),
                None => 0,
            }) + (match condition {
                Some(c) => strings_in(c),
                None => 0,
            }) + block_strings(body, 0) + (match post {
                Some(p) => stmt_strings(*p),
                None => 0,
            })
        },
        _ => 0,
    }
}

/// The number of string literals that translating `ss[i..]` emits.
pub open spec fn block_strings(ss: Seq<SpecStmt>, i: int) -> nat
    decreases ss, ss.len() - i,
{
    if i < 0 || i >= ss.len() {
        0
    } else {
        stmt_strings(ss[i]) + block_strings(ss, i + 1)
    }
}

/// The number of string literals that translating the branches `eis[j..]` emits.
pub open spec fn else_if_strings(eis: Seq<(SpecExpr, Seq<SpecStmt>)>, j: int) -> nat
    decreases eis, eis.len() - j,
{
    if j < 0 || j >= eis.len() {
        0
    } else {
        strings_in(eis[j].0) + block_strings(eis[j].1, 0) + else_if_strings(eis, j + 1)
    }
}

/// The number of `let` statements in `s`, nested blocks included; each
/// takes one Cranelift variable.
pub open spec fn stmt_lets(s: SpecStmt) -> nat
    decreases s, 0nat,
{
    match s {
        SpecStmt::Let { .. } => 1,
        SpecStmt::If { then_block, else_ifs, else_block, .. } => {
            block_lets(then_block, 0) + else_if_lets(else_ifs, 0) + match else_block {
                Some(b) => block_lets(b, 0),
                None => 0,
            }
        },
        SpecStmt::For { init, post, body, .. } => {
            (match init {
                Some(i) => stmt_lets(*i),
                None => 0,
            }) + block_lets(body, 0) + (match post {
                Some(p) => stmt_lets(*p),
                None => 0,
            })
        },
        _ => 0,
    }
}

/// The number of `let` statements in `ss[i..]`.
pub open spec fn block_lets(ss: Seq<SpecStmt>, i: int) -> nat
    decreases ss, ss.len() - i,
{
    if i < 0 || i >= ss.len() {
        0
    } else {
        stmt_lets(ss[i]) + block_lets(ss, i + 1)
    }
}

/// The number of `let` statements in the branches `eis[j..]`.
pub open spec fn else_if_lets(eis: Seq<(SpecExpr, Seq<SpecStmt>)>, j: int) -> nat
    decreases eis, eis.len() - j,
{
    if j < 0 || j >= eis.len() {
        0
    } else {
        block_lets(eis[j].1, 0) + else_if_lets(eis, j + 1)
    }
}

/// The number of string literals in the bodies of the functions among `ss[i..]`.
pub open spec fn program_strings(ss: Seq<SpecStmt>, i: int) -> nat
    decreases ss.len() - i,
{
    if i < 0 || i >= ss.len() {
        0
    } else {
        (match ss[i] {
            SpecStmt::Function { body, .. } => block_strings(body, 0),
            _ => 0,
        }) + program_strings(ss, i + 1)
    }
}

/// The names that the functions and `extrn` declarations among `ss[..i]` declare.
pub open spec fn declared_names(ss: Seq<SpecStmt>, i: int) -> Set<Seq<char>>
    decreases i,
{
    if i <= 0 || i > ss.len() {
        Set::empty()
    } else {
        match ss[i - 1] {
            SpecStmt::Function { name, .. } => declared_names(ss, i - 1).insert(name),
            SpecStmt::Extern { name, .. } => declared_names(ss, i - 1).insert(name),
            _ => declared_names(ss, i - 1),
        }
    }
}

/// The instructions that close a body that does not end in `return`: a
/// return of 0 for an `int` function, a bare return otherwise.
pub open spec fn implicit_return(body: Seq<SpecStmt>, return_type: Seq<char>) -> Seq<Op> {
    if body.len() > 0 && body.last() is Return {
        Seq::empty()
    } else if return_type == "int"@ {
        seq![Op::Iconst(0), Op::Return]
    } else {
        seq![Op::Return]
    }
}

/// The instructions of a function whose parameters give the storage `st`:
/// those of its body, then the implicit return; `None` where the body holds
/// a call.
pub open spec fn function_ops(body: Seq<SpecStmt>, st: StorageScopes, return_type: Seq<char>) -> Option<Seq<Op>> {
    match block_ops(body, 0, st) {
        Some(ops) => Some(ops + implicit_return(body, return_type)),
        None => None,
    }
}

/// Among the blocks `t` whose values are made as `d` says, one returns the
/// value of a constant 0 (for an `int` function) or nothing.
pub open spec fn returns_default(t: Map<u32, Term>, d: Map<u32, Def>, return_type: Seq<char>) -> bool {
    exists|c: u32| #[trigger] t.dom().contains(c) && if return_type == "int"@ {
        &&& t[c] is Return
        &&& t[c]->Return_0 is Some
        &&& d.dom().contains(t[c]->Return_0->0)
        &&& d[t[c]->Return_0->0] == Def::Iconst(0)
    } else {
        t[c] == Term::Return(None)
    }
}

/// Whether `ends` holds the function `s`, and, when its body does not end
/// in `return`, a block of it that returns the default value.
pub open spec fn end_built(ends: Map<Seq<char>, (Map<u32, Term>, Map<u32, Def>)>, s: SpecStmt) -> bool {
    match s {
        SpecStmt::Function { name, return_type, body, .. } => {
            &&& ends.dom().contains(name)
            &&& !(body.len() > 0 && body.last() is Return) ==> returns_default(ends[name].0, ends[name].1, return_type)
        },
        _ => true,
    }
}

/// Whether `bodies` holds, under the name of the function `s`, the
/// instructions that its body and parameters give, where `st` is the
/// storage around the function (any instructions, where the body holds a
/// call).
pub open spec fn body_built(bodies: Map<Seq<char>, Seq<Op>>, s: SpecStmt, st: StorageScopes) -> bool {
    match s {
        SpecStmt::Function { name, params, return_type, body } => {
            &&& bodies.dom().contains(name)
            &&& match function_ops(body, params_storage(st.push(Map::empty()), params), return_type) {
                Some(ops) => bodies[name] == ops,
                None => true,
            }
        },
        _ => true,
    }
}

/// `name` is a function of `m` that `m` exports.
pub open spec fn exported_in(m: ObjectModule, name: Seq<char>) -> bool {
    &&& module_funcs(m).dom().contains(name)
    &&& module_exported(m).contains(module_funcs(m)[name])
}

/// `name` is a function of `m` that `m` imports.
pub open spec fn imported_in(m: ObjectModule, name: Seq<char>) -> bool {
    &&& module_funcs(m).dom().contains(name)
    &&& !module_exported(m).contains(module_funcs(m)[name])
}

/// Whether one of the statements `ss` defines a function named `n`.
pub open spec fn defines_name(ss: Seq<SpecStmt>, n: Seq<char>) -> bool {
    exists|k: int| 0 <= k < ss.len() && (#[trigger] ss[k]) is Function && ss[k]->Function_name == n
}

/// Whether `s` is a function or an `extrn` named `n`.
pub open spec fn stmt_declares(s: SpecStmt, n: Seq<char>) -> bool {
    match s {
        SpecStmt::Function { name, .. } => name == n,
        SpecStmt::Extern { name, .. } => name == n,
        _ => false,
    }
}

/// A name among those the first `i` statements declare is the name of one
/// of them.
proof fn lemma_declared_names_from(ss: Seq<SpecStmt>, n: Seq<char>, i: int)
    requires
        0 <= i <= ss.len(),
        declared_names(ss, i).contains(n),
    ensures
        exists|k: int| 0 <= k < i && stmt_declares(#[trigger] ss[k], n),
    decreases i,
{
    if i > 0 {
        match ss[i - 1] {
            SpecStmt::Function { name, .. } => {
                if name != n {
                    lemma_declared_names_from(ss, n, i - 1);
                }
            },
            SpecStmt::Extern { name, .. } => {
                if name != n {
                    lemma_declared_names_from(ss, n, i - 1);
                }
            },
            _ => {
                lemma_declared_names_from(ss, n, i - 1);
            },
        }
    }
}

/// The name that a function or an `extrn` declares.
pub open spec fn decl_name(s: SpecStmt) -> Seq<char> {
    match s {
        SpecStmt::Function { name, .. } => name,
        SpecStmt::Extern { name, .. } => name,
        _ => Seq::empty(),
    }
}

/// The numbers of parameters and of return values of the signature that a
/// function or an `extrn` is declared with: one parameter for each parameter
/// or argument type, and one return value for an `int` function or an
/// `extrn` returning `Int`.
pub open spec fn decl_shape(s: SpecStmt) -> (nat, nat) {
    match s {
        SpecStmt::Function { params, return_type, .. } => (params.len(), if return_type == "int"@ { 1nat } else { 0nat }),
        SpecStmt::Extern { arg_types, return_type, .. } => (arg_types.len(), if return_type == CelesteType::Int { 1nat } else { 0nat }),
        _ => (0, 0),
    }
}

/// In `m`, each function and `extrn` among the first `n` statements `ss` is
/// a function with a signature of its shape.
pub open spec fn shapes_upto(m: ObjectModule, ss: Seq<SpecStmt>, n: int) -> bool {
    forall|k: int| 0 <= k < n && ((#[trigger] ss[k]) is Function || ss[k] is Extern)
        ==> module_funcs(m).dom().contains(decl_name(ss[k]))
            && module_sigs(m)[module_funcs(m)[decl_name(ss[k])]] == decl_shape(ss[k])
}

/// Declaring the `i`-th statement keeps the shapes of the earlier ones and
/// adds its own.
proof fn lemma_shapes_step(m0: ObjectModule, m1: ObjectModule, ss: Seq<SpecStmt>, i: int, id: u32)
    requires
        0 <= i < ss.len(),
        ss[i] is Function || ss[i] is Extern,
        shapes_upto(m0, ss, i),
        module_funcs(m1) == module_funcs(m0).insert(decl_name(ss[i]), id),
        module_funcs(m0).dom().contains(decl_name(ss[i])) ==> module_funcs(m0)[decl_name(ss[i])] == id,
        module_funcs(m0).dom().contains(decl_name(ss[i])) ==> module_sigs(m0)[id] == decl_shape(ss[i]),
        module_sigs(m1) == module_sigs(m0).insert(id, decl_shape(ss[i])),
        funcs_injective(m1),
    ensures
        shapes_upto(m1, ss, i + 1),
{
    assert forall|k: int| 0 <= k < i + 1 && ((#[trigger] ss[k]) is Function || ss[k] is Extern)
        implies module_funcs(m1).dom().contains(decl_name(ss[k]))
            && module_sigs(m1)[module_funcs(m1)[decl_name(ss[k])]] == decl_shape(ss[k]) by {
        if k < i {
            if decl_name(ss[k]) != decl_name(ss[i]) {
                assert(module_funcs(m0).dom().contains(decl_name(ss[k])));
                assert(module_funcs(m1).dom().contains(decl_name(ss[k])));
                assert(module_funcs(m1).dom().contains(decl_name(ss[i])));
                assert(module_funcs(m1)[decl_name(ss[k])] != module_funcs(m1)[decl_name(ss[i])]);
            }
        }
    }
}

/// The errors that only Cranelift's answers cause: an error of the module
/// (a declaration or definition it refused), and a parameter that the
/// declared signature does not have or types otherwise.
pub open spec fn cranelift_error(e: CodegenError) -> bool {
    e is Module || e is MissingParam || e is TypeMismatch
}

/// Every function of `ss` has a body that calls no function and binds no
/// variable, and fewer parameters than there are variable indices.
pub open spec fn program_module_free(ss: Seq<SpecStmt>) -> bool {
    forall|j: int| 0 <= j < ss.len() && (#[trigger] ss[j]) is Function
        ==> block_module_free(ss[j]->Function_body, 0) && ss[j]->Function_params.len() < u32::MAX
}

/// The name of each function or `extrn` among the first `n` statements is
/// among the names they declare.
proof fn lemma_declared_names_has(ss: Seq<SpecStmt>, j: int, n: int)
    requires
        0 <= j < n <= ss.len(),
    ensures
        ss[j] matches SpecStmt::Function { name, .. } ==> declared_names(ss, n).contains(name),
        ss[j] matches SpecStmt::Extern { name, .. } ==> declared_names(ss, n).contains(name),
    decreases n,
{
    if j < n - 1 {
        lemma_declared_names_has(ss, j, n - 1);
    }
}

/// The record that a `let` binds: an integer variable kept both in a
/// Cranelift variable and in a stack slot of its own.
pub open spec fn let_binding(info: VariableInfo) -> bool {
    &&& info.var_type == CelesteType::Int
    &&& info.is_mutable
    &&& info.stack_slot is Some
    &&& info.cranelift_var is Some
}

/// The scopes after a statement: a `let` binds its name in the innermost
/// scope, every other statement leaves the scopes as they were.
pub open spec fn scopes_after(s: SpecStmt, before: Scopes, after: Scopes) -> bool {
    match s {
        SpecStmt::Let { name, .. } => exists|info: VariableInfo|
            let_binding(info) && after == #[trigger] maps_add(before, name, info),
        _ => after == before,
    }
}

/// The storage after a statement: a `let` keeps its variable both in a
/// Cranelift variable and in a stack slot; no other statement changes the
/// scopes.
pub open spec fn stmt_storage(s: SpecStmt, st: StorageScopes) -> StorageScopes {
    match s {
        SpecStmt::Let { name, .. } => storage_add(st, name, (true, true)),
        _ => st,
    }
}

/// The storage after the statements `ss[i..]`.
pub open spec fn block_storage(ss: Seq<SpecStmt>, i: int, st: StorageScopes) -> StorageScopes
    decreases ss.len() - i,
{
    if i < 0 || i >= ss.len() {
        st
    } else {
        block_storage(ss, i + 1, stmt_storage(ss[i], st))
    }
}

/// Whether the backend can translate `s`, as far as the statement and the
/// storage of the variables in scope decide it: its expressions are
/// translatable where they stand, and an assignment's target has a
/// Cranelift variable. Blocks are judged in a scope of their own; the body
/// and the step of a `for` see what its first clause binds.
pub open spec fn stmt_translatable(s: SpecStmt, st: StorageScopes) -> bool
    decreases s, 0nat,
{
    match s {
        SpecStmt::Let { value, .. } => translatable(value, st),
        SpecStmt::Assign { name, value, .. } => translatable(value, st) && (storage_lookup(st, name) matches Some(x) && x.0),
        SpecStmt::Return { value, .. } => translatable(value, st),
        SpecStmt::Expression(e, _) => translatable(e, st),
        SpecStmt::PtrAssign { ptr_expr, value } => translatable(ptr_expr, st) && translatable(value, st),
        SpecStmt::IndexAssign { array, index, value } => {
            translatable(array, st) && translatable(index, st) && translatable(value, st)
        },
        SpecStmt::If { condition, then_block, else_ifs, else_block, .. } => {
            &&& translatable(condition, st)
            &&& block_translatable(then_block, 0, st.push(Map::empty()))
            &&& else_ifs_translatable(else_ifs, 0, st)
            &&& match else_block {
                Some(b) => block_translatable(b, 0, st.push(Map::empty())),
                None => true,
            }
        },
        SpecStmt::For { init, condition, post, body } => {
            let st0 = st.push(Map::empty());
            let st1 = match init {
                Some(i) => stmt_storage(*i, st0),
                None => st0,
            };
            &&& match init {
                Some(i) => stmt_translatable(*i, st0),
                None => true,
            }
            &&& match condition {
                Some(c) => translatable(c, st1),
                None => true,
            }
            &&& block_translatable(body, 0, st1)
            &&& match post {
                Some(p) => stmt_translatable(*p, block_storage(body, 0, st1)),
                None => true,
            }
        },
        _ => true,
    }
}

/// Whether the backend can translate `ss[i..]`, each statement in the
/// scopes that the one before it left.
pub open spec fn block_translatable(ss: Seq<SpecStmt>, i: int, st: StorageScopes) -> bool
    decreases ss, ss.len() - i,
{
    if i < 0 || i >= ss.len() {
        true
    } else {
        stmt_translatable(ss[i], st) && block_translatable(ss, i + 1, stmt_storage(ss[i], st))
    }
}

/// Whether the backend can translate the branches `eis[j..]`: each
/// condition, and each body in a scope of its own.
pub open spec fn else_ifs_translatable(eis: Seq<(SpecExpr, Seq<SpecStmt>)>, j: int, st: StorageScopes) -> bool
    decreases eis, eis.len() - j,
{
    if j < 0 || j >= eis.len() {
        true
    } else {
        translatable(eis[j].0, st) && block_translatable(eis[j].1, 0, st.push(Map::empty()))
            && else_ifs_translatable(eis, j + 1, st)
    }
}

/// The storage once the parameters `ps` are bound, in order, in the
/// innermost scope: each is kept in a Cranelift variable and has no stack slot.
pub open spec fn params_storage(st: StorageScopes, ps: Seq<(Seq<char>, CelesteType)>) -> StorageScopes
    decreases ps.len(),
{
    if ps.len() == 0 {
        st
    } else {
        storage_add(params_storage(st, ps.drop_last()), ps.last().0, (true, false))
    }
}

/// Whether the backend can translate the bodies of the functions among
/// `ss[i..]`, each in a scope of its own that holds its parameters.
pub open spec fn program_translatable(ss: Seq<SpecStmt>, i: int, st: StorageScopes) -> bool
    decreases ss.len() - i,
{
    if i < 0 || i >= ss.len() {
        true
    } else {
        (match ss[i] {
            SpecStmt::Function { params, body, .. } => block_translatable(body, 0, params_storage(st.push(Map::empty()), params)),
            _ => true,
        }) && program_translatable(ss, i + 1, st)
    }
}

proof fn lemma_scopes_after_storage(s: SpecStmt, before: Scopes, after: Scopes)
    requires
        scopes_after(s, before, after),
    ensures
        storage_of(after) == stmt_storage(s, storage_of(before)),
{
    if let SpecStmt::Let { name, .. } = s {
        let info = choose|info: VariableInfo| let_binding(info) && after == #[trigger] maps_add(before, name, info);
        lemma_storage_add(before, name, info);
    }
}

/// Every variable in the scopes `sc` that is kept in a Cranelift variable
/// names one declared in `vs`, of an index below `u32::MAX`.
pub open spec fn vars_declared(sc: Scopes, vs: Set<u32>) -> bool {
    forall|i: int, k: Seq<char>|
        #![trigger sc[i][k]]
        0 <= i < sc.len() && sc[i].contains_key(k) && sc[i][k].cranelift_var is Some
            ==> vs.contains(sc[i][k].cranelift_var->0) && sc[i][k].cranelift_var->0 < u32::MAX
}

/// The loop of a `for`, seen in the builder `z` after it from the builder
/// `a` before it: a new header block `h` ends in a branch, on a value that
/// computes the condition, to the new body block `bb` when it is not zero
/// and else to the new block where the builder ends; without a condition it
/// jumps to `bb`. The block `e` where the loop is entered and a new block
/// `l`, where the body and the post statement end, both jump to `h`.
pub open spec fn loop_built(z: FunctionBuilder, a: FunctionBuilder, cond: Option<SpecExpr>, h: u32, bb: u32, cv: u32, e: u32, l: u32) -> bool {
    let ex = fb_current(z)->0;
    &&& !fb_blocks(a).contains(h) && !fb_blocks(a).contains(bb) && !fb_blocks(a).contains(ex) && !fb_blocks(a).contains(l)
    &&& h != bb && h != ex && bb != ex && e != l
    &&& fb_terms(z).dom().contains(h)
    &&& match cond {
        Some(c) => fb_terms(z)[h] == Term::Brif(cv, bb, ex) && computes(fb_defs(z), cv, c),
        None => fb_terms(z)[h] == Term::Jump(bb),
    }
    &&& fb_terms(z).dom().contains(e) && fb_terms(z)[e] == Term::Jump(h)
    &&& fb_terms(z).dom().contains(l) && fb_terms(z)[l] == Term::Jump(h)
}

/// The branch of an `if`, seen in the builder `z` after it from the builder
/// `a` before it: the block where the `if` starts ends in a branch, on a
/// value `cv` that computes the condition, to the new block `t` when it is
/// not zero and else to the new block `n` (the next test, the `else` code or
/// the way out); the code right after the branch, that of the `then` part,
/// goes to `t`.
pub open spec fn if_built(z: FunctionBuilder, a: FunctionBuilder, cond: SpecExpr, cv: u32, t: u32, n: u32) -> bool {
    let c0 = fb_current(a)->0;
    &&& !fb_blocks(a).contains(t) && !fb_blocks(a).contains(n) && t != n
    &&& fb_terms(z).dom().contains(c0) && fb_terms(z)[c0] == Term::Brif(cv, t, n)
    &&& computes(fb_defs(z), cv, cond)
    &&& fb_term_at(z).dom().contains(c0)
    &&& fb_entries(z).dom().contains(fb_term_at(z)[c0] + 1)
    &&& fb_entries(z)[fb_term_at(z)[c0] + 1] == t
}

/// The branch of an `if` is as [`if_built`] says, for some value and blocks.
pub open spec fn if_shape(z: FunctionBuilder, a: FunctionBuilder, cond: SpecExpr) -> bool {
    exists|cv: u32, t: u32, n: u32| #[trigger] if_built(z, a, cond, cv, t, n)
}

/// The store of an assignment through a pointer, the `k`-th instruction of
/// `z`: it stores a value that computes `value` at the address that a value
/// computing `ptr` gives, with offset 0.
pub open spec fn ptr_store_at(z: FunctionBuilder, k: nat, ptr: SpecExpr, value: SpecExpr) -> bool {
    let d = fb_defs(z);
    &&& fb_stores(z).dom().contains(k)
    &&& fb_stores(z)[k].2 == 0
    &&& computes(d, fb_stores(z)[k].0, value)
    &&& computes(d, fb_stores(z)[k].1, ptr)
}

/// The store of an assignment to an array element, the `k`-th instruction
/// of `z`: it stores a value that computes `value`, with offset 0, at the
/// address `base + idx * 8`, where `base` computes `array` and `idx`
/// computes `index`.
pub open spec fn index_store_at(z: FunctionBuilder, k: nat, array: SpecExpr, index: SpecExpr, value: SpecExpr) -> bool {
    let d = fb_defs(z);
    let addr = fb_stores(z)[k].1;
    &&& fb_stores(z).dom().contains(k)
    &&& fb_stores(z)[k].2 == 0
    &&& computes(d, fb_stores(z)[k].0, value)
    &&& d.dom().contains(addr) && d[addr] is Iadd
    &&& computes(d, d[addr]->Iadd_0, array)
    &&& d.dom().contains(d[addr]->Iadd_1) && d[d[addr]->Iadd_1] is Imul
    &&& computes(d, d[d[addr]->Iadd_1]->Imul_0, index)
    &&& d.dom().contains(d[d[addr]->Iadd_1]->Imul_1)
    &&& d[d[d[addr]->Iadd_1]->Imul_1] == Def::Iconst(8)
}

/// The store that an assignment through a pointer or to an array element
/// makes, after the instructions of `a`; other statements make none here.
pub open spec fn store_built(z: FunctionBuilder, a: FunctionBuilder, s: SpecStmt) -> bool {
    match s {
        SpecStmt::PtrAssign { ptr_expr, value } => exists|k: nat| k >= fb_ops(a).len() && #[trigger] ptr_store_at(z, k, ptr_expr, value),
        SpecStmt::IndexAssign { array, index, value } => exists|k: nat| k >= fb_ops(a).len() && #[trigger] index_store_at(z, k, array, index, value),
        _ => true,
    }
}

/// The `k`-th instruction of `z` stores a value that computes `e`, the
/// `i`-th element of an array literal, at offset `8 * i` of a stack slot.
pub open spec fn elem_stored(z: FunctionBuilder, k: nat, i: int, e: SpecExpr) -> bool {
    &&& fb_slot_stores(z).dom().contains(k)
    &&& fb_slot_stores(z)[k].1 == ((i * 8) as usize) as i32
    &&& computes(fb_defs(z), fb_slot_stores(z)[k].0, e)
}

/// Each of the first `n` elements `es` is stored after the instructions of
/// `a`, as [`elem_stored`] says.
pub open spec fn elems_stored(z: FunctionBuilder, a: FunctionBuilder, es: Seq<SpecExpr>, n: int) -> bool {
    forall|i: int| 0 <= i < n ==> #[trigger] elem_stored_after(z, a, i, es[i])
}

/// Some instruction of `z` after those of `a` stores `e` as the `i`-th
/// element, as [`elem_stored`] says.
pub open spec fn elem_stored_after(z: FunctionBuilder, a: FunctionBuilder, i: int, e: SpecExpr) -> bool {
    exists|k: nat| k >= fb_ops(a).len() && #[trigger] elem_stored(z, k, i, e)
}

/// What is stored stays stored as the builder grows.
proof fn lemma_elems_stored_mono(z: FunctionBuilder, z2: FunctionBuilder, a: FunctionBuilder, es: Seq<SpecExpr>, n: int)
    requires
        elems_stored(z, a, es, n),
        fb_grown(z2, z),
    ensures
        elems_stored(z2, a, es, n),
{
    assert forall|i: int| 0 <= i < n implies #[trigger] elem_stored_after(z2, a, i, es[i]) by {
        assert(elem_stored_after(z, a, i, es[i]));
        let k = choose|k: nat| k >= fb_ops(a).len() && #[trigger] elem_stored(z, k, i, es[i]);
        assert(fb_slot_stores(z2).dom().contains(k));
        lemma_computes_mono(fb_defs(z), fb_defs(z2), fb_slot_stores(z)[k].0, es[i]);
        assert(elem_stored(z2, k, i, es[i]));
    }
}

/// The block where a `return` of `e` starts, seen from `a`, ends in `z` in a
/// return of a value that computes `e`.
pub open spec fn returns_value(z: FunctionBuilder, a: FunctionBuilder, e: SpecExpr) -> bool {
    let c0 = fb_current(a)->0;
    &&& fb_terms(z).dom().contains(c0)
    &&& fb_terms(z)[c0] is Return
    &&& fb_terms(z)[c0]->Return_0 is Some
    &&& computes(fb_defs(z), fb_terms(z)[c0]->Return_0->0, e)
}

/// The blocks of a `for` loop are as [`loop_built`] says, for some blocks.
pub open spec fn loop_shape(z: FunctionBuilder, a: FunctionBuilder, cond: Option<SpecExpr>) -> bool {
    exists|h: u32, bb: u32, cv: u32, e: u32, l: u32| #[trigger] loop_built(z, a, cond, h, bb, cv, e, l)
}

/// What translating statements does to the builder's blocks: it ends
/// positioned in a block of its own, the one it started in or a new one; a
/// block made before keeps whether it is filled, but for the one it started
/// in, which is filled once it is left; the new blocks it left are filled;
/// variables are only added and nothing is sealed.
pub open spec fn advanced(a: FunctionBuilder, z: FunctionBuilder) -> bool {
    let c0 = fb_current(a)->0;
    let c1 = fb_current(z)->0;
    &&& fb_current(z) is Some
    &&& fb_blocks(z).contains(c1)
    &&& fb_blocks(a).subset_of(fb_blocks(z))
    &&& fb_vars(a).subset_of(fb_vars(z))
    &&& fb_grown(z, a)
    &&& fb_sealed(z) == fb_sealed(a)
    &&& (c1 == c0 || !fb_blocks(a).contains(c1))
    &&& (c1 != c0 ==> fb_filled(z).contains(c0))
    &&& forall|x: u32| #[trigger] fb_blocks(a).contains(x) && x != c0 ==> (fb_filled(z).contains(x) == fb_filled(a).contains(x))
    &&& forall|x: u32| #[trigger] fb_blocks(z).contains(x) && !fb_blocks(a).contains(x) && x != c1 ==> fb_filled(z).contains(x)
}

proof fn lemma_advanced_refl(a: FunctionBuilder)
    requires
        fb_current(a) matches Some(c) && fb_blocks(a).contains(c),
    ensures
        advanced(a, a),
{
}

proof fn lemma_advanced_trans(a: FunctionBuilder, m: FunctionBuilder, z: FunctionBuilder)
    requires
        fb_current(a) matches Some(c) && fb_blocks(a).contains(c),
        advanced(a, m),
        advanced(m, z),
    ensures
        advanced(a, z),
{
    let c0 = fb_current(a)->0;
    let cm = fb_current(m)->0;
    let c1 = fb_current(z)->0;
    assert forall|x: u32| #[trigger] fb_blocks(a).contains(x) && x != c0 implies (fb_filled(z).contains(x) == fb_filled(a).contains(x)) by {
        assert(fb_blocks(m).contains(x));
    }
    assert forall|x: u32| #[trigger] fb_blocks(z).contains(x) && !fb_blocks(a).contains(x) && x != c1 implies fb_filled(z).contains(x) by {
        if fb_blocks(m).contains(x) {
            if x == cm {
            } else {
                assert(fb_filled(m).contains(x));
                assert(fb_blocks(m).contains(x) && x != cm);
            }
        }
    }
    if c1 != c0 {
        if cm == c0 {
        } else {
            assert(fb_filled(m).contains(c0));
            assert(fb_blocks(m).contains(c0));
        }
    }
}

/// What translating `else if` branches does to the builder's blocks: it
/// ends in a filled block; `last` is the block left for what follows, not
/// filled, `next` itself or a new block; a block made before keeps whether
/// it is filled, but for `next`, which is filled once left; the other new
/// blocks are filled; variables are only added and nothing is sealed.
pub open spec fn branched(a: FunctionBuilder, z: FunctionBuilder, next: u32, last: u32) -> bool {
    &&& fb_current(z) matches Some(c1) && fb_blocks(z).contains(c1) && fb_filled(z).contains(c1)
    &&& fb_blocks(z).contains(last)
    &&& !fb_filled(z).contains(last)
    &&& last < u32::MAX
    &&& (last == next || !fb_blocks(a).contains(last))
    &&& fb_blocks(a).subset_of(fb_blocks(z))
    &&& fb_vars(a).subset_of(fb_vars(z))
    &&& fb_grown(z, a)
    &&& fb_sealed(z) == fb_sealed(a)
    &&& (last != next ==> fb_filled(z).contains(next))
    &&& forall|x: u32| #[trigger] fb_blocks(a).contains(x) && x != next ==> (fb_filled(z).contains(x) == fb_filled(a).contains(x))
    &&& forall|x: u32| #[trigger] fb_blocks(z).contains(x) && !fb_blocks(a).contains(x) && x != last ==> fb_filled(z).contains(x)
}

proof fn lemma_declared_mono(sc: Scopes, vs: Set<u32>, ws: Set<u32>)
    requires
        vars_declared(sc, vs),
        vs.subset_of(ws),
    ensures
        vars_declared(sc, ws),
{
    assert forall|i: int, k2: Seq<char>|
        #![trigger sc[i][k2]]
        0 <= i < sc.len() && sc[i].contains_key(k2) && sc[i][k2].cranelift_var is Some
            implies ws.contains(sc[i][k2].cranelift_var->0) && sc[i][k2].cranelift_var->0 < u32::MAX by {
    }
}

proof fn lemma_advanced_intro(a: FunctionBuilder, z: FunctionBuilder)
    requires
        fb_current(z) is Some,
        fb_blocks(z).contains(fb_current(z)->0),
        fb_blocks(a).subset_of(fb_blocks(z)),
        fb_vars(a).subset_of(fb_vars(z)),
        fb_grown(z, a),
        fb_sealed(z) == fb_sealed(a),
        fb_current(z)->0 == fb_current(a)->0 || !fb_blocks(a).contains(fb_current(z)->0),
        fb_current(z)->0 != fb_current(a)->0 ==> fb_filled(z).contains(fb_current(a)->0),
        forall|x: u32| #[trigger] fb_blocks(a).contains(x) && x != fb_current(a)->0 ==> (fb_filled(z).contains(x) == fb_filled(a).contains(x)),
        forall|x: u32| #[trigger] fb_blocks(z).contains(x) && !fb_blocks(a).contains(x) && x != fb_current(z)->0 ==> fb_filled(z).contains(x),
    ensures
        advanced(a, z),
{
}

proof fn lemma_branched_intro(a: FunctionBuilder, z: FunctionBuilder, next: u32, last: u32)
    requires
        fb_current(z) is Some,
        fb_blocks(z).contains(fb_current(z)->0),
        fb_filled(z).contains(fb_current(z)->0),
        fb_blocks(z).contains(last),
        !fb_filled(z).contains(last),
        last < u32::MAX,
        last == next || !fb_blocks(a).contains(last),
        fb_blocks(a).subset_of(fb_blocks(z)),
        fb_vars(a).subset_of(fb_vars(z)),
        fb_grown(z, a),
        fb_sealed(z) == fb_sealed(a),
        last != next ==> fb_filled(z).contains(next),
        forall|x: u32| #[trigger] fb_blocks(a).contains(x) && x != next ==> (fb_filled(z).contains(x) == fb_filled(a).contains(x)),
        forall|x: u32| #[trigger] fb_blocks(z).contains(x) && !fb_blocks(a).contains(x) && x != last ==> fb_filled(z).contains(x),
    ensures
        branched(a, z, next, last),
{
}

proof fn lemma_lookup_declared(sc: Scopes, vs: Set<u32>, k: Seq<char>)
    requires
        vars_declared(sc, vs),
    ensures
        match maps_lookup(sc, k) {
            Some(v) => match v.cranelift_var {
                Some(x) => vs.contains(x) && x < u32::MAX,
                None => true,
            },
            None => true,
        },
    decreases sc.len(),
{
    if sc.len() > 0 {
        if sc.last().contains_key(k) {
            let v = sc.last()[k];
            assert(sc[sc.len() - 1][k] == v);
            assert(maps_lookup(sc, k) == Some(v));
            if v.cranelift_var is Some {
                assert(vs.contains(v.cranelift_var->0));
            }
        } else {
            assert(maps_lookup(sc, k) == maps_lookup(sc.drop_last(), k));
            let d = sc.drop_last();
            assert forall|i: int, k2: Seq<char>|
                #![trigger d[i][k2]]
                0 <= i < d.len() && d[i].contains_key(k2) && d[i][k2].cranelift_var is Some
                    implies vs.contains(d[i][k2].cranelift_var->0) && d[i][k2].cranelift_var->0 < u32::MAX by {
                assert(d[i] == sc[i]);
                assert(sc[i][k2] == d[i][k2]);
            }
            lemma_lookup_declared(d, vs, k);
        }
    }
}

proof fn lemma_declared_add(sc: Scopes, vs: Set<u32>, ws: Set<u32>, k: Seq<char>, info: VariableInfo)
    requires
        vars_declared(sc, vs),
        vs.subset_of(ws),
        info.cranelift_var matches Some(x) ==> ws.contains(x) && x < u32::MAX,
    ensures
        vars_declared(sc, ws),
        vars_declared(maps_add(sc, k, info), ws),
{
    let s2 = maps_add(sc, k, info);
    assert forall|i: int, k2: Seq<char>|
        #![trigger sc[i][k2]]
        0 <= i < sc.len() && sc[i].contains_key(k2) && sc[i][k2].cranelift_var is Some
            implies ws.contains(sc[i][k2].cranelift_var->0) && sc[i][k2].cranelift_var->0 < u32::MAX by {
    }
    assert forall|i: int, k2: Seq<char>|
        #![trigger s2[i][k2]]
        0 <= i < s2.len() && s2[i].contains_key(k2) && s2[i][k2].cranelift_var is Some
            implies ws.contains(s2[i][k2].cranelift_var->0) && s2[i][k2].cranelift_var->0 < u32::MAX by {
        if i == sc.len() - 1 && k2 == k {
        } else {
            assert(s2[i][k2] == sc[i][k2]);
        }
    }
}

proof fn lemma_declared_push(sc: Scopes, vs: Set<u32>)
    requires
        vars_declared(sc, vs),
    ensures
        vars_declared(sc.push(Map::empty()), vs),
        sc.len() > 0 ==> vars_declared(sc.drop_last(), vs),
{
    let s2 = sc.push(Map::empty());
    assert forall|i: int, k2: Seq<char>|
        #![trigger s2[i][k2]]
        0 <= i < s2.len() && s2[i].contains_key(k2) && s2[i][k2].cranelift_var is Some
            implies vs.contains(s2[i][k2].cranelift_var->0) && s2[i][k2].cranelift_var->0 < u32::MAX by {
        assert(s2[i] == sc[i]);
        assert(s2[i][k2] == sc[i][k2]);
    }
    if sc.len() > 0 {
        let d = sc.drop_last();
        assert forall|i: int, k2: Seq<char>|
            #![trigger d[i][k2]]
            0 <= i < d.len() && d[i].contains_key(k2) && d[i][k2].cranelift_var is Some
                implies vs.contains(d[i][k2].cranelift_var->0) && d[i][k2].cranelift_var->0 < u32::MAX by {
            assert(d[i] == sc[i]);
            assert(d[i][k2] == sc[i][k2]);
        }
    }
}

fn extern_param_kind_of(t: &CelesteType) -> (k: ValueKind)
    ensures
        k == extern_param_kind(*t),
{
    match t {
        CelesteType::String => ValueKind::Address,
        CelesteType::Pointer(_) => ValueKind::Address,
        _ => ValueKind::Integer,
    }
}

fn function_param_kind_of(t: &CelesteType) -> (k: ValueKind)
    ensures
        k == function_param_kind(*t),
{
    match t {
        CelesteType::String => ValueKind::Address,
        _ => ValueKind::Integer,
    }
}

fn value_kind_of(t: &CelesteType) -> (k: ValueKind)
    ensures
        k == value_kind(*t),
{
    match t {
        CelesteType::Int => ValueKind::Integer,
        CelesteType::Void => ValueKind::Integer,
        _ => ValueKind::Address,
    }
}

/// The Cranelift type of a representation, given the 64-bit integer type
/// and the target's pointer type.
fn kind_type(k: ValueKind, int_ty: Type, ptr_ty: Type) -> (r: Type)
    ensures
        r == match k {
            ValueKind::Integer => int_ty,
            ValueKind::Address => ptr_ty,
        },
{
    match k {
        ValueKind::Integer => int_ty,
        ValueKind::Address => ptr_ty,
    }
}

/// The size of the stack slot of an array literal of `n` elements of
/// 8 bytes, cut to 32 bits; `None` when the size overflows `usize`.
fn array_slot_size(n: usize) -> (r: Option<u32>)
    ensures
        match r {
            Some(s) => n * 8 <= usize::MAX && s == ((n * 8) as usize) as u32,
            None => n * 8 > usize::MAX,
        },
{
    match n.checked_mul(8) {
        Some(t) => Some(#[verifier::truncate] (t as u32)),
        None => None,
    }
}

/// The offset of element `i` of an array literal, cut to 32 bits.
fn element_offset(i: usize) -> (r: i32)
    requires
        i * 8 <= usize::MAX,
    ensures
        r == ((i * 8) as usize) as i32,
{
    #[verifier::truncate] ((i * 8) as i32)
}

/// The backend: an object module being filled, with the contexts that
/// building a function takes and the counters that name string data and
/// Cranelift variables.
pub struct CraneliftAOTBackend {
    builder_context: FunctionBuilderContext,
    ctx: Context,
    module: ObjectModule,
    str_count: usize,
    var_count: u32,
    bodies: Ghost<Map<Seq<char>, Seq<Op>>>,
    ends: Ghost<Map<Seq<char>, (Map<u32, Term>, Map<u32, Def>)>>,
}

impl CraneliftAOTBackend {
    /// The number of string literals emitted so far.
    pub closed spec fn strings_emitted(&self) -> nat {
        self.str_count as nat
    }

    /// The names declared as functions in the module.
    pub closed spec fn functions_declared(&self) -> Set<Seq<char>> {
        module_funcs(self.module).dom()
    }

    /// For each function defined so far, by its name, how the blocks of its
    /// builder ended and how its values were made, when it was finalized.
    pub closed spec fn function_ends(&self) -> Map<Seq<char>, (Map<u32, Term>, Map<u32, Def>)> {
        self.ends@
    }

    /// For each function defined so far, by its name, the instructions that
    /// its builder held when it was finalized; the builder writes them into
    /// the function of the context that the module then compiles.
    pub closed spec fn function_bodies(&self) -> Map<Seq<char>, Seq<Op>> {
        self.bodies@
    }

    /// The object file of the module as it stands: its bytes, `None` when
    /// Cranelift cannot write them.
    pub closed spec fn object_file(&self) -> Option<Seq<u8>> {
        object_bytes(self.module)
    }

    /// The numbers of parameters and of return values of the signature
    /// that the function `name` is declared with.
    pub closed spec fn function_shape(&self, name: Seq<char>) -> (nat, nat) {
        module_sigs(self.module)[module_funcs(self.module)[name]]
    }

    /// Whether `name` is a function that the module exports; it imports
    /// the other functions it declares.
    pub closed spec fn function_exported(&self, name: Seq<char>) -> bool {
        &&& module_funcs(self.module).dom().contains(name)
        &&& module_exported(self.module).contains(module_funcs(self.module)[name])
    }

    /// Whether `name` is a function of the module that the module holds a
    /// definition of.
    pub closed spec fn function_defined(&self, name: Seq<char>) -> bool {
        &&& module_funcs(self.module).dom().contains(name)
        &&& module_defined(self.module).contains(module_funcs(self.module)[name])
    }

    /// A backend for the host machine, optimizing for speed.
    pub fn new() -> (r: Result<Self, CodegenError>)
        ensures
            match r {
                Ok(b) => b.strings_emitted() == 0 && b.function_bodies() == Map::<Seq<char>, Seq<Op>>::empty(),
                Err(e) => e is HostUnsupported,
            },
    {
        let module = match host_object_module("celeste_module") {
            Some(m) => m,
            None => return Err(CodegenError::HostUnsupported),
        };
        let ctx = make_context(&module);
        Ok(CraneliftAOTBackend {
            builder_context: new_builder_context(),
            ctx,
            module,
            str_count: 0,
            var_count: 0,
            bodies: Ghost(Map::empty()),
            ends: Ghost(Map::empty()),
        })
    }

    /// Declares every function (exported) and `extrn` (imported) of
    /// `program` in the module, then translates the body of each function
    /// and defines it. Scopes opened for a function are closed again; every
    /// string literal in a body becomes one data object.
    #[verifier::rlimit(40)]
    pub fn compile_program(&mut self, program: &Program, comp: &mut Compiler) -> (r: Result<(), CodegenError>)
        requires
            vars_declared(old(comp).var_scopes(), Set::<u32>::empty()),
        ensures
            same_but_scopes(*final(comp), *old(comp)),
            r is Ok ==> final(comp).var_scopes() == old(comp).var_scopes(),
            r is Ok ==> final(self).strings_emitted() == old(self).strings_emitted()
                + program_strings(stmts_view(program.stmts@), 0),
            r is Ok ==> program_translatable(stmts_view(program.stmts@), 0, storage_of(old(comp).var_scopes())),
            r is Ok ==> final(self).functions_declared()
                == old(self).functions_declared().union(declared_names(stmts_view(program.stmts@), program.stmts@.len() as int)),
            r is Ok ==> forall|j: int| 0 <= j < program.stmts@.len() && (#[trigger] stmts_view(program.stmts@)[j]) is Function
                ==> final(self).function_defined(stmts_view(program.stmts@)[j]->Function_name),
            r is Ok ==> forall|j: int| 0 <= j < program.stmts@.len() && (#[trigger] stmts_view(program.stmts@)[j]) is Function
                ==> final(self).function_exported(stmts_view(program.stmts@)[j]->Function_name),
            r is Ok ==> forall|j: int| 0 <= j < program.stmts@.len() && (#[trigger] stmts_view(program.stmts@)[j]) is Extern
                && !old(self).functions_declared().contains(stmts_view(program.stmts@)[j]->Extern_name)
                && !defines_name(stmts_view(program.stmts@), stmts_view(program.stmts@)[j]->Extern_name)
                ==> !final(self).function_exported(stmts_view(program.stmts@)[j]->Extern_name),
            r is Ok ==> forall|j: int| 0 <= j < program.stmts@.len() && (#[trigger] stmts_view(program.stmts@)[j]) is Function
                ==> body_built(final(self).function_bodies(), stmts_view(program.stmts@)[j], storage_of(old(comp).var_scopes())),
            r is Ok ==> forall|j: int| 0 <= j < program.stmts@.len() && (#[trigger] stmts_view(program.stmts@)[j]) is Function
                ==> end_built(final(self).function_ends(), stmts_view(program.stmts@)[j]),
            !program_translatable(stmts_view(program.stmts@), 0, storage_of(old(comp).var_scopes())) ==> r is Err,
            program.stmts@.len() == 0 ==> r is Ok,
            r is Ok ==> forall|j: int| 0 <= j < program.stmts@.len()
                && ((#[trigger] stmts_view(program.stmts@)[j]) is Function || stmts_view(program.stmts@)[j] is Extern)
                ==> final(self).function_shape(decl_name(stmts_view(program.stmts@)[j])) == decl_shape(stmts_view(program.stmts@)[j]),
            program_translatable(stmts_view(program.stmts@), 0, storage_of(old(comp).var_scopes()))
                && program_module_free(stmts_view(program.stmts@))
                ==> (r matches Err(e) ==> cranelift_error(e)),
    {
        let cfg = target_config(&self.module);
        let ptr_ty = pointer_type(&cfg);
        let default_conv = default_call_conv(&cfg);
        let mut i: usize = 0;
        while i < program.stmts.len()
            invariant
                i <= program.stmts@.len(),
                *comp == *old(comp),
                self.str_count == old(self).str_count,
                module_funcs(self.module).dom() == module_funcs(old(self).module).dom().union(
                    declared_names(stmts_view(program.stmts@), i as int),
                ),
                module_defined(self.module) == module_defined(old(self).module),
                shapes_upto(self.module, stmts_view(program.stmts@), i as int),
                forall|k: int| 0 <= k < i && (#[trigger] stmts_view(program.stmts@)[k]) is Function
                    ==> exported_in(self.module, stmts_view(program.stmts@)[k]->Function_name),
                forall|k: int| 0 <= k < i && (#[trigger] stmts_view(program.stmts@)[k]) is Extern
                    && !module_funcs(old(self).module).dom().contains(stmts_view(program.stmts@)[k]->Extern_name)
                    && !defines_name(stmts_view(program.stmts@), stmts_view(program.stmts@)[k]->Extern_name)
                    ==> imported_in(self.module, stmts_view(program.stmts@)[k]->Extern_name),
            decreases program.stmts@.len() - i,
        {
            let ghost before = module_funcs(self.module).dom();
            proof {
                assert(stmts_view(program.stmts@)[i as int] == program.stmts@[i as int]@);
            }
            match &program.stmts[i] {
                Stmt::Extern { name, arg_types, return_type, .. } => {
                    let mut sig = make_signature(&self.module);
                    set_call_conv(&mut sig, default_conv);
                    let mut k: usize = 0;
                    while k < arg_types.len()
                        invariant
                            k <= arg_types@.len(),
                            sig_params(sig) == k,
                            sig_returns(sig) == 0,
                        decreases arg_types@.len() - k,
                    {
                        push_param(&mut sig, kind_type(extern_param_kind_of(&arg_types[k]), type_i64(), ptr_ty));
                        k = k + 1;
                    }
                    if return_type.same_as(&CelesteType::Int) {
                        push_return(&mut sig, type_i64());
                    }
                    let ghost m0 = self.module;
                    let res = declare_function(&mut self.module, name.as_str(), SymbolLinkage::Import, &sig);
                    match res {
                        Ok(_) => {},
                        Err(e) => return Err(CodegenError::Module(e)),
                    }
                    proof {
                        let ss = stmts_view(program.stmts@);
                        let id = res->Ok_0;
                        assert(ss[i as int]->Extern_name == name@);
                        assert(ss[i as int]->Extern_arg_types.len() == arg_types@.len());
                        assert(ss[i as int]->Extern_return_type == *return_type);
                        lemma_shapes_step(m0, self.module, ss, i as int, id);
                        assert forall|k: int| 0 <= k < i + 1 && (#[trigger] ss[k]) is Function
                            implies exported_in(self.module, ss[k]->Function_name) by {
                            assert(exported_in(m0, ss[k]->Function_name));
                        }
                        assert forall|k: int| 0 <= k < i + 1 && (#[trigger] ss[k]) is Extern
                            && !module_funcs(old(self).module).dom().contains(ss[k]->Extern_name)
                            && !defines_name(ss, ss[k]->Extern_name)
                            implies imported_in(self.module, ss[k]->Extern_name) by {
                            if k < i {
                                assert(imported_in(m0, ss[k]->Extern_name));
                            } else if module_funcs(m0).dom().contains(name@) {
                                lemma_declared_names_from(ss, name@, i as int);
                                let k2 = choose|k2: int| 0 <= k2 < i && stmt_declares(#[trigger] ss[k2], name@);
                                if ss[k2] is Function {
                                    assert(defines_name(ss, name@));
                                }
                                assert(imported_in(m0, ss[k2]->Extern_name));
                            }
                        }
                        assert(module_funcs(self.module).dom() =~= module_funcs(old(self).module).dom().union(
                            declared_names(stmts_view(program.stmts@), i + 1),
                        ));
                    }
                },
                Stmt::Function { name, params, return_type, .. } => {
                    let mut sig = make_signature(&self.module);
                    set_call_conv(&mut sig, default_conv);
                    let mut k: usize = 0;
                    while k < params.len()
                        invariant
                            k <= params@.len(),
                            sig_params(sig) == k,
                            sig_returns(sig) == 0,
                        decreases params@.len() - k,
                    {
                        push_param(&mut sig, kind_type(function_param_kind_of(&params[k].ty), type_i64(), ptr_ty));
                        k = k + 1;
                    }
                    if str_equal(return_type.as_str(), "int") {
                        push_return(&mut sig, type_i64());
                    }
                    let ghost m0 = self.module;
                    let res = declare_function(&mut self.module, name.as_str(), SymbolLinkage::Export, &sig);
                    match res {
                        Ok(_) => {},
                        Err(e) => return Err(CodegenError::Module(e)),
                    }
                    proof {
                        let ss = stmts_view(program.stmts@);
                        let id = res->Ok_0;
                        assert(ss[i as int]->Function_name == name@);
                        assert(ss[i as int]->Function_params.len() == params@.len());
                        assert(ss[i as int]->Function_return_type == return_type@);
                        lemma_shapes_step(m0, self.module, ss, i as int, id);
                        assert forall|k: int| 0 <= k < i + 1 && (#[trigger] ss[k]) is Function
                            implies exported_in(self.module, ss[k]->Function_name) by {
                            if k < i {
                                assert(exported_in(m0, ss[k]->Function_name));
                            }
                        }
                        assert forall|k: int| 0 <= k < i + 1 && (#[trigger] ss[k]) is Extern
                            && !module_funcs(old(self).module).dom().contains(ss[k]->Extern_name)
                            && !defines_name(ss, ss[k]->Extern_name)
                            implies imported_in(self.module, ss[k]->Extern_name) by {
                            if ss[k]->Extern_name == name@ {
                                assert(defines_name(ss, name@));
                            }
                            assert(imported_in(m0, ss[k]->Extern_name));
                            assert(module_funcs(self.module).dom().contains(name@));
                        }
                        assert(module_funcs(self.module).dom() =~= module_funcs(old(self).module).dom().union(
                            declared_names(stmts_view(program.stmts@), i + 1),
                        ));
                    }
                },
                _ => {
                    proof {
                        assert(module_funcs(self.module).dom() =~= module_funcs(old(self).module).dom().union(
                            declared_names(stmts_view(program.stmts@), i + 1),
                        ));
                    }
                },
            }
            i = i + 1;
        }
        let ghost ss = stmts_view(program.stmts@);
        let ghost funcs1 = module_funcs(self.module).dom();
        let ghost fmap1 = module_funcs(self.module);
        let ghost ex1 = module_exported(self.module);
        let ghost sg1 = module_sigs(self.module);
        let ghost sc0 = comp.var_scopes();
        let ghost s0 = self.str_count;
        let mut i: usize = 0;
        while i < program.stmts.len()
            invariant
                ss == stmts_view(program.stmts@),
                i <= program.stmts@.len(),
                same_but_scopes(*comp, *old(comp)),
                sc0 == old(comp).var_scopes(),
                comp.var_scopes() == sc0,
                s0 == old(self).str_count,
                self.str_count + program_strings(ss, i as int) == s0 + program_strings(ss, 0),
                program_translatable(ss, 0, storage_of(sc0)) == program_translatable(ss, i as int, storage_of(sc0)),
                vars_declared(sc0, Set::<u32>::empty()),
                module_funcs(self.module) == fmap1,
                funcs1 == fmap1.dom(),
                funcs1 == module_funcs(old(self).module).dom().union(declared_names(ss, program.stmts@.len() as int)),
                forall|j: int| 0 <= j < i && (#[trigger] ss[j]) is Function
                    ==> module_defined(self.module).contains(fmap1[ss[j]->Function_name]),
                forall|j: int| 0 <= j < i && (#[trigger] ss[j]) is Function
                    ==> body_built(self.bodies@, ss[j], storage_of(sc0)),
                forall|j: int| 0 <= j < i && (#[trigger] ss[j]) is Function
                    ==> end_built(self.ends@, ss[j]),
                module_exported(self.module) == ex1,
                module_sigs(self.module) == sg1,
                shapes_upto(self.module, ss, program.stmts@.len() as int),
                forall|k: int| 0 <= k < program.stmts@.len() && (#[trigger] ss[k]) is Function
                    ==> fmap1.dom().contains(ss[k]->Function_name) && ex1.contains(fmap1[ss[k]->Function_name]),
                forall|k: int| 0 <= k < program.stmts@.len() && (#[trigger] ss[k]) is Extern
                    && !module_funcs(old(self).module).dom().contains(ss[k]->Extern_name)
                    && !defines_name(ss, ss[k]->Extern_name)
                    ==> fmap1.dom().contains(ss[k]->Extern_name) && !ex1.contains(fmap1[ss[k]->Extern_name]),
            decreases program.stmts@.len() - i,
        {
            assert(ss[i as int] == program.stmts@[i as int]@);
            match &program.stmts[i] {
                Stmt::Function { name, params, body, return_type } => {
                    proof {
                        assert(ss[i as int]->Function_body =~= stmts_view(body@));
                        assert(ss[i as int]->Function_params =~= params_view(params@));
                    }
                    let ghost bodies0 = self.bodies@;
                    let ghost ends0 = self.ends@;
                    let ghost defined0 = module_defined(self.module);
                    proof {
                        if program_translatable(ss, 0, storage_of(sc0)) && program_module_free(ss) {
                            assert(ss[i as int] is Function);
                            assert(program_translatable(ss, i as int, storage_of(sc0)));
                        }
                    }
                    match self.compile_function(name, params, body, return_type, comp) {
                        Ok(()) => {},
                        Err(e) => return Err(e),
                    }
                    proof {
                        assert(ss[i as int]->Function_name == name@);
                        assert(ss[i as int]->Function_return_type == return_type@);
                        assert forall|j: int| 0 <= j < i + 1 && (#[trigger] ss[j]) is Function
                            implies body_built(self.bodies@, ss[j], storage_of(sc0)) by {
                            if j < i {
                                assert(defined0.contains(fmap1[ss[j]->Function_name]));
                                assert(ss[j]->Function_name != name@);
                                assert(body_built(bodies0, ss[j], storage_of(sc0)));
                            }
                        }
                        assert(ss[i as int]->Function_body =~= stmts_view(body@));
                        assert forall|j: int| 0 <= j < i + 1 && (#[trigger] ss[j]) is Function
                            implies end_built(self.ends@, ss[j]) by {
                            if j < i {
                                assert(defined0.contains(fmap1[ss[j]->Function_name]));
                                assert(ss[j]->Function_name != name@);
                                assert(end_built(ends0, ss[j]));
                            }
                        }
                    }
                },
                _ => {},
            }
            i = i + 1;
        }
        proof {
            assert forall|j: int| 0 <= j < program.stmts@.len() && (#[trigger] ss[j]) is Function
                implies self.function_defined(ss[j]->Function_name) by {
                lemma_declared_names_has(ss, j, program.stmts@.len() as int);
            }
        }
        Ok(())
    }

    /// Defines the function `name`, declared before, from its parameters
    /// and body: each parameter becomes a Cranelift variable in a scope of
    /// the function's own, and a body that does not end in `return` returns
    /// 0 (for `int` functions) or nothing.
    #[verifier::rlimit(40)]
    fn compile_function(
        &mut self,
        name: &String,
        params: &Vec<Param>,
        body: &Vec<Stmt>,
        return_type: &String,
        comp: &mut Compiler,
    ) -> (r: Result<(), CodegenError>)
        requires
            vars_declared(old(comp).var_scopes(), Set::<u32>::empty()),
        ensures
            !module_funcs(old(self).module).dom().contains(name@) ==> r is Err,
            module_funcs(final(self).module) == module_funcs(old(self).module),
            r is Ok ==> module_defined(final(self).module)
                == module_defined(old(self).module).insert(module_funcs(old(self).module)[name@]),
            r is Err ==> module_defined(final(self).module) == module_defined(old(self).module),
            module_exported(final(self).module) == module_exported(old(self).module),
            module_sigs(final(self).module) == module_sigs(old(self).module),
            module_defined(old(self).module).contains(module_funcs(old(self).module)[name@]) ==> r is Err,
            module_funcs(old(self).module).dom().contains(name@)
                && params@.len() < u32::MAX
                && block_translatable(
                    stmts_view(body@),
                    0,
                    params_storage(storage_of(old(comp).var_scopes()).push(Map::empty()), params_view(params@)),
                )
                && block_module_free(stmts_view(body@), 0)
                ==> (r matches Err(e) ==> cranelift_error(e)),
            r is Ok ==> final(self).bodies@ == old(self).bodies@.insert(name@, final(self).bodies@[name@]),
            r is Err ==> final(self).bodies@ == old(self).bodies@,
            r is Ok ==> final(self).ends@ == old(self).ends@.insert(name@, final(self).ends@[name@]),
            r is Err ==> final(self).ends@ == old(self).ends@,
            r is Ok && !(body@.len() > 0 && stmts_view(body@).last() is Return)
                ==> returns_default(final(self).ends@[name@].0, final(self).ends@[name@].1, return_type@),
            match function_ops(
                stmts_view(body@),
                params_storage(storage_of(old(comp).var_scopes()).push(Map::empty()), params_view(params@)),
                return_type@,
            ) {
                Some(ops) => r is Ok ==> final(self).bodies@[name@] == ops,
                None => true,
            },
            same_but_scopes(*final(comp), *old(comp)),
            r is Ok ==> final(comp).var_scopes() == old(comp).var_scopes(),
            r is Ok ==> final(self).str_count == old(self).str_count + block_strings(stmts_view(body@), 0),
            r is Ok ==> final(self).var_count == params@.len() + block_lets(stmts_view(body@), 0),
            r is Ok ==> block_translatable(
                stmts_view(body@),
                0,
                params_storage(storage_of(old(comp).var_scopes()).push(Map::empty()), params_view(params@)),
            ),
            !block_translatable(
                stmts_view(body@),
                0,
                params_storage(storage_of(old(comp).var_scopes()).push(Map::empty()), params_view(params@)),
            ) ==> r is Err,
    {
        clear_function(&mut self.ctx);
        self.var_count = 0;
        let func_id = match function_id(&self.module, name.as_str()) {
            Some(id) => id,
            None => return Err(CodegenError::FunctionNotDeclared(name.clone())),
        };
        proof {
            assert(module_funcs(self.module).dom().contains(name@));
        }
        let sig = declared_signature(&self.module, func_id);
        set_function_signature(&mut self.ctx, sig);
        let ptr_ty = pointer_type(&target_config(&self.module));
        self.builder_context = new_builder_context();
        let mut builder = new_function_builder(&mut self.ctx, &mut self.builder_context);
        let entry_block = create_block(&mut builder);
        append_function_params(&mut builder, entry_block);
        switch_to_block(&mut builder, entry_block);
        let ghost sc0 = comp.var_scopes();
        let ghost be = builder;
        let ghost pv = params_view(params@);
        proof {
            lemma_storage_push(sc0);
            assert(pv.take(0) =~= Seq::<(Seq<char>, CelesteType)>::empty());
            lemma_declared_push(sc0, Set::<u32>::empty());
        }
        comp.enter_scope();
        let mut i: usize = 0;
        while i < params.len()
            invariant
                i <= params@.len(),
                same_but_scopes(*comp, *old(comp)),
                sc0 == old(comp).var_scopes(),
                comp.var_scopes().len() == sc0.len() + 1,
                comp.var_scopes().drop_last() == sc0,
                self.var_count == i,
                self.str_count == old(self).str_count,
                pv == params_view(params@),
                storage_of(comp.var_scopes()) == params_storage(storage_of(sc0).push(Map::empty()), pv.take(i as int)),
                entry_block < u32::MAX,
                funcs_kept(self.module, old(self).module),
                fb_current(builder) == Some(entry_block),
                fb_blocks(builder) == fb_blocks(be),
                fb_filled(builder) == fb_filled(be),
                fb_sealed(builder) == Set::<u32>::empty(),
                fb_blocks(be) == Set::<u32>::empty().insert(entry_block),
                fb_filled(be) == Set::<u32>::empty(),
                vars_declared(comp.var_scopes(), fb_vars(builder)),
                fb_ops(builder) == Seq::<Op>::empty(),
                self.bodies == old(self).bodies,
                self.ends == old(self).ends,
                forall|x: u32| #[trigger] fb_vars(builder).contains(x) ==> x < i,
            decreases params@.len() - i,
        {
            let ty = kind_type(function_param_kind_of(&params[i].ty), type_i64(), ptr_ty);
            let var: u32 = self.var_count;
            self.var_count = match self.var_count.checked_add(1) {
                Some(n) => n,
                None => return Err(CodegenError::TooManyVariables),
            };
            let ghost vs0 = fb_vars(builder);
            if !declare_var(&mut builder, var, ty) {
                return Err(CodegenError::VariableRedeclared);
            }
            let p = match block_param(&builder, entry_block, i) {
                Some(v) => v,
                None => return Err(CodegenError::MissingParam),
            };
            if !def_var(&mut builder, var, p) {
                return Err(CodegenError::TypeMismatch(params[i].name.clone()));
            }
            let ghost before = comp.var_scopes();
            comp.add_variable(
                params[i].name.clone(),
                VariableInfo { cranelift_var: Some(var), var_type: params[i].ty.duplicate(), is_mutable: true, stack_slot: None },
            );
            proof {
                lemma_declared_add(before, vs0, fb_vars(builder), params@[i as int].name@, comp.var_scopes().last()[params@[i as int].name@]);
                assert(comp.var_scopes().drop_last() =~= before.drop_last());
                lemma_storage_add(before, params@[i as int].name@, comp.var_scopes().last()[params@[i as int].name@]);
                assert(pv.take(i + 1).drop_last() =~= pv.take(i as int));
                assert(pv.take(i + 1).last() == (params@[i as int].name@, params@[i as int].ty));
            }
            i = i + 1;
        }
        proof {
            assert(pv.take(params@.len() as int) =~= pv);
        }
        let ghost bb = builder;
        let ghost st_body = storage_of(comp.var_scopes());
        let terminated = match Self::translate_block(
            &mut builder,
            &mut self.module,
            &mut self.var_count,
            &mut self.str_count,
            body,
            comp,
            return_type,
        ) {
            Ok(t) => t,
            Err(e) => return Err(e),
        };
        let ghost ba = builder;
        proof {
            if body@.len() > 0 {
                assert(stmts_view(body@).last() == body@.last()@);
            }
        }
        let ghost rb = fb_current(ba)->0;
        if !terminated {
            let mut vals: Vec<u32> = Vec::new();
            let ghost mut zv: u32 = 0;
            if str_equal(return_type.as_str(), "int") {
                let z = ins_iconst(&mut builder, type_i64(), 0);
                vals.push(z);
                proof {
                    zv = z;
                    assert(fb_defs(builder)[z] == Def::Iconst(0));
                }
            }
            let ghost bz = builder;
            ins_return(&mut builder, vals.as_slice());
            proof {
                assert(fb_terms(builder).dom().contains(rb));
                assert(fb_terms(builder)[rb] == Term::Return(if vals@.len() == 0 { None } else { Some(vals@[0]) }));
                if return_type@ == "int"@ {
                    assert(vals@[0] == zv);
                    assert(fb_defs(bz).dom().contains(zv));
                    assert(fb_defs(builder).dom().contains(zv));
                    assert(fb_defs(builder)[zv] == Def::Iconst(0));
                } else {
                    assert(vals@.len() == 0);
                }
                assert(returns_default(fb_terms(builder), fb_defs(builder), return_type@));
            }
        }
        let ghost bt = builder;
        proof {
            assert(fb_ops(bt) =~= fb_ops(ba) + implicit_return(stmts_view(body@), return_type@));
            match function_ops(stmts_view(body@), st_body, return_type@) {
                Some(ops) => {
                    assert(fb_ops(ba) =~= block_ops(stmts_view(body@), 0, st_body)->0);
                    assert(fb_ops(bt) == ops);
                },
                None => {},
            }
        }
        seal_all_blocks(&mut builder);
        let ghost built = fb_ops(builder);
        let ghost ended = (fb_terms(builder), fb_defs(builder));
        proof {
            if !terminated {
                let c = choose|c: u32| #[trigger] fb_terms(bt).dom().contains(c) && if return_type@ == "int"@ {
                    &&& fb_terms(bt)[c] is Return
                    &&& fb_terms(bt)[c]->Return_0 is Some
                    &&& fb_defs(bt).dom().contains(fb_terms(bt)[c]->Return_0->0)
                    &&& fb_defs(bt)[fb_terms(bt)[c]->Return_0->0] == Def::Iconst(0)
                } else {
                    fb_terms(bt)[c] == Term::Return(None)
                };
                assert(fb_terms(builder).dom().contains(c));
                if return_type@ == "int"@ {
                    assert(fb_defs(builder).dom().contains(fb_terms(bt)[c]->Return_0->0));
                }
                assert(returns_default(ended.0, ended.1, return_type@));
            }
        }
        comp.exit_scope();
        proof {
            assert(comp.var_scopes() =~= sc0);
            let c1 = fb_current(bt)->0;
            assert(fb_filled(bt).contains(c1));
            assert forall|x: u32| #[trigger] fb_blocks(builder).contains(x) implies fb_filled(builder).contains(x) by {
                assert(fb_blocks(bt).contains(x));
                if x == entry_block {
                    assert(fb_blocks(bb).contains(x));
                } else {
                    assert(!fb_blocks(bb).contains(x));
                }
            }
        }
        finalize_builder(builder);
        match define_function(&mut self.module, func_id, &mut self.ctx) {
            Ok(()) => {},
            Err(e) => return Err(CodegenError::Module(e)),
        }
        proof {
            self.bodies@ = self.bodies@.insert(name@, built);
            self.ends@ = self.ends@.insert(name@, ended);
        }
        clear_context(&self.module, &mut self.ctx);
        Ok(())
    }

    /// Finishes the module and gives the bytes of the object file; `None`
    /// when Cranelift cannot write them.
    pub fn finalize(self) -> (r: Option<Vec<u8>>)
        ensures
            match r {
                Some(v) => self.object_file() == Some(v@),
                None => self.object_file() is None,
            },
    {
        emit_module(self.module)
    }

    /// Translates `expr` into instructions of the function being built and
    /// gives the value it computes. Each string literal becomes a data
    /// object of its own, named after `str_count`, which counts them.
    #[verifier::rlimit(40)]
    fn translate_expr<'b>(
        builder: &mut FunctionBuilder<'b>,
        module: &mut ObjectModule,
        str_count: &mut usize,
        expr: &Expr,
        comp: &Compiler,
    ) -> (r: Result<u32, CodegenError>)
        requires
            fb_ready(*old(builder)),
            vars_declared(comp.var_scopes(), fb_vars(*old(builder))),
        ensures
            funcs_kept(*final(module), *old(module)),
            fb_unchanged(*final(builder), *old(builder)),
            r matches Ok(v) ==> fb_values(*final(builder)).contains(v),
            r matches Ok(v) ==> computes(fb_defs(*final(builder)), v, expr@),
            r is Ok ==> translatable(expr@, storage_of(comp.var_scopes())),
            r is Ok ==> *final(str_count) == *old(str_count) + strings_in(expr@),
            !translatable(expr@, storage_of(comp.var_scopes())) ==> r is Err,
            translatable(expr@, storage_of(comp.var_scopes())) && module_free(expr@) ==> r is Ok,
            expr@ matches SpecExpr::Call { name, .. } ==> (!module_funcs(*old(module)).dom().contains(name) ==> r is Err),
            expr@ matches SpecExpr::Call { name, args } ==> (r is Ok ==> ends_with(
                fb_ops(*final(builder)),
                call_ops(args.len(), module_sigs(*old(module))[module_funcs(*old(module))[name]]),
            )),
            expr@ matches SpecExpr::StringLiteral(s) ==> (r is Ok ==> holds_string(*final(module), string_data_name(*old(str_count) as nat), s)),
            expr@ matches SpecExpr::ArrayLiteral(es) ==> (r is Ok ==> elems_stored(*final(builder), *old(builder), es, es.len() as int)),
            expr@ is StringLiteral ==> (r matches Ok(v) ==> fb_defs(*final(builder)).dom().contains(v)
                && fb_defs(*final(builder))[v] == Def::Symbol(module_data(*final(module))[string_data_name(*old(str_count) as nat)])),
            match expr_ops(expr@, storage_of(comp.var_scopes())) {
                Some(ops) => r is Ok ==> fb_ops(*final(builder)) == fb_ops(*old(builder)) + ops,
                None => true,
            },
        decreases expr,
    {
        let ghost sc = storage_of(comp.var_scopes());
        proof {
            if let SpecExpr::Variable(n) = expr@ {
                lemma_storage_lookup(comp.var_scopes(), n);
            }
            if let SpecExpr::AddressOf(inner) = expr@ {
                if let SpecExpr::Variable(n) = *inner {
                    lemma_storage_lookup(comp.var_scopes(), n);
                }
            }
        }
        match expr {
            Expr::Integer(n) => {
                let v = integer_value(*n);
                Ok(ins_iconst(builder, type_i64(), v))
            },
            Expr::Variable(name) => {
                let info = match comp.lookup_variable(name.as_str()) {
                    Some(info) => info,
                    None => return Err(CodegenError::UndefinedVariable(name.clone())),
                };
                proof {
                    lemma_lookup_declared(comp.var_scopes(), fb_vars(*builder), name@);
                }
                match &info.cranelift_var {
                    Some(var) => match use_var(builder, *var) {
                        Some(v) => Ok(v),
                        None => Err(CodegenError::NoVariable(name.clone())),
                    },
                    None => match &info.stack_slot {
                        Some(slot) => Ok(ins_stack_load(builder, type_i64(), *slot, 0)),
                        None => Err(CodegenError::NoStorage(name.clone())),
                    },
                }
            },
            Expr::Binary { op, lhs, rhs } => {
                let l = match Self::translate_expr(builder, module, str_count, lhs, comp) {
                    Ok(v) => v,
                    Err(e) => return Err(e),
                };
                let ghost d1 = fb_defs(*builder);
                let r = match Self::translate_expr(builder, module, str_count, rhs, comp) {
                    Ok(v) => v,
                    Err(e) => return Err(e),
                };
                let ghost d2 = fb_defs(*builder);
                let res = Self::binary_op(builder, *op, l, r);
                proof {
                    if let Ok(v) = res {
                        let d3 = fb_defs(*builder);
                        lemma_computes_mono(d1, d3, l, (**lhs)@);
                        lemma_computes_mono(d2, d3, r, (**rhs)@);
                    }
                }
                res
            },
            Expr::StringLiteral(s) => {
                let mut dc = new_data_description();
                let mut b: Vec<u8> = s.as_str().as_bytes_vec();
                b.push(0u8);
                let ghost bytes = b@;
                proof {
                    assert(bytes == encode_utf8(s@).push(0u8));
                }
                define_bytes(&mut dc, b);
                let name = data_name(*str_count);
                *str_count = match str_count.checked_add(1) {
                    Some(n) => n,
                    None => return Err(CodegenError::TooManyStrings),
                };
                let id = match declare_data(module, name.as_str()) {
                    Ok(id) => id,
                    Err(e) => return Err(CodegenError::Module(e)),
                };
                proof {
                    assert(module_data(*module).dom().contains(name@));
                }
                match define_data(module, id, &dc) {
                    Ok(()) => {},
                    Err(e) => return Err(CodegenError::Module(e)),
                }
                proof {
                    assert(module_data(*module).dom().contains(name@));
                    assert(module_data(*module)[name@] == id);
                    assert(module_data_bytes(*module)[id] == bytes);
                }
                let loc = declare_data_in_func(module, id, builder);
                let ptr_ty = pointer_type(&target_config(module));
                Ok(ins_symbol_value(builder, ptr_ty, loc))
            },
            Expr::Call { name, args } => {
                let fid = match function_id(module, name.as_str()) {
                    Some(id) => id,
                    None => return Err(CodegenError::FunctionNotDeclared(name.clone())),
                };
                proof {
                    assert(exprs_view(args@) == expr@->args);
                }
                let av = match Self::translate_all(builder, module, str_count, args, comp) {
                    Ok(av) => av,
                    Err(e) => return Err(e),
                };
                proof {
                    assert(module_funcs(*module).dom().contains(name@));
                }
                let base_sig = declared_signature(module, fid);
                let nparams = param_count(&base_sig);
                let no_result = returns_nothing(&base_sig);
                let ghost before_inst = fb_ops(*builder);
                let inst = if av.len() != nparams {
                    let mut dynamic_sig = clone_signature(&base_sig);
                    if av.len() > nparams {
                        let mut j: usize = nparams;
                        while j < av.len()
                            invariant
                                j <= av@.len(),
                                forall|k: int| 0 <= k < av@.len() ==> fb_values(*builder).contains(#[trigger] av@[k]),
                            decreases av@.len() - j,
                        {
                            let t = value_type(builder, av[j]);
                            push_param(&mut dynamic_sig, t);
                            j = j + 1;
                        }
                    }
                    let sig_ref = import_signature(builder, dynamic_sig);
                    let func_ref = declare_func_in_func(module, fid, builder);
                    let ptr_ty = pointer_type(&target_config(module));
                    let callee = ins_func_addr(builder, ptr_ty, func_ref);
                    let inst = ins_call_indirect(builder, sig_ref, callee, av.as_slice());
                    proof {
                        assert(fb_ops(*builder) =~= before_inst + seq![Op::FuncAddr, Op::CallIndirect]);
                    }
                    inst
                } else {
                    let lfunc = declare_func_in_func(module, fid, builder);
                    let inst = ins_call(builder, lfunc, av.as_slice());
                    proof {
                        assert(fb_ops(*builder) =~= before_inst + seq![Op::Call]);
                    }
                    inst
                };
                let ghost after_call = fb_ops(*builder);
                proof {
                    assert(module_funcs(*module)[name@] == fid);
                    let shape = module_sigs(*module)[fid];
                    let c = if av@.len() == shape.0 { seq![Op::Call] } else { seq![Op::FuncAddr, Op::CallIndirect] };
                    assert(shape.0 == nparams);
                    assert(after_call == before_inst + c);
                    assert(after_call.subrange(after_call.len() - c.len(), after_call.len() as int) =~= c);
                }
                if no_result {
                    let v = ins_iconst(builder, type_i64(), 0);
                    proof {
                        let shape = module_sigs(*module)[fid];
                        let c = if av@.len() == shape.0 { seq![Op::Call] } else { seq![Op::FuncAddr, Op::CallIndirect] };
                        assert(fb_ops(*builder) == after_call.push(Op::Iconst(0)));
                        assert(fb_ops(*builder).subrange(fb_ops(*builder).len() - (c.len() + 1), fb_ops(*builder).len() as int)
                            =~= c + seq![Op::Iconst(0)]);
                    }
                    Ok(v)
                } else {
                    match first_result(builder, inst) {
                        Some(v) => Ok(v),
                        None => Err(CodegenError::MissingResult),
                    }
                }
            },
            Expr::Unary { op, right } => {
                let val = match Self::translate_expr(builder, module, str_count, right, comp) {
                    Ok(v) => v,
                    Err(e) => return Err(e),
                };
                if *op == '!' {
                    let ghost d1 = fb_defs(*builder);
                    let v = Self::logical_not(builder, val);
                    proof {
                        lemma_computes_mono(d1, fb_defs(*builder), val, (**right)@);
                    }
                    Ok(v)
                } else {
                    Err(CodegenError::UnsupportedUnary(*op))
                }
            },
            Expr::AddressOf(inner) => {
                let ptr_ty = pointer_type(&target_config(module));
                match &**inner {
                    Expr::Variable(name) => {
                        proof {
                            assert((**inner)@ == SpecExpr::Variable(name@));
                            assert(expr@ == SpecExpr::AddressOf(Box::new((**inner)@)));
                            assert(strings_in(expr@) == strings_in((**inner)@));
                        }
                        let info = match comp.lookup_variable(name.as_str()) {
                            Some(info) => info,
                            None => return Err(CodegenError::UndefinedVariable(name.clone())),
                        };
                        match &info.stack_slot {
                            Some(slot) => Ok(ins_stack_addr(builder, ptr_ty, *slot, 0)),
                            None => Err(CodegenError::NoStackSlot(name.clone())),
                        }
                    },
                    Expr::Index { array, index } => {
                        proof {
                            assert((**inner)@ == SpecExpr::Index { array: Box::new((**array)@), index: Box::new((**index)@) });
                            assert(expr@ == SpecExpr::AddressOf(Box::new(SpecExpr::Index {
                                array: Box::new((**array)@),
                                index: Box::new((**index)@),
                            })));
                            assert(strings_in(expr@) == strings_in((**inner)@));
                            assert(strings_in((**inner)@) == strings_in((**array)@) + strings_in((**index)@));
                            assert(module_free(expr@) == module_free((**inner)@));
                            assert(module_free((**inner)@) == (module_free((**array)@) && module_free((**index)@)));
                        }
                        let base = match Self::translate_expr(builder, module, str_count, array, comp) {
                            Ok(v) => v,
                            Err(e) => return Err(e),
                        };
                        let ghost db = fb_defs(*builder);
                        let idx = match Self::translate_expr(builder, module, str_count, index, comp) {
                            Ok(v) => v,
                            Err(e) => return Err(e),
                        };
                        let ghost di = fb_defs(*builder);
                        let scale = ins_iconst(builder, ptr_ty, 8);
                        let offset = ins_imul(builder, idx, scale);
                        let addr = ins_iadd(builder, base, offset);
                        proof {
                            let d = fb_defs(*builder);
                            lemma_computes_mono(db, d, base, (**array)@);
                            lemma_computes_mono(di, d, idx, (**index)@);
                            assert(d.dom().contains(addr) && d.dom().contains(offset) && d.dom().contains(scale));
                            assert(d[offset] == Def::Imul(idx, scale));
                            assert(elem_addr(d, addr) == Some((base, idx)));
                        }
                        Ok(addr)
                    },
                    _ => Err(CodegenError::UnsupportedAddressOf),
                }
            },
            Expr::Deref(inner) => {
                let ptr_val = match Self::translate_expr(builder, module, str_count, inner, comp) {
                    Ok(v) => v,
                    Err(e) => return Err(e),
                };
                let ghost dp = fb_defs(*builder);
                let ptr_ty = pointer_type(&target_config(module));
                let cl_ty = match comp.get_expr_type(inner) {
                    CelesteType::Pointer(base) => kind_type(value_kind_of(&base), type_i64(), ptr_ty),
                    _ => type_i64(),
                };
                let v = ins_load(builder, cl_ty, plain_mem_flags(), ptr_val, 0);
                proof {
                    lemma_computes_mono(dp, fb_defs(*builder), ptr_val, (**inner)@);
                }
                Ok(v)
            },
            Expr::Index { array, index } => {
                let ptr_ty = pointer_type(&target_config(module));
                let base = match Self::translate_expr(builder, module, str_count, array, comp) {
                    Ok(v) => v,
                    Err(e) => return Err(e),
                };
                let ghost db = fb_defs(*builder);
                let idx = match Self::translate_expr(builder, module, str_count, index, comp) {
                    Ok(v) => v,
                    Err(e) => return Err(e),
                };
                let ghost di = fb_defs(*builder);
                let inner_ty = match comp.get_expr_type(array) {
                    CelesteType::Array(inner) => *inner,
                    CelesteType::Pointer(inner) => *inner,
                    _ => CelesteType::Int,
                };
                let scale = ins_iconst(builder, ptr_ty, 8);
                let offset = ins_imul(builder, idx, scale);
                let addr = ins_iadd(builder, base, offset);
                let cl_ty = kind_type(value_kind_of(&inner_ty), type_i64(), ptr_ty);
                let v = ins_load(builder, cl_ty, plain_mem_flags(), addr, 0);
                proof {
                    let d = fb_defs(*builder);
                    lemma_computes_mono(db, d, base, array@);
                    lemma_computes_mono(di, d, idx, index@);
                    assert(d.dom().contains(addr) && d.dom().contains(offset) && d.dom().contains(scale));
                    assert(d[addr] == Def::Iadd(base, offset));
                    assert(d[offset] == Def::Imul(idx, scale));
                    assert(elem_addr(d, addr) == Some((base, idx)));
                    assert(load_addr(d, v) == Some(addr));
                }
                Ok(v)
            },
            Expr::ArrayLiteral(elements) => {
                let ptr_ty = pointer_type(&target_config(module));
                let total_size = match array_slot_size(elements.len()) {
                    Some(s) => s,
                    None => return Err(CodegenError::ArrayTooLarge),
                };
                let slot = create_stack_slot(builder, explicit_slot(total_size));
                proof {
                    assert(exprs_view(elements@) == expr@->ArrayLiteral_0);
                }
                let ghost be = *builder;
                match Self::store_elements(builder, module, str_count, elements, slot, comp) {
                    Ok(()) => {},
                    Err(e) => return Err(e),
                }
                let ghost bs = *builder;
                let v = ins_stack_addr(builder, ptr_ty, slot, 0);
                proof {
                    lemma_elems_stored_mono(bs, *builder, be, exprs_view(elements@), elements@.len() as int);
                    assert(fb_ops(be).len() >= fb_ops(*old(builder)).len());
                    let es = exprs_view(elements@);
                    assert forall|i: int| 0 <= i < es.len() implies #[trigger] elem_stored_after(*builder, *old(builder), i, es[i]) by {
                        assert(elem_stored_after(*builder, be, i, es[i]));
                        let k = choose|k: nat| k >= fb_ops(be).len() && #[trigger] elem_stored(*builder, k, i, es[i]);
                    }
                }
                Ok(v)
            },
        }
    }

    /// Translates the statements `stmts` in order into the current block
    /// and scope; `Ok(true)` when the last of them is a `return`.
    #[verifier::rlimit(40)]
    fn translate_block<'b>(
        builder: &mut FunctionBuilder<'b>,
        module: &mut ObjectModule,
        var_count: &mut u32,
        str_count: &mut usize,
        stmts: &Vec<Stmt>,
        comp: &mut Compiler,
        return_type: &String,
    ) -> (r: Result<bool, CodegenError>)
        requires
            old(comp).var_scopes().len() > 0,
            fb_ready(*old(builder)),
            fb_sealed(*old(builder)) == Set::<u32>::empty(),
            vars_declared(old(comp).var_scopes(), fb_vars(*old(builder))),
        ensures
            funcs_kept(*final(module), *old(module)),
            same_but_scopes(*final(comp), *old(comp)),
            r is Ok ==> advanced(*old(builder), *final(builder)),
            r matches Ok(t) ==> (t ==> fb_filled(*final(builder)).contains(fb_current(*final(builder))->0)),
            r matches Ok(t) ==> (!t ==> fb_ready(*final(builder))),
            r is Ok ==> vars_declared(final(comp).var_scopes(), fb_vars(*final(builder))),
            r matches Ok(t) ==> t == (stmts@.len() > 0 && stmts@.last()@ is Return),
            r is Ok ==> *final(var_count) == *old(var_count) + block_lets(stmts_view(stmts@), 0),
            r is Ok ==> *final(str_count) == *old(str_count) + block_strings(stmts_view(stmts@), 0),
            r is Ok ==> final(comp).var_scopes().len() == old(comp).var_scopes().len(),
            r is Ok ==> final(comp).var_scopes().drop_last() == old(comp).var_scopes().drop_last(),
            r is Ok ==> block_translatable(stmts_view(stmts@), 0, storage_of(old(comp).var_scopes())),
            r is Ok ==> storage_of(final(comp).var_scopes()) == block_storage(stmts_view(stmts@), 0, storage_of(old(comp).var_scopes())),
            !block_translatable(stmts_view(stmts@), 0, storage_of(old(comp).var_scopes())) ==> r is Err,
            block_translatable(stmts_view(stmts@), 0, storage_of(old(comp).var_scopes()))
                && block_module_free(stmts_view(stmts@), 0) ==> r is Ok,
            match block_ops(stmts_view(stmts@), 0, storage_of(old(comp).var_scopes())) {
                Some(ops) => r is Ok ==> fb_ops(*final(builder)) == fb_ops(*old(builder)) + ops,
                None => true,
            },
        decreases stmts, 0nat,
    {
        let ghost ss = stmts_view(stmts@);
        let ghost v0 = *var_count;
        let ghost s0 = *str_count;
        let ghost outer = comp.var_scopes().drop_last();
        let ghost depth = comp.var_scopes().len();
        let ghost st0 = storage_of(comp.var_scopes());
        let ghost b0 = *builder;
        proof {
            lemma_advanced_refl(b0);
        }
        let mut terminated = false;
        let mut i: usize = 0;
        while i < stmts.len()
            invariant
                funcs_kept(*module, *old(module)),
                b0 == *old(builder),
                fb_ready(b0),
                fb_sealed(b0) == Set::<u32>::empty(),
                advanced(b0, *builder),
                terminated ==> fb_filled(*builder).contains(fb_current(*builder)->0),
                !terminated ==> fb_ready(*builder),
                vars_declared(comp.var_scopes(), fb_vars(*builder)),
                ss == stmts_view(stmts@),
                i <= stmts@.len(),
                same_but_scopes(*comp, *old(comp)),
                depth == old(comp).var_scopes().len(),
                outer == old(comp).var_scopes().drop_last(),
                depth > 0,
                comp.var_scopes().len() == depth,
                comp.var_scopes().drop_last() == outer,
                terminated == (i > 0 && stmts@[i - 1]@ is Return),
                *var_count + block_lets(ss, i as int) == v0 + block_lets(ss, 0),
                *str_count + block_strings(ss, i as int) == s0 + block_strings(ss, 0),
                st0 == storage_of(old(comp).var_scopes()),
                block_translatable(ss, 0, st0) == block_translatable(ss, i as int, storage_of(comp.var_scopes())),
                block_storage(ss, 0, st0) == block_storage(ss, i as int, storage_of(comp.var_scopes())),
                block_translatable(ss, 0, st0) && block_module_free(ss, 0) ==> block_module_free(ss, i as int)
                    && (terminated ==> i == ss.len()),
                match block_ops(ss, 0, st0) {
                    Some(all) => block_ops(ss, i as int, storage_of(comp.var_scopes())) is Some
                        && fb_ops(b0) + all == fb_ops(*builder) + block_ops(ss, i as int, storage_of(comp.var_scopes()))->0,
                    None => true,
                },
            decreases stmts@.len() - i,
        {
            assert(ss[i as int] == stmts@[i as int]@);
            if terminated {
                return Err(CodegenError::CodeAfterReturn);
            }
            let ghost before = comp.var_scopes();
            let ghost bb = *builder;
            let ghost ops_before = fb_ops(*builder);
            terminated = match Self::translate_stmt(builder, module, var_count, str_count, &stmts[i], comp, return_type) {
                Ok(t) => t,
                Err(e) => return Err(e),
            };
            proof {
                lemma_advanced_trans(b0, bb, *builder);
                lemma_scopes_after_storage(ss[i as int], before, comp.var_scopes());
                if let Some(all) = block_ops(ss, 0, st0) {
                    let a = stmt_ops(ss[i as int], storage_of(before))->0;
                    let rest = block_ops(ss, i + 1, storage_of(comp.var_scopes()))->0;
                    assert(block_ops(ss, i as int, storage_of(before))->0 == a + rest);
                    assert(ops_before + (a + rest) =~= (ops_before + a) + rest);
                }
                if ss[i as int] is Let {
                    let info = choose|info: VariableInfo|
                        let_binding(info) && comp.var_scopes() == #[trigger] maps_add(before, ss[i as int]->Let_name, info);
                    assert(comp.var_scopes().drop_last() =~= before.drop_last());
                }
            }
            i = i + 1;
        }
        Ok(terminated)
    }

    /// Translates the `else if` branches of an `if`: each tests its
    /// condition in the block `next`, and its body runs in a scope of its
    /// own and jumps to `exit` unless it returns. Gives the block in which
    /// the test of whatever follows is emitted.
    #[verifier::rlimit(40)]
    fn translate_else_ifs<'b>(
        builder: &mut FunctionBuilder<'b>,
        module: &mut ObjectModule,
        var_count: &mut u32,
        str_count: &mut usize,
        else_ifs: &Vec<(Expr, Vec<Stmt>)>,
        next: u32,
        exit: u32,
        comp: &mut Compiler,
        return_type: &String,
    ) -> (r: Result<u32, CodegenError>)
        requires
            fb_current(*old(builder)) matches Some(c) && fb_blocks(*old(builder)).contains(c)
                && fb_filled(*old(builder)).contains(c),
            fb_blocks(*old(builder)).contains(next),
            !fb_filled(*old(builder)).contains(next),
            next < u32::MAX,
            fb_blocks(*old(builder)).contains(exit),
            !fb_filled(*old(builder)).contains(exit),
            exit < u32::MAX,
            next != exit,
            fb_sealed(*old(builder)) == Set::<u32>::empty(),
            vars_declared(old(comp).var_scopes(), fb_vars(*old(builder))),
        ensures
            funcs_kept(*final(module), *old(module)),
            same_but_scopes(*final(comp), *old(comp)),
            r matches Ok(last) ==> branched(*old(builder), *final(builder), next, last) && last != exit,
            r is Ok ==> vars_declared(final(comp).var_scopes(), fb_vars(*final(builder))),
            r is Ok ==> *final(var_count) == *old(var_count) + else_if_lets(else_ifs_view(else_ifs@), 0),
            r is Ok ==> *final(str_count) == *old(str_count) + else_if_strings(else_ifs_view(else_ifs@), 0),
            r is Ok ==> final(comp).var_scopes() == old(comp).var_scopes(),
            r is Ok ==> else_ifs_translatable(else_ifs_view(else_ifs@), 0, storage_of(old(comp).var_scopes())),
            !else_ifs_translatable(else_ifs_view(else_ifs@), 0, storage_of(old(comp).var_scopes())) ==> r is Err,
            else_ifs_translatable(else_ifs_view(else_ifs@), 0, storage_of(old(comp).var_scopes()))
                && else_ifs_module_free(else_ifs_view(else_ifs@), 0) ==> r is Ok,
            match else_ifs_ops(else_ifs_view(else_ifs@), 0, storage_of(old(comp).var_scopes())) {
                Some(ops) => r is Ok ==> fb_ops(*final(builder)) == fb_ops(*old(builder)) + ops,
                None => true,
            },
        decreases else_ifs, 1nat,
    {
        let ghost eis = else_ifs_view(else_ifs@);
        let ghost v0 = *var_count;
        let ghost s0 = *str_count;
        let ghost sc0 = comp.var_scopes();
        let ghost b0 = *builder;
        let mut next_block = next;
        let mut j: usize = 0;
        while j < else_ifs.len()
            invariant
                funcs_kept(*module, *old(module)),
                b0 == *old(builder),
                fb_blocks(b0).contains(next),
                fb_blocks(b0).contains(exit),
                !fb_filled(b0).contains(exit),
                exit < u32::MAX,
                next != exit,
                next_block != exit,
                fb_sealed(b0) == Set::<u32>::empty(),
                branched(b0, *builder, next, next_block),
                vars_declared(sc0, fb_vars(*builder)),
                eis == else_ifs_view(else_ifs@),
                j <= else_ifs@.len(),
                same_but_scopes(*comp, *old(comp)),
                sc0 == old(comp).var_scopes(),
                comp.var_scopes() == sc0,
                *var_count + else_if_lets(eis, j as int) == v0 + else_if_lets(eis, 0),
                *str_count + else_if_strings(eis, j as int) == s0 + else_if_strings(eis, 0),
                else_ifs_translatable(eis, 0, storage_of(sc0)) == else_ifs_translatable(eis, j as int, storage_of(sc0)),
                else_ifs_translatable(eis, 0, storage_of(sc0)) && else_ifs_module_free(eis, 0) ==> else_ifs_module_free(eis, j as int),
                match else_ifs_ops(eis, 0, storage_of(sc0)) {
                    Some(all) => else_ifs_ops(eis, j as int, storage_of(sc0)) is Some
                        && fb_ops(b0) + all == fb_ops(*builder) + else_ifs_ops(eis, j as int, storage_of(sc0))->0,
                    None => true,
                },
            decreases else_ifs@.len() - j,
        {
            let (ei_cond, ei_body) = &else_ifs[j];
            proof {
                assert(eis[j as int].0 == ei_cond@);
                assert(eis[j as int].1 == stmts_view(ei_body@));
                assert(decreases_to!(else_ifs => else_ifs@[j as int].1));
            }
            let ghost bs = *builder;
            let ghost ops_s = fb_ops(*builder);
            let nb = next_block;
            switch_to_block(builder, nb);
            let ei_then = create_block(builder);
            let nn = create_block(builder);
            let c = match Self::translate_expr(builder, module, str_count, ei_cond, comp) {
                Ok(v) => v,
                Err(e) => return Err(e),
            };
            ins_brif(builder, c, ei_then, nn);
            switch_to_block(builder, ei_then);
            proof {
                lemma_storage_push(sc0);
                lemma_declared_push(sc0, fb_vars(*builder));
            }
            let ghost b2 = *builder;
            comp.enter_scope();
            let ei_terminated = match Self::translate_block(builder, module, var_count, str_count, ei_body, comp, return_type) {
                Ok(t) => t,
                Err(e) => return Err(e),
            };
            let ghost b3 = *builder;
            proof {
                lemma_declared_push(comp.var_scopes(), fb_vars(*builder));
            }
            comp.exit_scope();
            if !ei_terminated {
                ins_jump(builder, exit);
            }
            proof {
                assert(comp.var_scopes() =~= sc0);
                lemma_declared_mono(sc0, fb_vars(bs), fb_vars(*builder));
                let c3 = fb_current(b3)->0;
                assert(fb_filled(*builder).contains(c3));
                assert(fb_filled(b2).contains(nb));
                assert forall|x: u32| #[trigger] fb_blocks(b0).contains(x) && x != next implies (fb_filled(*builder).contains(x) == fb_filled(b0).contains(x)) by {
                    assert(fb_blocks(bs).contains(x));
                    assert(fb_blocks(b2).contains(x));
                    assert(x != ei_then);
                    assert(fb_filled(b2).contains(x) == fb_filled(bs).contains(x) || x == nb);
                }
                assert forall|x: u32| #[trigger] fb_blocks(*builder).contains(x) && !fb_blocks(b0).contains(x) && x != nn implies fb_filled(*builder).contains(x) by {
                    if fb_blocks(b2).contains(x) {
                        if x == ei_then {
                            assert(c3 == ei_then || fb_filled(b3).contains(ei_then));
                        } else if x == nb {
                            assert(fb_filled(b3).contains(nb));
                        } else {
                            assert(fb_blocks(bs).contains(x));
                            assert(fb_filled(b3).contains(x) == fb_filled(b2).contains(x));
                        }
                    } else if x != c3 {
                        assert(fb_filled(b3).contains(x));
                    }
                }
            }
            proof {
                if let Some(all) = else_ifs_ops(eis, 0, storage_of(sc0)) {
                    let c = expr_ops(eis[j as int].0, storage_of(sc0))->0;
                    let bo = block_ops(eis[j as int].1, 0, storage_of(sc0).push(Map::empty()))->0;
                    let rest = else_ifs_ops(eis, j + 1, storage_of(sc0))->0;
                    assert(else_ifs_ops(eis, j as int, storage_of(sc0))->0 == c + seq![Op::Brif] + bo + exit_jump(eis[j as int].1) + rest);
                    assert(fb_ops(*builder) == ops_s + c + seq![Op::Brif] + bo + exit_jump(eis[j as int].1));
                    assert(ops_s + (c + seq![Op::Brif] + bo + exit_jump(eis[j as int].1) + rest)
                        =~= (ops_s + c + seq![Op::Brif] + bo + exit_jump(eis[j as int].1)) + rest);
                }
                assert(!fb_filled(b2).contains(nn));
                assert(fb_blocks(b2).contains(nn));
                assert(!fb_filled(b3).contains(nn));
                assert(fb_blocks(bs).contains(next));
                assert(fb_blocks(b2).contains(next));
                assert(fb_filled(b2).contains(next));
                assert(fb_filled(b3).contains(next));
                lemma_branched_intro(b0, *builder, next, nn);
            }
            next_block = nn;
            j = j + 1;
        }
        Ok(next_block)
    }

    /// Translates one statement into the function being built; `Ok(true)`
    /// when it is a `return`, after which the block is terminated.
    /// Translates an `if` statement; see [`Self::translate_stmt`].
    #[verifier::rlimit(100)]
    #[verifier::spinoff_prover]
    fn translate_if<'b>(
        builder: &mut FunctionBuilder<'b>,
        module: &mut ObjectModule,
        var_count: &mut u32,
        str_count: &mut usize,
        stmt: &Stmt,
        comp: &mut Compiler,
        return_type: &String,
    ) -> (r: Result<bool, CodegenError>)
        requires
            stmt@ is If,
            fb_ready(*old(builder)),
            fb_sealed(*old(builder)) == Set::<u32>::empty(),
            vars_declared(old(comp).var_scopes(), fb_vars(*old(builder))),
        ensures
            funcs_kept(*final(module), *old(module)),
            same_but_scopes(*final(comp), *old(comp)),
            r is Ok ==> advanced(*old(builder), *final(builder)),
            r matches Ok(t) ==> (t ==> fb_filled(*final(builder)).contains(fb_current(*final(builder))->0)),
            r matches Ok(t) ==> (!t ==> fb_ready(*final(builder))),
            r is Ok ==> vars_declared(final(comp).var_scopes(), fb_vars(*final(builder))),
            r matches Ok(t) ==> t == (stmt@ is Return),
            r is Ok ==> *final(var_count) == *old(var_count) + stmt_lets(stmt@),
            r is Ok ==> *final(str_count) == *old(str_count) + stmt_strings(stmt@),
            r is Ok ==> scopes_after(stmt@, old(comp).var_scopes(), final(comp).var_scopes()),
            r is Ok && stmt@ is Let ==> exists|info: VariableInfo|
                let_binding(info) && info.cranelift_var == Some(*old(var_count))
                    && final(comp).var_scopes() == #[trigger] maps_add(old(comp).var_scopes(), stmt@->Let_name, info),
            r is Ok ==> stmt_translatable(stmt@, storage_of(old(comp).var_scopes())),
            !stmt_translatable(stmt@, storage_of(old(comp).var_scopes())) ==> r is Err,
            stmt_translatable(stmt@, storage_of(old(comp).var_scopes())) && stmt_module_free(stmt@) ==> r is Ok,
            match stmt_ops(stmt@, storage_of(old(comp).var_scopes())) {
                Some(ops) => r is Ok ==> fb_ops(*final(builder)) == fb_ops(*old(builder)) + ops,
                None => true,
            },
            r is Ok ==> if_shape(*final(builder), *old(builder), stmt@->If_condition),
        decreases stmt, 0nat,
    {
        proof {
            lemma_advanced_refl(*builder);
        }
        match stmt {
            Stmt::If { condition, then_block, else_ifs, else_block, .. } => {
                proof {
                    assert(stmt@->If_then_block =~= stmts_view(then_block@));
                    assert forall|j: int| 0 <= j < else_ifs@.len() implies #[trigger] stmt@->If_else_ifs[j] == else_ifs_view(else_ifs@)[j] by {
                        assert(stmt@->If_else_ifs[j].1 =~= stmts_view(else_ifs@[j].1@));
                    }
                    assert(stmt@->If_else_ifs =~= else_ifs_view(else_ifs@));
                    if let Some(b) = else_block {
                        assert(stmt@->If_else_block->0 =~= stmts_view(b@));
                    }
                }
                let ghost sc0 = comp.var_scopes();
                let ghost b0 = *builder;
                let ghost c0 = fb_current(b0)->0;
                proof {
                    lemma_storage_push(sc0);
                }
                let exit_block = create_block(builder);
                let next_conditional_block = create_block(builder);
                let cond_val = match Self::translate_expr(builder, module, str_count, condition, comp) {
                    Ok(v) => v,
                    Err(e) => return Err(e),
                };
                let ghost bt = *builder;
                let then_entry = create_block(builder);
                let ghost bc = *builder;
                ins_brif(builder, cond_val, then_entry, next_conditional_block);
                let ghost bb = *builder;
                switch_to_block(builder, then_entry);
                let ghost bs = *builder;
                proof {
                    assert(fb_current(bc)->0 == c0);
                    assert(fb_term_at(bb)[c0] == fb_ops(bc).len());
                    assert(fb_entries(bs)[fb_term_at(bb)[c0] + 1] == then_entry);
                    assert(stmt@->If_condition == condition@);
                }
                proof {
                    lemma_declared_push(sc0, fb_vars(*builder));
                }
                let ghost b1 = *builder;
                comp.enter_scope();
                let then_terminated = match Self::translate_block(builder, module, var_count, str_count, then_block, comp, return_type) {
                    Ok(t) => t,
                    Err(e) => return Err(e),
                };
                let ghost b2 = *builder;
                proof {
                    lemma_declared_push(comp.var_scopes(), fb_vars(*builder));
                }
                comp.exit_scope();
                proof {
                    assert(comp.var_scopes() =~= sc0);
                }
                if !then_terminated {
                    ins_jump(builder, exit_block);
                }
                let ghost b3 = *builder;
                proof {
                    lemma_declared_mono(sc0, fb_vars(b0), fb_vars(b3));
                    assert(fb_blocks(b1).contains(next_conditional_block));
                    assert(fb_blocks(b1).contains(exit_block));
                }
                let last_block = match Self::translate_else_ifs(
                    builder, module, var_count, str_count, else_ifs, next_conditional_block, exit_block, comp, return_type,
                ) {
                    Ok(b) => b,
                    Err(e) => return Err(e),
                };
                let ghost b4 = *builder;
                switch_to_block(builder, last_block);
                let ghost b5 = *builder;
                match else_block {
                    Some(eb) => {
                        proof {
                            lemma_declared_push(sc0, fb_vars(*builder));
                        }
                        comp.enter_scope();
                        let else_terminated = match Self::translate_block(builder, module, var_count, str_count, eb, comp, return_type) {
                            Ok(t) => t,
                            Err(e) => return Err(e),
                        };
                        proof {
                            lemma_declared_push(comp.var_scopes(), fb_vars(*builder));
                        }
                        comp.exit_scope();
                        proof {
                            assert(comp.var_scopes() =~= sc0);
                            assert(fb_blocks(b5).contains(exit_block));
                        }
                        if !else_terminated {
                            ins_jump(builder, exit_block);
                        }
                    },
                    None => {
                        ins_jump(builder, exit_block);
                    },
                }
                let ghost b6 = *builder;
                proof {
                    let c2 = fb_current(b2)->0;
                    let c6 = fb_current(b6)->0;
                    assert(fb_filled(b6).contains(c6));
                    assert(c6 == last_block || !fb_blocks(b5).contains(c6));
                    assert(!fb_filled(b6).contains(exit_block));
                }
                switch_to_block(builder, exit_block);
                proof {
                    let z = *builder;
                    let k = fb_term_at(bb)[c0] + 1;
                    assert(fb_grown(b2, b1));
                    assert(fb_grown(b4, b3));
                    assert(fb_grown(b6, b5));
                    assert(fb_grown(z, b6));
                    assert(fb_terms(bb).dom().contains(c0));
                    assert(fb_term_at(bb).dom().contains(c0));
                    assert(fb_entries(bs).dom().contains(k));
                    assert(fb_terms(b1).dom().contains(c0) && fb_term_at(b1).dom().contains(c0) && fb_entries(b1).dom().contains(k));
                    assert(fb_terms(b2).dom().contains(c0) && fb_term_at(b2).dom().contains(c0) && fb_entries(b2).dom().contains(k));
                    assert(fb_terms(b3).dom().contains(c0) && fb_term_at(b3).dom().contains(c0) && fb_entries(b3).dom().contains(k));
                    assert(fb_terms(b4).dom().contains(c0) && fb_term_at(b4).dom().contains(c0) && fb_entries(b4).dom().contains(k));
                    assert(fb_terms(b5).dom().contains(c0) && fb_term_at(b5).dom().contains(c0) && fb_entries(b5).dom().contains(k));
                    assert(fb_terms(b6).dom().contains(c0) && fb_term_at(b6).dom().contains(c0) && fb_entries(b6).dom().contains(k));
                    assert(fb_terms(z).dom().contains(c0) && fb_term_at(z).dom().contains(c0) && fb_entries(z).dom().contains(k));
                    assert(fb_terms(z)[c0] == Term::Brif(cond_val, then_entry, next_conditional_block));
                    assert(fb_term_at(z)[c0] == fb_term_at(bb)[c0]);
                    assert(fb_entries(z)[k] == then_entry);
                    assert(fb_defs(bt).submap_of(fb_defs(z)));
                    lemma_computes_mono(fb_defs(bt), fb_defs(z), cond_val, condition@);
                    assert(if_built(z, b0, stmt@->If_condition, cond_val, then_entry, next_conditional_block));
                }
                proof {
                    let c2 = fb_current(b2)->0;
                    let c6 = fb_current(b6)->0;
                    assert(fb_filled(b2).contains(c2) || fb_filled(b3).contains(c2));
                    assert forall|x: u32| #[trigger] fb_blocks(b0).contains(x) && x != c0 implies (fb_filled(*builder).contains(x) == fb_filled(b0).contains(x)) by {
                        assert(fb_blocks(b1).contains(x));
                        assert(fb_blocks(b3).contains(x));
                        assert(fb_blocks(b5).contains(x));
                    }
                    assert forall|x: u32| #[trigger] fb_blocks(*builder).contains(x) && !fb_blocks(b0).contains(x) && x != exit_block implies fb_filled(*builder).contains(x) by {
                        if fb_blocks(b5).contains(x) {
                            if fb_blocks(b3).contains(x) {
                                if x == next_conditional_block {
                                    assert(last_block != next_conditional_block ==> fb_filled(b4).contains(x));
                                } else if x == then_entry {
                                    assert(c2 == then_entry || fb_filled(b2).contains(then_entry));
                                    assert(fb_filled(b3).contains(then_entry));
                                } else if fb_blocks(b1).contains(x) {
                                    assert(false);
                                } else {
                                    assert(x == c2 || fb_filled(b2).contains(x));
                                    assert(fb_filled(b3).contains(x));
                                }
                                assert(x == last_block || fb_filled(b4).contains(x));
                            }
                            assert(x == last_block || fb_filled(b5).contains(x));
                        }
                        assert(fb_filled(b6).contains(x));
                    }
                    assert(fb_filled(b1).contains(c0));
                    assert(fb_blocks(b1).contains(c0));
                    assert(fb_filled(b2).contains(c0));
                    assert(fb_filled(b3).contains(c0));
                    assert(fb_blocks(b3).contains(c0));
                    assert(fb_filled(b4).contains(c0));
                    assert(fb_blocks(b5).contains(c0));
                    assert(fb_filled(b6).contains(c0));
                    lemma_advanced_intro(b0, *builder);
                    lemma_declared_mono(sc0, fb_vars(b0), fb_vars(*builder));
                    assert(scopes_after(stmt@, sc0, comp.var_scopes()));
                }
                Ok(false)
            },
            _ => {
                proof {
                    assert(false);
                }
                Ok(false)
            },
        }
    }

    /// Translates an `for` statement; see [`Self::translate_stmt`].
    #[verifier::rlimit(100)]
    fn translate_for<'b>(
        builder: &mut FunctionBuilder<'b>,
        module: &mut ObjectModule,
        var_count: &mut u32,
        str_count: &mut usize,
        stmt: &Stmt,
        comp: &mut Compiler,
        return_type: &String,
    ) -> (r: Result<bool, CodegenError>)
        requires
            stmt@ is For,
            fb_ready(*old(builder)),
            fb_sealed(*old(builder)) == Set::<u32>::empty(),
            vars_declared(old(comp).var_scopes(), fb_vars(*old(builder))),
        ensures
            funcs_kept(*final(module), *old(module)),
            same_but_scopes(*final(comp), *old(comp)),
            r is Ok ==> advanced(*old(builder), *final(builder)),
            r matches Ok(t) ==> (t ==> fb_filled(*final(builder)).contains(fb_current(*final(builder))->0)),
            r matches Ok(t) ==> (!t ==> fb_ready(*final(builder))),
            r is Ok ==> vars_declared(final(comp).var_scopes(), fb_vars(*final(builder))),
            r matches Ok(t) ==> t == (stmt@ is Return),
            r is Ok ==> *final(var_count) == *old(var_count) + stmt_lets(stmt@),
            r is Ok ==> *final(str_count) == *old(str_count) + stmt_strings(stmt@),
            r is Ok ==> scopes_after(stmt@, old(comp).var_scopes(), final(comp).var_scopes()),
            r is Ok && stmt@ is Let ==> exists|info: VariableInfo|
                let_binding(info) && info.cranelift_var == Some(*old(var_count))
                    && final(comp).var_scopes() == #[trigger] maps_add(old(comp).var_scopes(), stmt@->Let_name, info),
            r is Ok ==> stmt_translatable(stmt@, storage_of(old(comp).var_scopes())),
            !stmt_translatable(stmt@, storage_of(old(comp).var_scopes())) ==> r is Err,
            stmt_translatable(stmt@, storage_of(old(comp).var_scopes())) && stmt_module_free(stmt@) ==> r is Ok,
            match stmt_ops(stmt@, storage_of(old(comp).var_scopes())) {
                Some(ops) => r is Ok ==> fb_ops(*final(builder)) == fb_ops(*old(builder)) + ops,
                None => true,
            },
            r is Ok ==> loop_shape(*final(builder), *old(builder), stmt@->For_condition),
        decreases stmt, 0nat,
    {
        proof {
            lemma_advanced_refl(*builder);
        }
        match stmt {
            Stmt::For { init, condition, post, body } => {
                proof {
                    assert(stmt@->For_body =~= stmts_view(body@));
                }
                let ghost sc0 = comp.var_scopes();
                let ghost b0 = *builder;
                let ghost c0 = fb_current(b0)->0;
                proof {
                    lemma_storage_push(sc0);
                    lemma_declared_push(sc0, fb_vars(b0));
                    lemma_advanced_refl(b0);
                }
                comp.enter_scope();
                proof {
                    assert(comp.var_scopes().drop_last() =~= sc0);
                }
                match init {
                    Some(i) => {
                        let ghost before = comp.var_scopes();
                        let ghost bb = *builder;
                        match Self::translate_stmt(builder, module, var_count, str_count, i, comp, return_type) {
                            Ok(t) => {
                                if t {
                                    return Err(CodegenError::CodeAfterReturn);
                                }
                            },
                            Err(e) => return Err(e),
                        }
                        proof {
                            assert(stmt@->For_init == Some(Box::new((**i)@)));
                            lemma_scopes_after_storage((**i)@, before, comp.var_scopes());
                            if (**i)@ is Let {
                                assert(comp.var_scopes().drop_last() =~= before.drop_last());
                            }
                        }
                    },
                    None => {},
                }
                let ghost b1 = *builder;
                let header = create_block(builder);
                let body_blk = create_block(builder);
                let exit_blk = create_block(builder);
                ins_jump(builder, header);
                let ghost bj = *builder;
                switch_to_block(builder, header);
                let ghost cvg: u32 = 0;
                let ghost dt = Map::<u32, Def>::empty();
                match condition {
                    Some(cond) => {
                        let c = match Self::translate_expr(builder, module, str_count, cond, comp) {
                            Ok(v) => v,
                            Err(e) => return Err(e),
                        };
                        proof {
                            cvg = c;
                            dt = fb_defs(*builder);
                            assert(stmt@->For_condition == Some(cond@));
                        }
                        ins_brif(builder, c, body_blk, exit_blk);
                    },
                    None => {
                        ins_jump(builder, body_blk);
                    },
                }
                let ghost bh = *builder;
                switch_to_block(builder, body_blk);
                let ghost b2 = *builder;
                proof {
                    lemma_declared_mono(comp.var_scopes(), fb_vars(b1), fb_vars(b2));
                }
                match Self::translate_block(builder, module, var_count, str_count, body, comp, return_type) {
                    Ok(t) => {
                        if t {
                            return Err(CodegenError::CodeAfterReturn);
                        }
                    },
                    Err(e) => return Err(e),
                }
                let ghost b3 = *builder;
                match post {
                    Some(p) => {
                        let ghost before = comp.var_scopes();
                        match Self::translate_stmt(builder, module, var_count, str_count, p, comp, return_type) {
                            Ok(t) => {
                                if t {
                                    return Err(CodegenError::CodeAfterReturn);
                                }
                            },
                            Err(e) => return Err(e),
                        }
                        proof {
                            assert(stmt@->For_post == Some(Box::new((**p)@)));
                            if (**p)@ is Let {
                                assert(comp.var_scopes().drop_last() =~= before.drop_last());
                            }
                        }
                    },
                    None => {
                        proof {
                            lemma_advanced_refl(b3);
                        }
                    },
                }
                let ghost b4 = *builder;
                proof {
                    assert(advanced(b3, b4));
                    assert(fb_blocks(b2).contains(exit_blk));
                    assert(fb_blocks(b3).contains(exit_blk));
                }
                ins_jump(builder, header);
                let ghost b5 = *builder;
                switch_to_block(builder, exit_blk);
                proof {
                    let c1 = fb_current(b1)->0;
                    let c4 = fb_current(b4)->0;
                    let z = *builder;
                    assert(fb_terms(bj)[c1] == Term::Jump(header));
                    assert(fb_grown(bh, bj));
                    assert(fb_grown(b3, b2));
                    assert(fb_grown(b4, b3));
                    assert(fb_grown(z, b5));
                    assert(fb_terms(bj).dom().contains(c1));
                    assert(fb_terms(bh).dom().contains(c1));
                    assert(fb_terms(bh)[c1] == Term::Jump(header));
                    assert(fb_terms(bh).dom().contains(c1));
                    assert(fb_terms(b2).dom().contains(c1));
                    assert(fb_terms(b2)[c1] == Term::Jump(header));
                    assert(fb_terms(b2).dom().contains(c1));
                    assert(fb_terms(b3).dom().contains(c1));
                    assert(fb_terms(b3)[c1] == Term::Jump(header));
                    assert(fb_terms(b3).dom().contains(c1));
                    assert(fb_terms(b4).dom().contains(c1));
                    assert(fb_terms(b4)[c1] == Term::Jump(header));
                    assert(fb_terms(b4).dom().contains(c1));
                    assert(fb_terms(b5).dom().contains(c1));
                    assert(fb_terms(b5)[c1] == Term::Jump(header));
                    assert(fb_terms(b5).dom().contains(c1));
                    assert(fb_terms(z).dom().contains(c1));
                    assert(fb_terms(z)[c1] == Term::Jump(header));
                    assert(fb_terms(bh).dom().contains(header));
                    assert(fb_terms(b2).dom().contains(header));
                    assert(fb_terms(b2)[header] == fb_terms(bh)[header]);
                    assert(fb_terms(b3).dom().contains(header));
                    assert(fb_terms(b3)[header] == fb_terms(bh)[header]);
                    assert(fb_terms(b4).dom().contains(header));
                    assert(fb_terms(b4)[header] == fb_terms(bh)[header]);
                    assert(fb_terms(b5).dom().contains(header));
                    assert(fb_terms(b5)[header] == fb_terms(bh)[header]);
                    assert(fb_terms(z).dom().contains(header));
                    assert(fb_terms(z)[header] == fb_terms(bh)[header]);
                    assert(fb_terms(b5).dom().contains(c4));
                    assert(fb_terms(b5)[c4] == Term::Jump(header));
                    assert(fb_terms(z).dom().contains(c4));
                    assert(fb_terms(z)[c4] == Term::Jump(header));
                    assert(fb_filled(b2).contains(c1));
                    assert(fb_blocks(b2).contains(c1));
                    assert(fb_filled(b3).contains(c1));
                    assert(fb_blocks(b3).contains(c1));
                    assert(fb_filled(b4).contains(c1));
                    assert(fb_current(z)->0 == exit_blk);
                    assert(!fb_blocks(b0).contains(c4));
                    assert(c1 != c4);
                    match stmt@->For_condition {
                        Some(ce) => {
                            assert(fb_defs(bh).submap_of(fb_defs(z)));
                            lemma_computes_mono(dt, fb_defs(z), cvg, ce);
                        },
                        None => {},
                    }
                    assert(loop_built(z, b0, stmt@->For_condition, header, body_blk, cvg, c1, c4));
                }
                proof {
                    lemma_declared_push(comp.var_scopes(), fb_vars(*builder));
                }
                comp.exit_scope();
                proof {
                    let c1 = fb_current(b1)->0;
                    let c3 = fb_current(b3)->0;
                    let c4 = fb_current(b4)->0;
                    assert(comp.var_scopes() =~= sc0);
                    assert(fb_filled(b2).contains(c1));
                    assert(fb_filled(b2).contains(header));
                    assert forall|x: u32| #[trigger] fb_blocks(b0).contains(x) && x != c0 implies (fb_filled(*builder).contains(x) == fb_filled(b0).contains(x)) by {
                        assert(fb_blocks(b1).contains(x));
                        assert(fb_blocks(b2).contains(x));
                        assert(fb_blocks(b3).contains(x));
                    }
                    assert forall|x: u32| #[trigger] fb_blocks(*builder).contains(x) && !fb_blocks(b0).contains(x) && x != exit_blk implies fb_filled(*builder).contains(x) by {
                        if fb_blocks(b3).contains(x) {
                            if fb_blocks(b2).contains(x) {
                                if fb_blocks(b1).contains(x) {
                                    assert(x == c1 || fb_filled(b1).contains(x));
                                    assert(fb_filled(b2).contains(x));
                                } else if x == body_blk {
                                    assert(c3 == body_blk || fb_filled(b3).contains(body_blk));
                                } else {
                                    assert(fb_filled(b2).contains(x));
                                }
                                assert(x == c3 || fb_filled(b3).contains(x));
                            }
                            assert(x == c4 || fb_filled(b4).contains(x));
                        }
                        assert(x == c4 || fb_filled(b4).contains(x));
                        assert(fb_filled(b5).contains(x));
                    }
                    assert(fb_filled(b2).contains(c0));
                    assert(fb_blocks(b2).contains(c0));
                    assert(fb_filled(b3).contains(c0));
                    assert(fb_blocks(b3).contains(c0));
                    assert(fb_filled(b4).contains(c0));
                    assert(fb_filled(b5).contains(c0));
                    lemma_advanced_intro(b0, *builder);
                    lemma_declared_mono(sc0, fb_vars(b0), fb_vars(*builder));
                    assert(scopes_after(stmt@, sc0, comp.var_scopes()));
                }
                Ok(false)
            },
            _ => {
                proof {
                    assert(false);
                }
                Ok(false)
            },
        }
    }

    #[verifier::rlimit(100)]
    fn translate_stmt<'b>(
        builder: &mut FunctionBuilder<'b>,
        module: &mut ObjectModule,
        var_count: &mut u32,
        str_count: &mut usize,
        stmt: &Stmt,
        comp: &mut Compiler,
        return_type: &String,
    ) -> (r: Result<bool, CodegenError>)
        requires
            fb_ready(*old(builder)),
            fb_sealed(*old(builder)) == Set::<u32>::empty(),
            vars_declared(old(comp).var_scopes(), fb_vars(*old(builder))),
        ensures
            funcs_kept(*final(module), *old(module)),
            same_but_scopes(*final(comp), *old(comp)),
            r is Ok ==> advanced(*old(builder), *final(builder)),
            r matches Ok(t) ==> (t ==> fb_filled(*final(builder)).contains(fb_current(*final(builder))->0)),
            r matches Ok(t) ==> (!t ==> fb_ready(*final(builder))),
            r is Ok ==> vars_declared(final(comp).var_scopes(), fb_vars(*final(builder))),
            r matches Ok(t) ==> t == (stmt@ is Return),
            r is Ok ==> *final(var_count) == *old(var_count) + stmt_lets(stmt@),
            r is Ok ==> *final(str_count) == *old(str_count) + stmt_strings(stmt@),
            r is Ok ==> scopes_after(stmt@, old(comp).var_scopes(), final(comp).var_scopes()),
            r is Ok && stmt@ is Let ==> exists|info: VariableInfo|
                let_binding(info) && info.cranelift_var == Some(*old(var_count))
                    && final(comp).var_scopes() == #[trigger] maps_add(old(comp).var_scopes(), stmt@->Let_name, info),
            r is Ok ==> stmt_translatable(stmt@, storage_of(old(comp).var_scopes())),
            !stmt_translatable(stmt@, storage_of(old(comp).var_scopes())) ==> r is Err,
            stmt_translatable(stmt@, storage_of(old(comp).var_scopes())) && stmt_module_free(stmt@) ==> r is Ok,
            match stmt_ops(stmt@, storage_of(old(comp).var_scopes())) {
                Some(ops) => r is Ok ==> fb_ops(*final(builder)) == fb_ops(*old(builder)) + ops,
                None => true,
            },
            r is Ok && stmt@ is For ==> loop_shape(*final(builder), *old(builder), stmt@->For_condition),
            r is Ok && stmt@ is If ==> if_shape(*final(builder), *old(builder), stmt@->If_condition),
            r is Ok ==> store_built(*final(builder), *old(builder), stmt@),
            r is Ok && stmt@ is Return ==> returns_value(*final(builder), *old(builder), stmt@->Return_value),
        decreases stmt, 1nat,
    {
        proof {
            lemma_advanced_refl(*builder);
        }
        match stmt {
            Stmt::Let { name, value, .. } => {
                let ghost b0 = *builder;
                let val = match Self::translate_expr(builder, module, str_count, value, comp) {
                    Ok(v) => v,
                    Err(e) => return Err(e),
                };
                let slot = create_stack_slot(builder, explicit_slot(8));
                ins_stack_store(builder, val, slot, 0);
                let var: u32 = *var_count;
                *var_count = match var_count.checked_add(1) {
                    Some(n) => n,
                    None => return Err(CodegenError::TooManyVariables),
                };
                if !declare_var(builder, var, type_i64()) {
                    return Err(CodegenError::VariableRedeclared);
                }
                if !def_var(builder, var, val) {
                    return Err(CodegenError::TypeMismatch(name.clone()));
                }
                let info = VariableInfo {
                    cranelift_var: Some(var),
                    stack_slot: Some(slot),
                    var_type: CelesteType::Int,
                    is_mutable: true,
                };
                let ghost before = comp.var_scopes();
                comp.add_variable(name.clone(), info);
                proof {
                    lemma_declared_add(before, fb_vars(b0), fb_vars(*builder), name@, info);
                    assert(let_binding(info));
                    assert(comp.var_scopes() == maps_add(before, name@, info));
                    assert(stmt@->Let_name == name@);
                    assert(let_binding(info) && comp.var_scopes() == maps_add(before, stmt@->Let_name, info));
                    assert(let_binding(info) && info.cranelift_var == Some(var)
                        && comp.var_scopes() == maps_add(before, stmt@->Let_name, info));
                    assert(advanced(b0, *builder));
                }
                Ok(false)
            },
            Stmt::Assign { name, value, .. } => {
                proof {
                    lemma_storage_lookup(comp.var_scopes(), name@);
                }
                let ghost b0 = *builder;
                let val = match Self::translate_expr(builder, module, str_count, value, comp) {
                    Ok(v) => v,
                    Err(e) => return Err(e),
                };
                let var = match comp.lookup_variable(name.as_str()) {
                    None => return Err(CodegenError::UndefinedVariable(name.clone())),
                    Some(info) => match &info.cranelift_var {
                        Some(v) => *v,
                        None => return Err(CodegenError::NoVariable(name.clone())),
                    },
                };
                proof {
                    lemma_lookup_declared(comp.var_scopes(), fb_vars(*builder), name@);
                }
                if !def_var(builder, var, val) {
                    return Err(CodegenError::TypeMismatch(name.clone()));
                }
                proof {
                    assert(advanced(b0, *builder));
                }
                Ok(false)
            },
            Stmt::If { .. } => Self::translate_if(builder, module, var_count, str_count, stmt, comp, return_type),
            Stmt::For { .. } => Self::translate_for(builder, module, var_count, str_count, stmt, comp, return_type),
            Stmt::Return { value, .. } => {
                let val = match Self::translate_expr(builder, module, str_count, value, comp) {
                    Ok(v) => v,
                    Err(e) => return Err(e),
                };
                let mut vals: Vec<u32> = Vec::new();
                vals.push(val);
                let ghost br = *builder;
                ins_return(builder, vals.as_slice());
                proof {
                    assert(vals@[0] == val);
                    assert(stmt@->Return_value == value@);
                    lemma_computes_mono(fb_defs(br), fb_defs(*builder), val, value@);
                }
                Ok(true)
            },
            Stmt::Expression(expr, _) => {
                match Self::translate_expr(builder, module, str_count, expr, comp) {
                    Ok(_) => Ok(false),
                    Err(e) => Err(e),
                }
            },
            Stmt::PtrAssign { ptr_expr, value } => {
                let addr = match Self::translate_expr(builder, module, str_count, ptr_expr, comp) {
                    Ok(v) => v,
                    Err(e) => return Err(e),
                };
                let ghost d1 = fb_defs(*builder);
                let val = match Self::translate_expr(builder, module, str_count, value, comp) {
                    Ok(v) => v,
                    Err(e) => return Err(e),
                };
                let ghost bs = *builder;
                ins_store(builder, plain_mem_flags(), val, addr, 0);
                proof {
                    let z = *builder;
                    let k = fb_ops(bs).len();
                    assert(stmt@ == SpecStmt::PtrAssign { ptr_expr: (**ptr_expr)@, value: (**value)@ });
                    lemma_computes_mono(d1, fb_defs(z), addr, (**ptr_expr)@);
                    lemma_computes_mono(fb_defs(bs), fb_defs(z), val, (**value)@);
                    assert(ptr_store_at(z, k, (**ptr_expr)@, (**value)@));
                }
                Ok(false)
            },
            Stmt::IndexAssign { array, index, value } => {
                let ptr_ty = pointer_type(&target_config(module));
                let base = match Self::translate_expr(builder, module, str_count, array, comp) {
                    Ok(v) => v,
                    Err(e) => return Err(e),
                };
                let ghost db = fb_defs(*builder);
                let idx = match Self::translate_expr(builder, module, str_count, index, comp) {
                    Ok(v) => v,
                    Err(e) => return Err(e),
                };
                let ghost di = fb_defs(*builder);
                let val = match Self::translate_expr(builder, module, str_count, value, comp) {
                    Ok(v) => v,
                    Err(e) => return Err(e),
                };
                let ghost bv = *builder;
                let scale = ins_iconst(builder, ptr_ty, 8);
                let offset = ins_imul(builder, idx, scale);
                let addr = ins_iadd(builder, base, offset);
                let ghost bs = *builder;
                ins_store(builder, plain_mem_flags(), val, addr, 0);
                proof {
                    let z = *builder;
                    let d = fb_defs(z);
                    let k = fb_ops(bs).len();
                    assert(stmt@ == SpecStmt::IndexAssign { array: array@, index: index@, value: (**value)@ });
                    lemma_computes_mono(db, d, base, array@);
                    lemma_computes_mono(di, d, idx, index@);
                    lemma_computes_mono(fb_defs(bv), d, val, (**value)@);
                    assert(fb_defs(bs).dom().contains(addr) && fb_defs(bs).dom().contains(offset) && fb_defs(bs).dom().contains(scale));
                    assert(d.dom().contains(addr) && d.dom().contains(offset) && d.dom().contains(scale));
                    assert(d[addr] == Def::Iadd(base, offset));
                    assert(d[offset] == Def::Imul(idx, scale));
                    assert(d[scale] == Def::Iconst(8));
                    assert(index_store_at(z, k, array@, index@, (**value)@));
                }
                Ok(false)
            },
            _ => Ok(false),
        }
    }

    /// Translates all of `es` in order and gives their values.
    #[verifier::rlimit(40)]
    fn translate_all<'b>(
        builder: &mut FunctionBuilder<'b>,
        module: &mut ObjectModule,
        str_count: &mut usize,
        es: &Vec<Expr>,
        comp: &Compiler,
    ) -> (r: Result<Vec<u32>, CodegenError>)
        requires
            fb_ready(*old(builder)),
            vars_declared(comp.var_scopes(), fb_vars(*old(builder))),
        ensures
            funcs_kept(*final(module), *old(module)),
            fb_unchanged(*final(builder), *old(builder)),
            r matches Ok(v) ==> v@.len() == es@.len(),
            r matches Ok(v) ==> forall|k: int| 0 <= k < v@.len() ==> fb_values(*final(builder)).contains(#[trigger] v@[k]),
            r matches Ok(v) ==> forall|k: int| 0 <= k < v@.len() ==> computes(fb_defs(*final(builder)), #[trigger] v@[k], exprs_view(es@)[k]),
            r is Ok ==> all_translatable(exprs_view(es@), 0, storage_of(comp.var_scopes())),
            r is Ok ==> *final(str_count) == *old(str_count) + strings_in_all(exprs_view(es@), 0),
            !all_translatable(exprs_view(es@), 0, storage_of(comp.var_scopes())) ==> r is Err,
        decreases es,
    {
        let ghost sc = storage_of(comp.var_scopes());
        let ghost xs = exprs_view(es@);
        let ghost b0 = *builder;
        let ghost s0 = *str_count;
        let mut av: Vec<u32> = Vec::new();
        let mut i: usize = 0;
        while i < es.len()
            invariant
                funcs_kept(*module, *old(module)),
                b0 == *old(builder),
                fb_unchanged(*builder, b0),
                fb_ready(b0),
                vars_declared(comp.var_scopes(), fb_vars(b0)),
                xs == exprs_view(es@),
                forall|k: int| 0 <= k < av@.len() ==> fb_values(*builder).contains(#[trigger] av@[k]),
                forall|k: int| 0 <= k < av@.len() ==> computes(fb_defs(*builder), #[trigger] av@[k], xs[k]),
                sc == storage_of(comp.var_scopes()),
                i <= es@.len(),
                av@.len() == i,
                all_translatable(xs, 0, sc) == all_translatable(xs, i as int, sc),
                *str_count + strings_in_all(xs, i as int) == s0 + strings_in_all(xs, 0),
            decreases es@.len() - i,
        {
            assert(xs[i as int] == es@[i as int]@);
            let ghost d0 = fb_defs(*builder);
            let ghost av0 = av@;
            let v = match Self::translate_expr(builder, module, str_count, &es[i], comp) {
                Ok(v) => v,
                Err(e) => return Err(e),
            };
            proof {
                assert forall|k: int| 0 <= k < av0.len() implies computes(fb_defs(*builder), #[trigger] av0[k], xs[k]) by {
                    lemma_computes_mono(d0, fb_defs(*builder), av0[k], xs[k]);
                }
            }
            av.push(v);
            i = i + 1;
        }
        Ok(av)
    }

    /// Translates the elements of an array literal in order, storing each
    /// in its 8-byte cell of `slot`.
    #[verifier::rlimit(40)]
    fn store_elements<'b>(
        builder: &mut FunctionBuilder<'b>,
        module: &mut ObjectModule,
        str_count: &mut usize,
        es: &Vec<Expr>,
        slot: StackSlot,
        comp: &Compiler,
    ) -> (r: Result<(), CodegenError>)
        requires
            es@.len() * 8 <= usize::MAX,
            fb_ready(*old(builder)),
            vars_declared(comp.var_scopes(), fb_vars(*old(builder))),
        ensures
            funcs_kept(*final(module), *old(module)),
            fb_unchanged(*final(builder), *old(builder)),
            r is Ok ==> all_translatable(exprs_view(es@), 0, storage_of(comp.var_scopes())),
            r is Ok ==> *final(str_count) == *old(str_count) + strings_in_all(exprs_view(es@), 0),
            !all_translatable(exprs_view(es@), 0, storage_of(comp.var_scopes())) ==> r is Err,
            all_translatable(exprs_view(es@), 0, storage_of(comp.var_scopes())) && all_module_free(exprs_view(es@), 0) ==> r is Ok,
            match elems_ops(exprs_view(es@), 0, storage_of(comp.var_scopes())) {
                Some(ops) => r is Ok ==> fb_ops(*final(builder)) == fb_ops(*old(builder)) + ops,
                None => true,
            },
            r is Ok ==> elems_stored(*final(builder), *old(builder), exprs_view(es@), es@.len() as int),
        decreases es,
    {
        let ghost sc = storage_of(comp.var_scopes());
        let ghost xs = exprs_view(es@);
        let ghost b0 = *builder;
        let ghost s0 = *str_count;
        let mut i: usize = 0;
        while i < es.len()
            invariant
                funcs_kept(*module, *old(module)),
                b0 == *old(builder),
                fb_unchanged(*builder, b0),
                fb_ready(b0),
                vars_declared(comp.var_scopes(), fb_vars(b0)),
                xs == exprs_view(es@),
                sc == storage_of(comp.var_scopes()),
                es@.len() * 8 <= usize::MAX,
                i <= es@.len(),
                match elems_ops(xs, 0, sc) {
                    Some(all) => elems_ops(xs, i as int, sc) is Some
                        && fb_ops(b0) + all == fb_ops(*builder) + elems_ops(xs, i as int, sc)->0,
                    None => true,
                },
                all_module_free(xs, 0) ==> all_module_free(xs, i as int),
                all_translatable(xs, 0, sc) == all_translatable(xs, i as int, sc),
                *str_count + strings_in_all(xs, i as int) == s0 + strings_in_all(xs, 0),
                elems_stored(*builder, b0, xs, i as int),
            decreases es@.len() - i,
        {
            let ghost before_elem = fb_ops(*builder);
            let ghost bi = *builder;
            assert(xs[i as int] == es@[i as int]@);
            let val = match Self::translate_expr(builder, module, str_count, &es[i], comp) {
                Ok(v) => v,
                Err(e) => return Err(e),
            };
            let ghost before_store = fb_ops(*builder);
            let ghost bv = *builder;
            ins_stack_store(builder, val, slot, element_offset(i));
            proof {
                let z = *builder;
                let k = before_store.len();
                lemma_elems_stored_mono(bi, z, b0, xs, i as int);
                lemma_computes_mono(fb_defs(bv), fb_defs(z), val, xs[i as int]);
                assert(elem_stored(z, k, i as int, xs[i as int]));
                assert forall|j: int| 0 <= j < i + 1 implies #[trigger] elem_stored_after(z, b0, j, xs[j]) by {
                    if j == i {
                        assert(k >= fb_ops(b0).len());
                    } else {
                        assert(elem_stored_after(z, b0, j, xs[j]));
                    }
                }
            }
            proof {
                if let Some(all) = elems_ops(xs, 0, sc) {
                    let a = expr_ops(xs[i as int], sc)->0;
                    let rest = elems_ops(xs, i + 1, sc)->0;
                    let st_op = Op::StackStore(((i * 8) as usize) as i32);
                    assert(elems_ops(xs, i as int, sc)->0 == a + seq![st_op] + rest);
                    assert(before_store == before_elem + a);
                    assert(before_elem + (a + seq![st_op] + rest) =~= before_store + seq![st_op] + rest);
                }
            }
            i = i + 1;
        }
        Ok(())
    }

    /// Emits `val == 0`, widened to 64 bits.
    fn logical_not<'b>(builder: &mut FunctionBuilder<'b>, val: u32) -> (r: u32)
        requires
            fb_ready(*old(builder)),
            fb_values(*old(builder)).contains(val),
        ensures
            fb_unchanged(*final(builder), *old(builder)),
            fb_values(*final(builder)).contains(r),
            not_computes(fb_defs(*final(builder)), val, r),
            fb_ops(*final(builder)) == fb_ops(*old(builder)) + seq![Op::Iconst(0), Op::Compare(Comparison::Equal), Op::Uextend],
    {
        let zero = ins_iconst(builder, type_i64(), 0);
        let res = ins_icmp(builder, Comparison::Equal, val, zero);
        let r = ins_uextend(builder, type_i64(), res);
        proof {
            let d = fb_defs(*builder);
            assert(d[res] == Def::Icmp(Comparison::Equal, val, zero));
            assert(d[zero] == Def::Iconst(0));
        }
        r
    }

    /// Emits the instruction of a binary operator; comparisons give 0 or 1.
    fn binary_op<'b>(builder: &mut FunctionBuilder<'b>, op: char, l: u32, r: u32) -> (res: Result<u32, CodegenError>)
        requires
            fb_ready(*old(builder)),
            fb_values(*old(builder)).contains(l),
            fb_values(*old(builder)).contains(r),
        ensures
            fb_unchanged(*final(builder), *old(builder)),
            res is Ok <==> binary_op_supported(op),
            res matches Ok(v) ==> fb_values(*final(builder)).contains(v),
            res matches Ok(v) ==> binop_computes(fb_defs(*final(builder)), op, l, r, v),
            res is Ok ==> fb_ops(*final(builder)) == fb_ops(*old(builder)) + binop_ops(op),
    {
        let cond = if op == '+' {
            return Ok(ins_iadd(builder, l, r));
        } else if op == '-' {
            return Ok(ins_isub(builder, l, r));
        } else if op == '*' {
            return Ok(ins_imul(builder, l, r));
        } else if op == '/' {
            return Ok(ins_sdiv(builder, l, r));
        } else if op == '%' {
            return Ok(ins_srem(builder, l, r));
        } else if op == '=' {
            Comparison::Equal
        } else if op == 'N' {
            Comparison::NotEqual
        } else if op == '<' {
            Comparison::SignedLess
        } else if op == '>' {
            Comparison::SignedGreater
        } else if op == 'L' {
            Comparison::SignedLessOrEqual
        } else if op == 'G' {
            Comparison::SignedGreaterOrEqual
        } else {
            return Err(CodegenError::UnsupportedOperator(op));
        };
        let res = ins_icmp(builder, cond, l, r);
        let v = ins_uextend(builder, type_i64(), res);
        proof {
            let d = fb_defs(*builder);
            assert(d[res] == Def::Icmp(cond, l, r));
        }
        Ok(v)
    }
}

/// The instructions that end the code of a call with `n` arguments of a
/// function whose signature has `shape.0` parameters and `shape.1` return
/// values: a direct call when the numbers of arguments and parameters agree,
/// else a call through the function's address; a constant 0 stands for the
/// result of a function that returns nothing.
pub open spec fn call_ops(n: nat, shape: (nat, nat)) -> Seq<Op> {
    (if n == shape.0 { seq![Op::Call] } else { seq![Op::FuncAddr, Op::CallIndirect] })
        + (if shape.1 == 0 { seq![Op::Iconst(0)] } else { Seq::empty() })
}

/// `t` is the end of `s`.
pub open spec fn ends_with(s: Seq<Op>, t: Seq<Op>) -> bool {
    t.len() <= s.len() && s.subrange(s.len() - t.len(), s.len() as int) == t
}

/// The comparison that a comparison operator denotes.
pub open spec fn comparison_of(op: char) -> Option<Comparison> {
    if op == '=' {
        Some(Comparison::Equal)
    } else if op == 'N' {
        Some(Comparison::NotEqual)
    } else if op == '<' {
        Some(Comparison::SignedLess)
    } else if op == '>' {
        Some(Comparison::SignedGreater)
    } else if op == 'L' {
        Some(Comparison::SignedLessOrEqual)
    } else if op == 'G' {
        Some(Comparison::SignedGreaterOrEqual)
    } else {
        None
    }
}

/// In the values `d`, the operands of `v` when `v` is the binary operator
/// `op`: wrapping `+ - *`, signed `/` and `%`, and for a comparison its flag
/// widened to 64 bits; `None` when `v` is not made so.
pub open spec fn operands_of(d: Map<u32, Def>, op: char, v: u32) -> Option<(u32, u32)> {
    if !d.dom().contains(v) {
        None
    } else {
        match d[v] {
            Def::Iadd(a, b) => if op == '+' { Some((a, b)) } else { None },
            Def::Isub(a, b) => if op == '-' { Some((a, b)) } else { None },
            Def::Imul(a, b) => if op == '*' { Some((a, b)) } else { None },
            Def::Sdiv(a, b) => if op == '/' { Some((a, b)) } else { None },
            Def::Srem(a, b) => if op == '%' { Some((a, b)) } else { None },
            Def::Uextend(x) => if d.dom().contains(x) {
                match d[x] {
                    Def::Icmp(c, a, b) => if comparison_of(op) == Some(c) { Some((a, b)) } else { None },
                    _ => None,
                }
            } else {
                None
            },
            _ => None,
        }
    }
}

/// In the values `d`, `v` is the binary operator `op` applied to `a` and `b`.
pub open spec fn binop_computes(d: Map<u32, Def>, op: char, a: u32, b: u32, v: u32) -> bool {
    operands_of(d, op, v) == Some((a, b))
}

/// In the values `d`, the operand of `v` when `v` is 1 where its operand is
/// 0 and 0 otherwise: the operand compared equal to a constant 0, widened to
/// 64 bits.
pub open spec fn not_operand(d: Map<u32, Def>, v: u32) -> Option<u32> {
    if d.dom().contains(v) && d[v] is Uextend {
        let x = d[v]->Uextend_0;
        if d.dom().contains(x) && d[x] is Icmp {
            let z = d[x]->Icmp_2;
            if d[x]->Icmp_0 == Comparison::Equal && d.dom().contains(z) && d[z] == Def::Iconst(0) {
                Some(d[x]->Icmp_1)
            } else {
                None
            }
        } else {
            None
        }
    } else {
        None
    }
}

/// In the values `d`, `v` is 1 where `a` is 0 and 0 otherwise.
pub open spec fn not_computes(d: Map<u32, Def>, a: u32, v: u32) -> bool {
    not_operand(d, v) == Some(a)
}

/// In the values `d`, the base and index of the element address `v`, when
/// `v` is `base + index * 8`.
pub open spec fn elem_addr(d: Map<u32, Def>, v: u32) -> Option<(u32, u32)> {
    if d.dom().contains(v) && d[v] is Iadd {
        let off = d[v]->Iadd_1;
        if d.dom().contains(off) && d[off] is Imul {
            let e8 = d[off]->Imul_1;
            if d.dom().contains(e8) && d[e8] == Def::Iconst(8) {
                Some((d[v]->Iadd_0, d[off]->Imul_0))
            } else {
                None
            }
        } else {
            None
        }
    } else {
        None
    }
}

/// In the values `d`, the address that `v` is loaded from, when `v` is a
/// load at offset 0.
pub open spec fn load_addr(d: Map<u32, Def>, v: u32) -> Option<u32> {
    if d.dom().contains(v) && d[v] is Load && d[v]->Load_1 == 0 {
        Some(d[v]->Load_0)
    } else {
        None
    }
}

/// In the values `d` of a builder, the value `v` computes the expression
/// `e`: an integer literal is a constant of its value; an operator is its
/// instruction applied to values that compute its operands; `a[i]` is a
/// load from the address `a + i * 8`, which is what `&a[i]` gives; `*p` is
/// a load from the value of `p`. What variables, strings, array literals
/// and calls give is not described here.
pub open spec fn computes(d: Map<u32, Def>, v: u32, e: SpecExpr) -> bool
    decreases e,
{
    match e {
        SpecExpr::Index { array, index } => match load_addr(d, v) {
            Some(addr) => match elem_addr(d, addr) {
                Some((a, i)) => computes(d, a, *array) && computes(d, i, *index),
                None => false,
            },
            None => false,
        },
        SpecExpr::AddressOf(inner) => match *inner {
            SpecExpr::Index { array, index } => match elem_addr(d, v) {
                Some((a, i)) => computes(d, a, *array) && computes(d, i, *index),
                None => false,
            },
            _ => true,
        },
        SpecExpr::Deref(inner) => match load_addr(d, v) {
            Some(p) => computes(d, p, *inner),
            None => false,
        },
        SpecExpr::Integer(n) => d.dom().contains(v) && d[v] == Def::Iconst(n as i64),
        SpecExpr::Binary { op, lhs, rhs } => match operands_of(d, op, v) {
            Some((a, b)) => computes(d, a, *lhs) && computes(d, b, *rhs),
            None => false,
        },
        SpecExpr::Unary { op, right } => op == '!' && match not_operand(d, v) {
            Some(a) => computes(d, a, *right),
            None => false,
        },
        _ => true,
    }
}

/// A value that computes a binary expression is made by the instruction
/// that the operator names, applied to values that compute the left and
/// the right operand in that order: `+` is `iadd`, `-` is `isub`, `*` is
/// `imul`, `/` is `sdiv`, `%` is `srem`, and a comparison is the `icmp` of
/// its condition (`=` equal, `N` not equal, `<` `>` `L` `G` signed less,
/// greater, less or equal, greater or equal) widened with `uextend`.
pub proof fn law_operator_instruction(d: Map<u32, Def>, v: u32, op: char, l: SpecExpr, r: SpecExpr)
    requires
        computes(d, v, SpecExpr::Binary { op, lhs: Box::new(l), rhs: Box::new(r) }),
    ensures
        d.dom().contains(v),
        exists|a: u32, b: u32| #![trigger computes(d, a, l), computes(d, b, r)] computes(d, a, l) && computes(d, b, r) && {
            ||| op == '+' && d[v] == Def::Iadd(a, b)
            ||| op == '-' && d[v] == Def::Isub(a, b)
            ||| op == '*' && d[v] == Def::Imul(a, b)
            ||| op == '/' && d[v] == Def::Sdiv(a, b)
            ||| op == '%' && d[v] == Def::Srem(a, b)
            ||| exists|c: u32| #![trigger d[c]] d[v] == Def::Uextend(c) && d.dom().contains(c) && {
                ||| op == '=' && d[c] == Def::Icmp(Comparison::Equal, a, b)
                ||| op == 'N' && d[c] == Def::Icmp(Comparison::NotEqual, a, b)
                ||| op == '<' && d[c] == Def::Icmp(Comparison::SignedLess, a, b)
                ||| op == '>' && d[c] == Def::Icmp(Comparison::SignedGreater, a, b)
                ||| op == 'L' && d[c] == Def::Icmp(Comparison::SignedLessOrEqual, a, b)
                ||| op == 'G' && d[c] == Def::Icmp(Comparison::SignedGreaterOrEqual, a, b)
            }
        },
{
    let (a, b) = operands_of(d, op, v)->0;
    assert(computes(d, a, l) && computes(d, b, r));
    if d[v] is Uextend {
        let c = d[v]->Uextend_0;
        assert(d[c] is Icmp);
    }
}

/// A value that computes `!e` is 1 exactly where the value of `e` is 0:
/// the `icmp` equal of a value computing `e` with a constant 0, widened.
pub proof fn law_not_instruction(d: Map<u32, Def>, v: u32, e: SpecExpr)
    requires
        computes(d, v, SpecExpr::Unary { op: '!', right: Box::new(e) }),
    ensures
        exists|a: u32, c: u32, z: u32| #![trigger computes(d, a, e), d[c], d[z]]
            computes(d, a, e) && d.dom().contains(v) && d.dom().contains(c) && d.dom().contains(z)
                && d[v] == Def::Uextend(c) && d[c] == Def::Icmp(Comparison::Equal, a, z) && d[z] == Def::Iconst(0),
{
    let a = not_operand(d, v)->0;
    let c = d[v]->Uextend_0;
    let z = d[c]->Icmp_2;
    assert(computes(d, a, e));
    assert(d[c] == Def::Icmp(Comparison::Equal, a, z));
}

/// A value that computes an integer literal is the constant of that value.
pub proof fn law_literal_constant(d: Map<u32, Def>, v: u32, n: i32)
    requires
        computes(d, v, SpecExpr::Integer(n)),
    ensures
        d.dom().contains(v) && d[v] == Def::Iconst(n as i64),
{
}

/// What a value computes stays true as the builder gets more values.
proof fn lemma_computes_mono(d: Map<u32, Def>, d2: Map<u32, Def>, v: u32, e: SpecExpr)
    requires
        d.submap_of(d2),
        computes(d, v, e),
    ensures
        computes(d2, v, e),
    decreases e,
{
    match e {
        SpecExpr::Binary { op, lhs, rhs } => {
            let (a, b) = operands_of(d, op, v)->0;
            if d[v] is Uextend {
                let x = d[v]->Uextend_0;
                assert(d2[x] == d[x]);
            }
            assert(operands_of(d2, op, v) == operands_of(d, op, v));
            lemma_computes_mono(d, d2, a, *lhs);
            lemma_computes_mono(d, d2, b, *rhs);
        },
        SpecExpr::Unary { op, right } => {
            let a = not_operand(d, v)->0;
            let x = d[v]->Uextend_0;
            let z = d[x]->Icmp_2;
            assert(d2[x] == d[x] && d2[z] == d[z]);
            assert(not_operand(d2, v) == not_operand(d, v));
            lemma_computes_mono(d, d2, a, *right);
        },
        SpecExpr::Index { array, index } => {
            let addr = load_addr(d, v)->0;
            let off = d[addr]->Iadd_1;
            let e8 = d[off]->Imul_1;
            assert(d.dom().contains(v) && d.dom().contains(addr) && d.dom().contains(off) && d.dom().contains(e8));
            assert(d2.dom().contains(v) && d2.dom().contains(addr) && d2.dom().contains(off) && d2.dom().contains(e8));
            assert(d2[v] == d[v] && d2[addr] == d[addr] && d2[off] == d[off] && d2[e8] == d[e8]);
            assert(load_addr(d2, v) == load_addr(d, v));
            assert(elem_addr(d2, addr) == elem_addr(d, addr));
            let (a, i) = elem_addr(d, addr)->0;
            lemma_computes_mono(d, d2, a, *array);
            lemma_computes_mono(d, d2, i, *index);
        },
        SpecExpr::AddressOf(inner) => {
            if let SpecExpr::Index { array, index } = *inner {
                let off = d[v]->Iadd_1;
                let e8 = d[off]->Imul_1;
                assert(d.dom().contains(v) && d.dom().contains(off) && d.dom().contains(e8));
                assert(d2.dom().contains(v) && d2.dom().contains(off) && d2.dom().contains(e8));
                assert(d2[v] == d[v] && d2[off] == d[off] && d2[e8] == d[e8]);
                assert(elem_addr(d2, v) == elem_addr(d, v));
                let (a, i) = elem_addr(d, v)->0;
                lemma_computes_mono(d, d2, a, *array);
                lemma_computes_mono(d, d2, i, *index);
            }
        },
        SpecExpr::Deref(inner) => {
            assert(d.dom().contains(v) && d2.dom().contains(v));
            assert(d2[v] == d[v]);
            assert(load_addr(d2, v) == load_addr(d, v));
            lemma_computes_mono(d, d2, load_addr(d, v)->0, *inner);
        },
        _ => {},
    }
}

/// The decimal digits of `n`, most significant first.
pub open spec fn decimal(n: nat) -> Seq<char>
    decreases n,
{
    if n < 10 {
        seq![digit_char(n)]
    } else {
        decimal(n / 10).push(digit_char(n % 10))
    }
}

/// The character of the decimal digit `d`.
pub open spec fn digit_char(d: nat) -> char {
    ((48 + d) as u32) as char
}

/// The decimal digits of a number below ten are its one digit, from `0`
/// to `9`; appending a digit `d` to the digits of a positive `n` gives
/// those of `10 * n + d`.
pub proof fn law_decimal_digits(n: nat, d: nat)
    requires
        d < 10,
    ensures
        decimal(d) == seq![((0x30 + d) as u32) as char],
        n > 0 ==> decimal(10 * n + d) == decimal(n).push(((0x30 + d) as u32) as char),
{
    if n > 0 {
        assert((10 * n + d) / 10 == n);
        assert((10 * n + d) % 10 == d);
    }
}

/// The name of the data object of the `n`-th string literal: `str_`
/// followed by the decimal digits of `n`.
pub open spec fn string_data_name(n: nat) -> Seq<char> {
    seq!['s', 't', 'r', '_'] + decimal(n)
}

/// Whether `m` holds a data object named `name`, with export linkage, that
/// is defined with the UTF-8 bytes of `s` followed by one 0 byte.
pub open spec fn holds_string(m: ObjectModule, name: Seq<char>, s: Seq<char>) -> bool {
    &&& module_data(m).dom().contains(name)
    &&& module_data_exported(m).contains(module_data(m)[name])
    &&& module_data_bytes(m).dom().contains(module_data(m)[name])
    &&& module_data_bytes(m)[module_data(m)[name]] == encode_utf8(s).push(0u8)
}

/// The name of the data object of the `n`-th string literal: `str_`
/// followed by the decimal digits of `n`.
fn data_name(n: usize) -> (r: String)
    ensures
        r@ == string_data_name(n as nat),
{
    let mut s = String::new();
    push_char(&mut s, 's');
    push_char(&mut s, 't');
    push_char(&mut s, 'r');
    push_char(&mut s, '_');
    proof {
        assert(s@ =~= seq!['s', 't', 'r', '_']);
    }
    push_decimal(&mut s, n);
    s
}

/// Appends the decimal digits of `n` to `s`.
fn push_decimal(s: &mut String, n: usize)
    ensures
        final(s)@ == old(s)@ + decimal(n as nat),
    decreases n,
{
    if n >= 10 {
        push_decimal(s, n / 10);
    }
    let d: u8 = (n % 10) as u8;
    let c: char = (48u8 + d) as char;
    proof {
        assert(c == digit_char((n % 10) as nat));
    }
    push_char(s, c);
    proof {
        if n >= 10 {
            assert(decimal(n as nat) == decimal((n / 10) as nat).push(digit_char((n % 10) as nat)));
        }
        assert(final(s)@ =~= old(s)@ + decimal(n as nat));
    }
}

/// An integer literal as the 64-bit immediate that holds it.
fn integer_value(n: i32) -> (r: i64)
    ensures
        r == n,
{
    n as i64
}

} // verus!
