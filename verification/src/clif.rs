//! The parts of Cranelift that the backend calls, declared for Verus. Every
//! function here makes one Cranelift call (the setup of an object module
//! aside, see [`host_object_module`]). Blocks and variables are passed by
//! index. The state of a function builder that decides whether its calls
//! panic (the current block, the blocks made, filled and sealed, the declared
//! variables) is named by the `fb_*` functions; the builder calls require
//! what their debug assertions check and say how they change that state.
//! The instructions built are recorded by opcode (`fb_ops`), and the names a
//! module holds as functions by `module_funcs`. Nothing is stated of the
//! values, operands or signatures that Cranelift hands back.
use vstd::prelude::*;
use cranelift::codegen::ir::{Function, FuncRef, GlobalValue, Inst, SigRef, StackSlot};
use cranelift::codegen::isa::{CallConv, TargetFrontendConfig};
use cranelift::codegen::Context;
use cranelift::prelude::{
    AbiParam, Block, Configurable, FunctionBuilder, FunctionBuilderContext, InstBuilder, IntCC, MemFlags, Signature,
    StackSlotData, StackSlotKind, Type, Value, Variable, settings, types,
};
use cranelift_module::{DataDescription, DataId, FuncId, FuncOrDataId, Linkage, Module, ModuleError};
use cranelift_object::{ObjectBuilder, ObjectModule};

verus! {

#[verifier::external_type_specification]
#[verifier::external_body]
pub struct ExStackSlot(StackSlot);

#[verifier::external_type_specification]
#[verifier::external_body]
pub struct ExType(Type);

#[verifier::external_type_specification]
#[verifier::external_body]
pub struct ExInst(Inst);

#[verifier::external_type_specification]
#[verifier::external_body]
pub struct ExSignature(Signature);

#[verifier::external_type_specification]
#[verifier::external_body]
pub struct ExCallConv(CallConv);

#[verifier::external_type_specification]
#[verifier::external_body]
pub struct ExTargetFrontendConfig(TargetFrontendConfig);

#[verifier::external_type_specification]
#[verifier::external_body]
pub struct ExFunction(Function);

#[verifier::external_type_specification]
#[verifier::external_body]
pub struct ExContext(Context);

#[verifier::external_type_specification]
#[verifier::external_body]
pub struct ExFunctionBuilderContext(FunctionBuilderContext);

#[verifier::external_type_specification]
#[verifier::external_body]
pub struct ExFunctionBuilder<'a>(FunctionBuilder<'a>);

#[verifier::external_type_specification]
#[verifier::external_body]
pub struct ExObjectModule(ObjectModule);

#[verifier::external_type_specification]
#[verifier::external_body]
pub struct ExDataDescription(DataDescription);

#[verifier::external_type_specification]
#[verifier::external_body]
pub struct ExModuleError(ModuleError);

/// Whether a declared symbol is defined here or elsewhere.
pub enum SymbolLinkage {
    Import,
    Export,
}

/// The integer comparisons the backend emits.
pub enum Comparison {
    Equal,
    NotEqual,
    SignedLess,
    SignedGreater,
    SignedLessOrEqual,
    SignedGreaterOrEqual,
}

/// Sets up an object module for the host machine, optimizing for speed:
/// `cranelift_native::builder`, `settings::builder` with `opt_level=speed`,
/// `isa::Builder::finish`, `ObjectBuilder::new` with the default library call
/// names, and `ObjectModule::new`. These calls stand together because the
/// target description between them is a trait object, which Verus cannot
/// name. `None` when the host is not supported or a step fails.
#[verifier::external_body]
pub(crate) fn host_object_module(name: &str) -> Option<ObjectModule> {
    let isa_builder = cranelift_native::builder().ok()?;
    let mut flag_builder = settings::builder();
    flag_builder.set("opt_level", "speed").ok()?;
    let isa = isa_builder.finish(settings::Flags::new(flag_builder)).ok()?;
    let obj = ObjectBuilder::new(isa, name, cranelift_module::default_libcall_names()).ok()?;
    Some(ObjectModule::new(obj))
}

/// `Module::make_context`: a fresh compilation context.
#[verifier::external_body]
pub(crate) fn make_context(m: &ObjectModule) -> Context {
    m.make_context()
}

/// `FunctionBuilderContext::new`: a context that holds nothing.
#[verifier::external_body]
pub(crate) fn new_builder_context() -> (r: FunctionBuilderContext)
    ensures
        fbc_empty(r),
{
    FunctionBuilderContext::new()
}

/// `Module::target_config`.
#[verifier::external_body]
pub(crate) fn target_config(m: &ObjectModule) -> TargetFrontendConfig {
    m.target_config()
}

/// `TargetFrontendConfig::pointer_type`.
#[verifier::external_body]
pub(crate) fn pointer_type(c: &TargetFrontendConfig) -> Type {
    c.pointer_type()
}

/// The `default_call_conv` field of a target configuration.
#[verifier::external_body]
pub(crate) fn default_call_conv(c: &TargetFrontendConfig) -> CallConv {
    c.default_call_conv
}

/// The 64-bit integer type, `types::I64`.
#[verifier::external_body]
pub(crate) fn type_i64() -> Type {
    types::I64
}

/// The number of parameters of a signature (the length of its `params`).
pub uninterp spec fn sig_params(s: Signature) -> nat;

/// The number of return values of a signature (the length of its
/// `returns`).
pub uninterp spec fn sig_returns(s: Signature) -> nat;

/// `Module::make_signature`: a signature with no parameter and no return
/// value.
#[verifier::external_body]
pub(crate) fn make_signature(m: &ObjectModule) -> (r: Signature)
    ensures
        sig_params(r) == 0,
        sig_returns(r) == 0,
{
    m.make_signature()
}

/// Sets the `call_conv` field of a signature.
#[verifier::external_body]
pub(crate) fn set_call_conv(sig: &mut Signature, cc: CallConv)
    ensures
        sig_params(*final(sig)) == sig_params(*old(sig)),
        sig_returns(*final(sig)) == sig_returns(*old(sig)),
{
    sig.call_conv = cc;
}

/// Appends a parameter of type `ty` (`AbiParam::new`) to a signature.
#[verifier::external_body]
pub(crate) fn push_param(sig: &mut Signature, ty: Type)
    ensures
        sig_params(*final(sig)) == sig_params(*old(sig)) + 1,
        sig_returns(*final(sig)) == sig_returns(*old(sig)),
{
    sig.params.push(AbiParam::new(ty));
}

/// Appends a return value of type `ty` (`AbiParam::new`) to a signature.
#[verifier::external_body]
pub(crate) fn push_return(sig: &mut Signature, ty: Type)
    ensures
        sig_params(*final(sig)) == sig_params(*old(sig)),
        sig_returns(*final(sig)) == sig_returns(*old(sig)) + 1,
{
    sig.returns.push(AbiParam::new(ty));
}

/// The number of parameters of a signature (the length of its `params`).
#[verifier::external_body]
pub(crate) fn param_count(sig: &Signature) -> (r: usize)
    ensures
        r == sig_params(*sig),
{
    sig.params.len()
}

/// Whether a signature returns nothing (its `returns` is empty).
#[verifier::external_body]
pub(crate) fn returns_nothing(sig: &Signature) -> (r: bool)
    ensures
        r == (sig_returns(*sig) == 0),
{
    sig.returns.is_empty()
}

/// `Signature::clone`: the same parameters and return values.
#[verifier::external_body]
pub(crate) fn clone_signature(sig: &Signature) -> (r: Signature)
    ensures
        sig_params(r) == sig_params(*sig),
        sig_returns(r) == sig_returns(*sig),
{
    sig.clone()
}

/// The names a module holds as functions (`Module::get_name` gives a
/// function for them), each with the index of its `FuncId`.
pub uninterp spec fn module_funcs(m: ObjectModule) -> Map<Seq<char>, u32>;

/// The functions, by the index of their `FuncId`, that a module holds a
/// definition of.
pub uninterp spec fn module_defined(m: ObjectModule) -> Set<u32>;

/// The functions, by the index of their `FuncId`, that a module declares
/// with export linkage; it imports the others it declares.
pub uninterp spec fn module_exported(m: ObjectModule) -> Set<u32>;

/// For each function of a module, by the index of its `FuncId`, the number
/// of parameters and of return values of the signature it was declared with.
pub uninterp spec fn module_sigs(m: ObjectModule) -> Map<u32, (nat, nat)>;

/// The functions of `b` are those of `a`, with the same signatures, linkage
/// and definitions.
pub open spec fn funcs_kept(b: ObjectModule, a: ObjectModule) -> bool {
    &&& module_funcs(b) == module_funcs(a)
    &&& module_sigs(b) == module_sigs(a)
    &&& module_defined(b) == module_defined(a)
    &&& module_exported(b) == module_exported(a)
}

/// `id` is the index of no function of `m`.
pub open spec fn fresh_func(m: ObjectModule, id: u32) -> bool {
    &&& !module_exported(m).contains(id)
    &&& !module_defined(m).contains(id)
    &&& forall|n: Seq<char>| #[trigger] module_funcs(m).dom().contains(n) ==> module_funcs(m)[n] != id
}

/// Distinct function names of `m` have distinct ids.
pub open spec fn funcs_injective(m: ObjectModule) -> bool {
    forall|a: Seq<char>, b: Seq<char>|
        #[trigger] module_funcs(m).dom().contains(a) && #[trigger] module_funcs(m).dom().contains(b) && a != b
            ==> module_funcs(m)[a] != module_funcs(m)[b]
}

/// Whether `id` is the index of a function declared in `m`.
pub open spec fn func_declared(m: ObjectModule, id: u32) -> bool {
    exists|n: Seq<char>| #[trigger] module_funcs(m).dom().contains(n) && module_funcs(m)[n] == id
}

/// `Module::declare_function`: on success `name` names a function of the
/// module with the id given back: an earlier declaration of that name keeps
/// its id, a new name gets an id of its own. Export linkage wins over import
/// linkage: the function is exported after the call if it was before or is
/// declared so now. The function's signature is `sig`: an earlier
/// declaration succeeds again only with an equal signature. A failure (an
/// invalid name, a data object of that name, an earlier declaration with
/// another signature) leaves the names and signatures as they were; the
/// linkage it leaves is not stated, since the earlier declaration takes the
/// merged linkage before the signatures are compared. No definition
/// changes.
#[verifier::external_body]
pub(crate) fn declare_function(m: &mut ObjectModule, name: &str, linkage: SymbolLinkage, sig: &Signature) -> (r: Result<u32, ModuleError>)
    ensures
        r matches Ok(id) ==> module_funcs(*final(m)) == module_funcs(*old(m)).insert(name@, id),
        r matches Ok(id) ==> (module_funcs(*old(m)).dom().contains(name@) ==> module_funcs(*old(m))[name@] == id),
        r matches Ok(id) ==> (!module_funcs(*old(m)).dom().contains(name@) ==> fresh_func(*old(m), id)),
        r matches Ok(id) ==> module_exported(*final(m)) == (if linkage is Export {
            module_exported(*old(m)).insert(id)
        } else {
            module_exported(*old(m))
        }),
        r is Ok ==> funcs_injective(*final(m)),
        r matches Ok(id) ==> module_sigs(*final(m)) == module_sigs(*old(m)).insert(id, (sig_params(*sig), sig_returns(*sig))),
        r matches Ok(id) ==> (module_funcs(*old(m)).dom().contains(name@)
            ==> module_sigs(*old(m))[id] == (sig_params(*sig), sig_returns(*sig))),
        r is Err ==> module_funcs(*final(m)) == module_funcs(*old(m)),
        r is Err ==> module_sigs(*final(m)) == module_sigs(*old(m)),
        module_defined(*final(m)) == module_defined(*old(m)),
{
    let linkage = match linkage {
        SymbolLinkage::Import => Linkage::Import,
        SymbolLinkage::Export => Linkage::Export,
    };
    match m.declare_function(name, linkage, sig) {
        Ok(id) => Ok(id.as_u32()),
        Err(e) => Err(e),
    }
}

/// `Module::get_name`, when the name is that of a function: the index of
/// its id.
#[verifier::external_body]
pub(crate) fn function_id(m: &ObjectModule, name: &str) -> (r: Option<u32>)
    ensures
        match r {
            Some(id) => module_funcs(*m).dom().contains(name@) && module_funcs(*m)[name@] == id,
            None => !module_funcs(*m).dom().contains(name@),
        },
{
    match m.get_name(name) {
        Some(FuncOrDataId::Func(id)) => Some(id.as_u32()),
        _ => None,
    }
}

/// The signature with which function `id` was declared
/// (`ModuleDeclarations::get_function_decl`, which panics on an id the
/// module did not give).
#[verifier::external_body]
pub(crate) fn declared_signature(m: &ObjectModule, id: u32) -> (r: Signature)
    requires
        func_declared(*m, id),
    ensures
        module_sigs(*m)[id] == (sig_params(r), sig_returns(r)),
{
    m.declarations().get_function_decl(FuncId::from_u32(id)).signature.clone()
}

/// `Function::clear` on the function of a context.
#[verifier::external_body]
pub(crate) fn clear_function(ctx: &mut Context) {
    ctx.func.clear();
}

/// Sets the signature of the function of a context.
#[verifier::external_body]
pub(crate) fn set_function_signature(ctx: &mut Context, sig: Signature) {
    ctx.func.signature = sig;
}

/// The block a builder appends to (`FunctionBuilder::current_block`), by
/// index; `None` before the first `switch_to_block`.
pub uninterp spec fn fb_current(b: FunctionBuilder) -> Option<u32>;

/// The indices of the blocks made with `create_block` on a builder.
pub uninterp spec fn fb_blocks(b: FunctionBuilder) -> Set<u32>;

/// The indices of the blocks that end in a terminator instruction (the
/// builder's status `Filled`): no instruction can be appended to them.
pub uninterp spec fn fb_filled(b: FunctionBuilder) -> Set<u32>;

/// The indices of the sealed blocks: no branch to them can be added.
pub uninterp spec fn fb_sealed(b: FunctionBuilder) -> Set<u32>;

/// The indices of the variables declared on a builder.
pub uninterp spec fn fb_vars(b: FunctionBuilder) -> Set<u32>;

/// An instruction that the backend emits, by its opcode; the immediate of an
/// integer constant, the offset into a stack slot and the condition of a
/// comparison are kept.
pub enum Op {
    Iconst(i64),
    Iadd,
    Isub,
    Imul,
    Sdiv,
    Srem,
    Compare(Comparison),
    Uextend,
    StackStore(i32),
    StackLoad(i32),
    StackAddr(i32),
    Store,
    Load,
    SymbolValue,
    FuncAddr,
    Call,
    CallIndirect,
    Return,
    Brif,
    Jump,
}

/// The instructions built with `FunctionBuilder::ins` on a builder, in the
/// order they were built.
pub uninterp spec fn fb_ops(b: FunctionBuilder) -> Seq<Op>;

/// The indices (`Value::as_u32`) of the values of the function being built.
pub uninterp spec fn fb_values(b: FunctionBuilder) -> Set<u32>;

/// The indices (`FuncRef::as_u32`) of the functions imported into the
/// function being built.
pub uninterp spec fn fb_funcs(b: FunctionBuilder) -> Set<u32>;

/// The indices (`SigRef::as_u32`) of the signatures imported into the
/// function being built.
pub uninterp spec fn fb_sigs(b: FunctionBuilder) -> Set<u32>;

/// How a value was made, for the values that an arithmetic, comparison,
/// constant or load instruction of the backend made: the instruction with
/// the indices of its operands.
pub enum Def {
    Iconst(i64),
    Iadd(u32, u32),
    Isub(u32, u32),
    Imul(u32, u32),
    Sdiv(u32, u32),
    Srem(u32, u32),
    Icmp(Comparison, u32, u32),
    Uextend(u32),
    Load(u32, i32),
    Symbol(u32),
}

/// The values of a builder that an instruction of `Def` made, each with that
/// instruction; `Symbol` is the address of the data object of that index.
pub uninterp spec fn fb_defs(b: FunctionBuilder) -> Map<u32, Def>;

/// How a block ends: `brif` on a condition value to the block taken when
/// it is not zero or to the block taken when it is zero, `jump` to a block,
/// or `return` of no value or of one value.
pub enum Term {
    Brif(u32, u32, u32),
    Jump(u32),
    Return(Option<u32>),
}

/// The terminator of each block of a builder that ends in one, by the
/// block's index.
pub uninterp spec fn fb_terms(b: FunctionBuilder) -> Map<u32, Term>;

/// For each block of a builder that ends in a terminator, the number of
/// instructions built before that terminator.
pub uninterp spec fn fb_term_at(b: FunctionBuilder) -> Map<u32, nat>;

/// The blocks a builder was switched to, each under the number of
/// instructions built before the switch: the instructions from there on, up
/// to the next switch, go to that block.
pub uninterp spec fn fb_entries(b: FunctionBuilder) -> Map<nat, u32>;

/// The global values of a builder's function that stand for data objects:
/// the index of each (`GlobalValue::as_u32`) with that of the data object.
pub uninterp spec fn fb_globals(b: FunctionBuilder) -> Map<u32, u32>;

/// The `store` instructions of a builder, each under the number of
/// instructions built before it, with the value stored, the address and the
/// offset.
pub uninterp spec fn fb_stores(b: FunctionBuilder) -> Map<nat, (u32, u32, i32)>;

/// The `stack_store` instructions of a builder, each under the number of
/// instructions built before it, with the value stored and the offset into
/// the slot.
pub uninterp spec fn fb_slot_stores(b: FunctionBuilder) -> Map<nat, (u32, i32)>;

/// `z` has every value, imported function and signature of `a`, every value
/// of `a` keeps how it was made, every block of `a` that ends in a
/// terminator keeps it, every switch and store of `a` stays recorded, and
/// `z` has at least as many instructions.
pub open spec fn fb_grown(z: FunctionBuilder, a: FunctionBuilder) -> bool {
    &&& fb_values(a).subset_of(fb_values(z))
    &&& fb_funcs(a).subset_of(fb_funcs(z))
    &&& fb_sigs(a).subset_of(fb_sigs(z))
    &&& fb_defs(a).submap_of(fb_defs(z))
    &&& fb_terms(a).submap_of(fb_terms(z))
    &&& fb_term_at(a).submap_of(fb_term_at(z))
    &&& fb_entries(a).submap_of(fb_entries(z))
    &&& fb_stores(a).submap_of(fb_stores(z))
    &&& fb_globals(a).submap_of(fb_globals(z))
    &&& fb_slot_stores(a).submap_of(fb_slot_stores(z))
    &&& fb_ops(a).len() <= fb_ops(z).len()
}

/// `z` has the value `r`, which `a` had not.
pub open spec fn fb_new_value(z: FunctionBuilder, a: FunctionBuilder, r: u32) -> bool {
    &&& !fb_values(a).contains(r)
    &&& fb_values(z).contains(r)
}

/// Whether a function builder context holds no state of an earlier
/// function (`FunctionBuilderContext::is_empty`).
pub uninterp spec fn fbc_empty(c: FunctionBuilderContext) -> bool;

/// The bytes a data description was defined with, `None` while it is not
/// defined.
pub uninterp spec fn data_contents(d: DataDescription) -> Option<Seq<u8>>;

/// The builder appends to a block of its own that has no terminator yet.
pub open spec fn fb_ready(b: FunctionBuilder) -> bool {
    fb_current(b) matches Some(c) && fb_blocks(b).contains(c) && !fb_filled(b).contains(c)
}

/// `z` and `a` agree on the current block, the blocks, the filled and sealed
/// blocks and the declared variables.
pub open spec fn fb_unchanged(z: FunctionBuilder, a: FunctionBuilder) -> bool {
    &&& fb_current(z) == fb_current(a)
    &&& fb_blocks(z) == fb_blocks(a)
    &&& fb_filled(z) == fb_filled(a)
    &&& fb_sealed(z) == fb_sealed(a)
    &&& fb_vars(z) == fb_vars(a)
    &&& fb_grown(z, a)
}

/// `z` is `a` after a terminator instruction in the current block: that block
/// is filled, nothing else changes.
pub open spec fn fb_terminated(z: FunctionBuilder, a: FunctionBuilder) -> bool {
    &&& fb_current(z) == fb_current(a)
    &&& fb_blocks(z) == fb_blocks(a)
    &&& fb_filled(z) == fb_filled(a).insert(fb_current(a)->0)
    &&& fb_sealed(z) == fb_sealed(a)
    &&& fb_vars(z) == fb_vars(a)
    &&& fb_grown(z, a)
}

/// `FunctionBuilder::new` on the function of `ctx`. Its debug assertion
/// wants a context that holds nothing; the new builder has made no block,
/// declared no variable and is not positioned in any block.
#[verifier::external_body]
pub(crate) fn new_function_builder<'a>(ctx: &'a mut Context, fctx: &'a mut FunctionBuilderContext) -> (r: FunctionBuilder<'a>)
    requires
        fbc_empty(*old(fctx)),
    ensures
        fb_current(r) is None,
        fb_blocks(r) == Set::<u32>::empty(),
        fb_filled(r) == Set::<u32>::empty(),
        fb_sealed(r) == Set::<u32>::empty(),
        fb_vars(r) == Set::<u32>::empty(),
        fb_ops(r) == Seq::<Op>::empty(),
{
    FunctionBuilder::new(&mut ctx.func, fctx)
}

/// `FunctionBuilder::create_block`, giving the new block's index (`as_u32`):
/// a block not made before, neither filled nor sealed.
#[verifier::external_body]
pub(crate) fn create_block(b: &mut FunctionBuilder) -> (r: u32)
    ensures
        r < u32::MAX,
        !fb_blocks(*old(b)).contains(r),
        !fb_filled(*old(b)).contains(r),
        !fb_sealed(*old(b)).contains(r),
        fb_blocks(*final(b)) == fb_blocks(*old(b)).insert(r),
        fb_current(*final(b)) == fb_current(*old(b)),
        fb_filled(*final(b)) == fb_filled(*old(b)),
        fb_sealed(*final(b)) == fb_sealed(*old(b)),
        fb_vars(*final(b)) == fb_vars(*old(b)),
        fb_ops(*final(b)) == fb_ops(*old(b)),
        fb_grown(*final(b), *old(b)),
{
    b.create_block().as_u32()
}

/// `FunctionBuilder::append_block_params_for_function_params` on the block
/// of index `block`. Its debug assertions want a block without instructions
/// or predecessors, which every block is before the builder is positioned.
#[verifier::external_body]
pub(crate) fn append_function_params(b: &mut FunctionBuilder, block: u32)
    requires
        fb_current(*old(b)) is None,
        block < u32::MAX,
        fb_blocks(*old(b)).contains(block),
    ensures
        fb_unchanged(*final(b), *old(b)),
        fb_ops(*final(b)) == fb_ops(*old(b)),
{
    b.append_block_params_for_function_params(Block::from_u32(block))
}

/// `FunctionBuilder::switch_to_block` to the block of index `block`. Its
/// debug assertions want the block left to be filled (or the builder not yet
/// positioned) and the block entered not to be filled.
#[verifier::external_body]
pub(crate) fn switch_to_block(b: &mut FunctionBuilder, block: u32)
    requires
        block < u32::MAX,
        fb_blocks(*old(b)).contains(block),
        !fb_filled(*old(b)).contains(block),
        fb_current(*old(b)) matches Some(c) ==> fb_filled(*old(b)).contains(c),
    ensures
        fb_current(*final(b)) == Some(block),
        !fb_entries(*old(b)).dom().contains(fb_ops(*old(b)).len()),
        fb_entries(*final(b)) == fb_entries(*old(b)).insert(fb_ops(*old(b)).len(), block),
        fb_blocks(*final(b)) == fb_blocks(*old(b)),
        fb_filled(*final(b)) == fb_filled(*old(b)),
        fb_sealed(*final(b)) == fb_sealed(*old(b)),
        fb_vars(*final(b)) == fb_vars(*old(b)),
        fb_ops(*final(b)) == fb_ops(*old(b)),
        fb_grown(*final(b), *old(b)),
{
    b.switch_to_block(Block::from_u32(block))
}

/// `FunctionBuilder::seal_all_blocks`: every block is sealed afterwards.
#[verifier::external_body]
pub(crate) fn seal_all_blocks(b: &mut FunctionBuilder)
    ensures
        fb_blocks(*final(b)).subset_of(fb_sealed(*final(b))),
        fb_current(*final(b)) == fb_current(*old(b)),
        fb_blocks(*final(b)) == fb_blocks(*old(b)),
        fb_filled(*final(b)) == fb_filled(*old(b)),
        fb_vars(*final(b)) == fb_vars(*old(b)),
        fb_ops(*final(b)) == fb_ops(*old(b)),
        fb_grown(*final(b), *old(b)),
{
    b.seal_all_blocks()
}

/// The `i`-th parameter of the block of index `block`
/// (`FunctionBuilder::block_params`), if any: a value of the builder.
#[verifier::external_body]
pub(crate) fn block_param(b: &FunctionBuilder, block: u32, i: usize) -> (r: Option<u32>)
    requires
        block < u32::MAX,
        fb_blocks(*b).contains(block),
    ensures
        r matches Some(v) ==> fb_values(*b).contains(v),
{
    match b.block_params(Block::from_u32(block)).get(i) {
        Some(v) => Some(v.as_u32()),
        None => None,
    }
}

/// `FunctionBuilder::try_declare_var` for the variable of index `var`:
/// `false` exactly when it was declared before. On success the variable is
/// declared.
#[verifier::external_body]
pub(crate) fn declare_var(b: &mut FunctionBuilder, var: u32, ty: Type) -> (r: bool)
    requires
        var < u32::MAX,
    ensures
        r == !fb_vars(*old(b)).contains(var),
        r ==> fb_vars(*final(b)) == fb_vars(*old(b)).insert(var),
        !r ==> fb_vars(*final(b)) == fb_vars(*old(b)),
        fb_current(*final(b)) == fb_current(*old(b)),
        fb_blocks(*final(b)) == fb_blocks(*old(b)),
        fb_filled(*final(b)) == fb_filled(*old(b)),
        fb_sealed(*final(b)) == fb_sealed(*old(b)),
        fb_ops(*final(b)) == fb_ops(*old(b)),
        fb_grown(*final(b), *old(b)),
{
    b.try_declare_var(Variable::from_u32(var), ty).is_ok()
}

/// `FunctionBuilder::try_def_var` for the variable of index `var`: `false`
/// when the variable is not declared or the value's type is not its type.
/// It needs the builder to be positioned in a block.
#[verifier::external_body]
pub(crate) fn def_var(b: &mut FunctionBuilder, var: u32, val: u32) -> (r: bool)
    requires
        var < u32::MAX,
        fb_current(*old(b)) is Some,
        fb_values(*old(b)).contains(val),
    ensures
        fb_unchanged(*final(b), *old(b)),
        fb_ops(*final(b)) == fb_ops(*old(b)),
{
    b.try_def_var(Variable::from_u32(var), Value::from_u32(val)).is_ok()
}

/// `FunctionBuilder::try_use_var` for the variable of index `var`, which
/// must be declared; the builder must be positioned in a block without a
/// terminator. A declared variable always has a value there.
#[verifier::external_body]
pub(crate) fn use_var(b: &mut FunctionBuilder, var: u32) -> (r: Option<u32>)
    requires
        var < u32::MAX,
        fb_ready(*old(b)),
        fb_vars(*old(b)).contains(var),
    ensures
        r is Some,
        r matches Some(v) ==> fb_values(*final(b)).contains(v),
        fb_unchanged(*final(b), *old(b)),
        fb_ops(*final(b)) == fb_ops(*old(b)),
{
    match b.try_use_var(Variable::from_u32(var)) {
        Ok(v) => Some(v.as_u32()),
        Err(_) => None,
    }
}

/// `StackSlotData::new` for an explicit slot of `size` bytes.
#[verifier::external_body]
pub(crate) fn explicit_slot(size: u32) -> StackSlotData {
    StackSlotData::new(StackSlotKind::ExplicitSlot, size)
}

#[verifier::external_type_specification]
#[verifier::external_body]
pub struct ExStackSlotData(StackSlotData);

/// `FunctionBuilder::create_sized_stack_slot`.
#[verifier::external_body]
pub(crate) fn create_stack_slot(b: &mut FunctionBuilder, data: StackSlotData) -> (r: StackSlot)
    ensures
        fb_unchanged(*final(b), *old(b)),
        fb_ops(*final(b)) == fb_ops(*old(b)),
{
    b.create_sized_stack_slot(data)
}

/// `MemFlags::new`: no special memory flags.
#[verifier::external_body]
pub(crate) fn plain_mem_flags() -> MemFlags {
    MemFlags::new()
}

#[verifier::external_type_specification]
#[verifier::external_body]
pub struct ExMemFlags(MemFlags);

/// Emits `stack_store` of the value `val`, which belongs to the builder.
#[verifier::external_body]
pub(crate) fn ins_stack_store(b: &mut FunctionBuilder, val: u32, slot: StackSlot, offset: i32)
    requires
        fb_ready(*old(b)),
        fb_values(*old(b)).contains(val),
    ensures
        fb_unchanged(*final(b), *old(b)),
        !fb_slot_stores(*old(b)).dom().contains(fb_ops(*old(b)).len()),
        fb_slot_stores(*final(b)) == fb_slot_stores(*old(b)).insert(fb_ops(*old(b)).len(), (val, offset)),
        fb_ops(*final(b)) == fb_ops(*old(b)).push(Op::StackStore(offset)),
{
    b.ins().stack_store(Value::from_u32(val), slot, offset);
}

/// Emits `stack_load`; the result is a new value.
#[verifier::external_body]
pub(crate) fn ins_stack_load(b: &mut FunctionBuilder, ty: Type, slot: StackSlot, offset: i32) -> (r: u32)
    requires
        fb_ready(*old(b)),
    ensures
        fb_unchanged(*final(b), *old(b)),
        fb_values(*final(b)).contains(r),
        fb_ops(*final(b)) == fb_ops(*old(b)).push(Op::StackLoad(offset)),
{
    b.ins().stack_load(ty, slot, offset).as_u32()
}

/// Emits `stack_addr`; the result is a new value.
#[verifier::external_body]
pub(crate) fn ins_stack_addr(b: &mut FunctionBuilder, ty: Type, slot: StackSlot, offset: i32) -> (r: u32)
    requires
        fb_ready(*old(b)),
    ensures
        fb_unchanged(*final(b), *old(b)),
        fb_values(*final(b)).contains(r),
        fb_ops(*final(b)) == fb_ops(*old(b)).push(Op::StackAddr(offset)),
{
    b.ins().stack_addr(ty, slot, offset).as_u32()
}

/// Emits `iconst`; the result is a new value.
#[verifier::external_body]
pub(crate) fn ins_iconst(b: &mut FunctionBuilder, ty: Type, imm: i64) -> (r: u32)
    requires
        fb_ready(*old(b)),
    ensures
        fb_unchanged(*final(b), *old(b)),
        fb_new_value(*final(b), *old(b), r),
        !fb_defs(*old(b)).dom().contains(r),
        fb_defs(*final(b)) == fb_defs(*old(b)).insert(r, Def::Iconst(imm)),
        fb_ops(*final(b)) == fb_ops(*old(b)).push(Op::Iconst(imm)),
{
    b.ins().iconst(ty, imm).as_u32()
}

/// Emits `return_` with the given values, at most one, which belong to the
/// builder.
#[verifier::external_body]
pub(crate) fn ins_return(b: &mut FunctionBuilder, vals: &[u32])
    requires
        fb_ready(*old(b)),
        vals@.len() <= 1,
        forall|k: int| 0 <= k < vals@.len() ==> fb_values(*old(b)).contains(#[trigger] vals@[k]),
    ensures
        fb_terminated(*final(b), *old(b)),
        !fb_terms(*old(b)).dom().contains(fb_current(*old(b))->0),
        fb_terms(*final(b)) == fb_terms(*old(b)).insert(
            fb_current(*old(b))->0,
            Term::Return(if vals@.len() == 0 { None } else { Some(vals@[0]) }),
        ),
        !fb_term_at(*old(b)).dom().contains(fb_current(*old(b))->0),
        fb_term_at(*final(b)) == fb_term_at(*old(b)).insert(fb_current(*old(b))->0, fb_ops(*old(b)).len()),
        fb_entries(*final(b)) == fb_entries(*old(b)),
        fb_ops(*final(b)) == fb_ops(*old(b)).push(Op::Return),
{
    let vs: Vec<Value> = vals.iter().map(|v| Value::from_u32(*v)).collect();
    b.ins().return_(&vs);
}

/// Emits `brif` on the value `cond`, which belongs to the builder, to the
/// blocks of index `then_block` or `else_block`, with no block arguments. A
/// branch may not target a sealed block.
#[verifier::external_body]
pub(crate) fn ins_brif(b: &mut FunctionBuilder, cond: u32, then_block: u32, else_block: u32)
    requires
        fb_ready(*old(b)),
        fb_values(*old(b)).contains(cond),
        then_block < u32::MAX,
        else_block < u32::MAX,
        !fb_sealed(*old(b)).contains(then_block),
        !fb_sealed(*old(b)).contains(else_block),
    ensures
        fb_terminated(*final(b), *old(b)),
        !fb_terms(*old(b)).dom().contains(fb_current(*old(b))->0),
        fb_terms(*final(b)) == fb_terms(*old(b)).insert(fb_current(*old(b))->0, Term::Brif(cond, then_block, else_block)),
        !fb_term_at(*old(b)).dom().contains(fb_current(*old(b))->0),
        fb_term_at(*final(b)) == fb_term_at(*old(b)).insert(fb_current(*old(b))->0, fb_ops(*old(b)).len()),
        fb_entries(*final(b)) == fb_entries(*old(b)),
        fb_ops(*final(b)) == fb_ops(*old(b)).push(Op::Brif),
{
    b.ins().brif(Value::from_u32(cond), Block::from_u32(then_block), &[], Block::from_u32(else_block), &[]);
}

/// Emits `jump` to the block of index `block`, with no block arguments. A
/// branch may not target a sealed block.
#[verifier::external_body]
pub(crate) fn ins_jump(b: &mut FunctionBuilder, block: u32)
    requires
        fb_ready(*old(b)),
        block < u32::MAX,
        !fb_sealed(*old(b)).contains(block),
    ensures
        fb_terminated(*final(b), *old(b)),
        !fb_terms(*old(b)).dom().contains(fb_current(*old(b))->0),
        fb_terms(*final(b)) == fb_terms(*old(b)).insert(fb_current(*old(b))->0, Term::Jump(block)),
        !fb_term_at(*old(b)).dom().contains(fb_current(*old(b))->0),
        fb_term_at(*final(b)) == fb_term_at(*old(b)).insert(fb_current(*old(b))->0, fb_ops(*old(b)).len()),
        fb_entries(*final(b)) == fb_entries(*old(b)),
        fb_ops(*final(b)) == fb_ops(*old(b)).push(Op::Jump),
{
    b.ins().jump(Block::from_u32(block), &[]);
}

/// Emits `iadd` of the values `x` and `y`, which belong to the builder;
/// the result is a new value.
#[verifier::external_body]
pub(crate) fn ins_iadd(b: &mut FunctionBuilder, x: u32, y: u32) -> (r: u32)
    requires
        fb_ready(*old(b)),
        fb_values(*old(b)).contains(x),
        fb_values(*old(b)).contains(y),
    ensures
        fb_unchanged(*final(b), *old(b)),
        fb_new_value(*final(b), *old(b), r),
        !fb_defs(*old(b)).dom().contains(r),
        fb_defs(*final(b)) == fb_defs(*old(b)).insert(r, Def::Iadd(x, y)),
        fb_ops(*final(b)) == fb_ops(*old(b)).push(Op::Iadd),
{
    b.ins().iadd(Value::from_u32(x), Value::from_u32(y)).as_u32()
}

/// Emits `isub` of the values `x` and `y`, which belong to the builder;
/// the result is a new value.
#[verifier::external_body]
pub(crate) fn ins_isub(b: &mut FunctionBuilder, x: u32, y: u32) -> (r: u32)
    requires
        fb_ready(*old(b)),
        fb_values(*old(b)).contains(x),
        fb_values(*old(b)).contains(y),
    ensures
        fb_unchanged(*final(b), *old(b)),
        fb_new_value(*final(b), *old(b), r),
        !fb_defs(*old(b)).dom().contains(r),
        fb_defs(*final(b)) == fb_defs(*old(b)).insert(r, Def::Isub(x, y)),
        fb_ops(*final(b)) == fb_ops(*old(b)).push(Op::Isub),
{
    b.ins().isub(Value::from_u32(x), Value::from_u32(y)).as_u32()
}

/// Emits `imul` of the values `x` and `y`, which belong to the builder;
/// the result is a new value.
#[verifier::external_body]
pub(crate) fn ins_imul(b: &mut FunctionBuilder, x: u32, y: u32) -> (r: u32)
    requires
        fb_ready(*old(b)),
        fb_values(*old(b)).contains(x),
        fb_values(*old(b)).contains(y),
    ensures
        fb_unchanged(*final(b), *old(b)),
        fb_new_value(*final(b), *old(b), r),
        !fb_defs(*old(b)).dom().contains(r),
        fb_defs(*final(b)) == fb_defs(*old(b)).insert(r, Def::Imul(x, y)),
        fb_ops(*final(b)) == fb_ops(*old(b)).push(Op::Imul),
{
    b.ins().imul(Value::from_u32(x), Value::from_u32(y)).as_u32()
}

/// Emits `sdiv` of the values `x` and `y`, which belong to the builder;
/// the result is a new value.
#[verifier::external_body]
pub(crate) fn ins_sdiv(b: &mut FunctionBuilder, x: u32, y: u32) -> (r: u32)
    requires
        fb_ready(*old(b)),
        fb_values(*old(b)).contains(x),
        fb_values(*old(b)).contains(y),
    ensures
        fb_unchanged(*final(b), *old(b)),
        fb_new_value(*final(b), *old(b), r),
        !fb_defs(*old(b)).dom().contains(r),
        fb_defs(*final(b)) == fb_defs(*old(b)).insert(r, Def::Sdiv(x, y)),
        fb_ops(*final(b)) == fb_ops(*old(b)).push(Op::Sdiv),
{
    b.ins().sdiv(Value::from_u32(x), Value::from_u32(y)).as_u32()
}

/// Emits `srem` of the values `x` and `y`, which belong to the builder;
/// the result is a new value.
#[verifier::external_body]
pub(crate) fn ins_srem(b: &mut FunctionBuilder, x: u32, y: u32) -> (r: u32)
    requires
        fb_ready(*old(b)),
        fb_values(*old(b)).contains(x),
        fb_values(*old(b)).contains(y),
    ensures
        fb_unchanged(*final(b), *old(b)),
        fb_new_value(*final(b), *old(b), r),
        !fb_defs(*old(b)).dom().contains(r),
        fb_defs(*final(b)) == fb_defs(*old(b)).insert(r, Def::Srem(x, y)),
        fb_ops(*final(b)) == fb_ops(*old(b)).push(Op::Srem),
{
    b.ins().srem(Value::from_u32(x), Value::from_u32(y)).as_u32()
}

/// Emits `icmp` with the given comparison of the values `x` and `y`, which
/// belong to the builder; the result is a new value.
#[verifier::external_body]
pub(crate) fn ins_icmp(b: &mut FunctionBuilder, cmp: Comparison, x: u32, y: u32) -> (r: u32)
    requires
        fb_ready(*old(b)),
        fb_values(*old(b)).contains(x),
        fb_values(*old(b)).contains(y),
    ensures
        fb_unchanged(*final(b), *old(b)),
        fb_new_value(*final(b), *old(b), r),
        !fb_defs(*old(b)).dom().contains(r),
        fb_defs(*final(b)) == fb_defs(*old(b)).insert(r, Def::Icmp(cmp, x, y)),
        fb_ops(*final(b)) == fb_ops(*old(b)).push(Op::Compare(cmp)),
{
    let cc = match cmp {
        Comparison::Equal => IntCC::Equal,
        Comparison::NotEqual => IntCC::NotEqual,
        Comparison::SignedLess => IntCC::SignedLessThan,
        Comparison::SignedGreater => IntCC::SignedGreaterThan,
        Comparison::SignedLessOrEqual => IntCC::SignedLessThanOrEqual,
        Comparison::SignedGreaterOrEqual => IntCC::SignedGreaterThanOrEqual,
    };
    b.ins().icmp(cc, Value::from_u32(x), Value::from_u32(y)).as_u32()
}

/// Emits `uextend` to `ty` of the value `x`, which belongs to the builder;
/// the result is a new value.
#[verifier::external_body]
pub(crate) fn ins_uextend(b: &mut FunctionBuilder, ty: Type, x: u32) -> (r: u32)
    requires
        fb_ready(*old(b)),
        fb_values(*old(b)).contains(x),
    ensures
        fb_unchanged(*final(b), *old(b)),
        fb_new_value(*final(b), *old(b), r),
        !fb_defs(*old(b)).dom().contains(r),
        fb_defs(*final(b)) == fb_defs(*old(b)).insert(r, Def::Uextend(x)),
        fb_ops(*final(b)) == fb_ops(*old(b)).push(Op::Uextend),
{
    b.ins().uextend(ty, Value::from_u32(x)).as_u32()
}

/// Emits `store` of the value `val` at the address `addr` plus `offset`;
/// both values belong to the builder.
#[verifier::external_body]
pub(crate) fn ins_store(b: &mut FunctionBuilder, flags: MemFlags, val: u32, addr: u32, offset: i32)
    requires
        fb_ready(*old(b)),
        fb_values(*old(b)).contains(val),
        fb_values(*old(b)).contains(addr),
    ensures
        fb_unchanged(*final(b), *old(b)),
        !fb_stores(*old(b)).dom().contains(fb_ops(*old(b)).len()),
        fb_stores(*final(b)) == fb_stores(*old(b)).insert(fb_ops(*old(b)).len(), (val, addr, offset)),
        fb_ops(*final(b)) == fb_ops(*old(b)).push(Op::Store),
{
    b.ins().store(flags, Value::from_u32(val), Value::from_u32(addr), offset);
}

/// Emits `load` from the address `addr` plus `offset`; `addr` belongs to the
/// builder and the result is a new value.
#[verifier::external_body]
pub(crate) fn ins_load(b: &mut FunctionBuilder, ty: Type, flags: MemFlags, addr: u32, offset: i32) -> (r: u32)
    requires
        fb_ready(*old(b)),
        fb_values(*old(b)).contains(addr),
    ensures
        fb_unchanged(*final(b), *old(b)),
        fb_new_value(*final(b), *old(b), r),
        !fb_defs(*old(b)).dom().contains(r),
        fb_defs(*final(b)) == fb_defs(*old(b)).insert(r, Def::Load(addr, offset)),
        fb_ops(*final(b)) == fb_ops(*old(b)).push(Op::Load),
{
    b.ins().load(ty, flags, Value::from_u32(addr), offset).as_u32()
}

/// Emits `symbol_value` of the global value `gv` of the builder, which
/// stands for a data object; the result is a new value, its address.
#[verifier::external_body]
pub(crate) fn ins_symbol_value(b: &mut FunctionBuilder, ty: Type, gv: u32) -> (r: u32)
    requires
        fb_ready(*old(b)),
        fb_globals(*old(b)).dom().contains(gv),
    ensures
        fb_unchanged(*final(b), *old(b)),
        fb_new_value(*final(b), *old(b), r),
        !fb_defs(*old(b)).dom().contains(r),
        fb_defs(*final(b)) == fb_defs(*old(b)).insert(r, Def::Symbol(fb_globals(*old(b))[gv])),
        fb_ops(*final(b)) == fb_ops(*old(b)).push(Op::SymbolValue),
{
    b.ins().symbol_value(ty, GlobalValue::from_u32(gv)).as_u32()
}

/// Emits `func_addr` of the imported function `f`; the result is a new
/// value.
#[verifier::external_body]
pub(crate) fn ins_func_addr(b: &mut FunctionBuilder, ty: Type, f: u32) -> (r: u32)
    requires
        fb_ready(*old(b)),
        fb_funcs(*old(b)).contains(f),
    ensures
        fb_unchanged(*final(b), *old(b)),
        fb_values(*final(b)).contains(r),
        fb_ops(*final(b)) == fb_ops(*old(b)).push(Op::FuncAddr),
{
    b.ins().func_addr(ty, FuncRef::from_u32(f)).as_u32()
}

/// Emits `call` of the imported function `f` with the given values, which
/// belong to the builder.
#[verifier::external_body]
pub(crate) fn ins_call(b: &mut FunctionBuilder, f: u32, args: &[u32]) -> (r: Inst)
    requires
        fb_ready(*old(b)),
        fb_funcs(*old(b)).contains(f),
        forall|k: int| 0 <= k < args@.len() ==> fb_values(*old(b)).contains(#[trigger] args@[k]),
    ensures
        fb_unchanged(*final(b), *old(b)),
        fb_ops(*final(b)) == fb_ops(*old(b)).push(Op::Call),
{
    let vs: Vec<Value> = args.iter().map(|v| Value::from_u32(*v)).collect();
    b.ins().call(FuncRef::from_u32(f), &vs)
}

/// Emits `call_indirect` with the imported signature `sig` of the callee
/// address `callee` and the given values; all values belong to the builder.
#[verifier::external_body]
pub(crate) fn ins_call_indirect(b: &mut FunctionBuilder, sig: u32, callee: u32, args: &[u32]) -> (r: Inst)
    requires
        fb_ready(*old(b)),
        fb_sigs(*old(b)).contains(sig),
        fb_values(*old(b)).contains(callee),
        forall|k: int| 0 <= k < args@.len() ==> fb_values(*old(b)).contains(#[trigger] args@[k]),
    ensures
        fb_unchanged(*final(b), *old(b)),
        fb_ops(*final(b)) == fb_ops(*old(b)).push(Op::CallIndirect),
{
    let vs: Vec<Value> = args.iter().map(|v| Value::from_u32(*v)).collect();
    b.ins().call_indirect(SigRef::from_u32(sig), Value::from_u32(callee), &vs)
}

/// The first result of an instruction (`FunctionBuilder::inst_results`), if
/// any: a value of the builder.
#[verifier::external_body]
pub(crate) fn first_result(b: &FunctionBuilder, inst: Inst) -> (r: Option<u32>)
    ensures
        r matches Some(v) ==> fb_values(*b).contains(v),
{
    match b.inst_results(inst).first() {
        Some(v) => Some(v.as_u32()),
        None => None,
    }
}

/// `FunctionBuilder::import_signature`: the index of the new signature
/// reference.
#[verifier::external_body]
pub(crate) fn import_signature(b: &mut FunctionBuilder, sig: Signature) -> (r: u32)
    ensures
        fb_unchanged(*final(b), *old(b)),
        fb_sigs(*final(b)).contains(r),
        fb_ops(*final(b)) == fb_ops(*old(b)),
{
    b.import_signature(sig).as_u32()
}

/// The type of the value `v` of the builder (`DataFlowGraph::value_type`).
#[verifier::external_body]
pub(crate) fn value_type(b: &FunctionBuilder, v: u32) -> Type
    requires
        fb_values(*b).contains(v),
{
    b.func.dfg.value_type(Value::from_u32(v))
}

/// The names a module holds as data objects, each with the index of its
/// `DataId`.
pub uninterp spec fn module_data(m: ObjectModule) -> Map<Seq<char>, u32>;

/// The data objects a module has defined, by the index of their `DataId`,
/// with the bytes each holds.
pub uninterp spec fn module_data_bytes(m: ObjectModule) -> Map<u32, Seq<u8>>;

/// The data objects, by the index of their `DataId`, that a module declares
/// with export linkage.
pub uninterp spec fn module_data_exported(m: ObjectModule) -> Set<u32>;

/// Whether `id` is the index of a data object declared in `m`.
pub open spec fn data_declared(m: ObjectModule, id: u32) -> bool {
    exists|n: Seq<char>| #[trigger] module_data(m).dom().contains(n) && module_data(m)[n] == id
}

/// `Module::declare_data`: a read-only, not thread-local data object with
/// export linkage. On success `name` names a data object with the id given
/// back (an earlier declaration of that name keeps its id); a failure (a
/// name with a null byte, a function of that name) leaves the module's
/// names as they were. The names of functions and the defined data stay as
/// they were.
#[verifier::external_body]
pub(crate) fn declare_data(m: &mut ObjectModule, name: &str) -> (r: Result<u32, ModuleError>)
    ensures
        funcs_kept(*final(m), *old(m)),
        module_data_bytes(*final(m)) == module_data_bytes(*old(m)),
        r matches Ok(id) ==> module_data(*final(m)) == module_data(*old(m)).insert(name@, id),
        r matches Ok(id) ==> module_data_exported(*final(m)) == module_data_exported(*old(m)).insert(id),
        r is Err ==> module_data(*final(m)) == module_data(*old(m)),
        r is Err ==> module_data_exported(*final(m)) == module_data_exported(*old(m)),
{
    match m.declare_data(name, Linkage::Export, false, false) {
        Ok(id) => Ok(id.as_u32()),
        Err(e) => Err(e),
    }
}

/// `DataDescription::new`: a description not defined yet.
#[verifier::external_body]
pub(crate) fn new_data_description() -> (r: DataDescription)
    ensures
        data_contents(r) is None,
{
    DataDescription::new()
}

/// `DataDescription::define` with the given bytes; its debug assertion wants
/// a description not defined before.
#[verifier::external_body]
pub(crate) fn define_bytes(dc: &mut DataDescription, bytes: Vec<u8>)
    requires
        data_contents(*old(dc)) is None,
    ensures
        data_contents(*final(dc)) == Some(bytes@),
{
    dc.define(bytes.into_boxed_slice())
}

/// `Module::define_data`; it panics on a description that is not defined,
/// and on an id the module did not give. On success the data object `id`
/// holds the description's bytes; a failure (an object defined before)
/// leaves the defined data as it was. The names stay as they were.
#[verifier::external_body]
pub(crate) fn define_data(m: &mut ObjectModule, id: u32, dc: &DataDescription) -> (r: Result<(), ModuleError>)
    requires
        data_contents(*dc) is Some,
        data_declared(*old(m), id),
    ensures
        funcs_kept(*final(m), *old(m)),
        module_data(*final(m)) == module_data(*old(m)),
        module_data_exported(*final(m)) == module_data_exported(*old(m)),
        r is Ok ==> module_data_bytes(*final(m)) == module_data_bytes(*old(m)).insert(id, data_contents(*dc)->0),
        r is Err ==> module_data_bytes(*final(m)) == module_data_bytes(*old(m)),
{
    m.define_data(DataId::from_u32(id), dc)
}

/// `Module::declare_data_in_func` for the function being built; it panics
/// on an id the module did not give.
#[verifier::external_body]
pub(crate) fn declare_data_in_func(m: &ObjectModule, id: u32, b: &mut FunctionBuilder) -> (r: u32)
    requires
        data_declared(*m, id),
    ensures
        fb_unchanged(*final(b), *old(b)),
        !fb_globals(*old(b)).dom().contains(r),
        fb_globals(*final(b)) == fb_globals(*old(b)).insert(r, id),
        fb_ops(*final(b)) == fb_ops(*old(b)),
{
    m.declare_data_in_func(DataId::from_u32(id), b.func).as_u32()
}

/// `Module::declare_func_in_func` for the function being built; it panics
/// on an id the module did not give.
#[verifier::external_body]
pub(crate) fn declare_func_in_func(m: &mut ObjectModule, id: u32, b: &mut FunctionBuilder) -> (r: u32)
    requires
        func_declared(*old(m), id),
    ensures
        fb_unchanged(*final(b), *old(b)),
        funcs_kept(*final(m), *old(m)),
        module_data(*final(m)) == module_data(*old(m)),
        module_data_bytes(*final(m)) == module_data_bytes(*old(m)),
        fb_ops(*final(b)) == fb_ops(*old(b)),
        fb_funcs(*final(b)).contains(r),
{
    m.declare_func_in_func(FuncId::from_u32(id), b.func).as_u32()
}

/// `FunctionBuilder::finalize`; its debug assertions want every block
/// filled and sealed.
#[verifier::external_body]
pub(crate) fn finalize_builder(b: FunctionBuilder)
    requires
        fb_blocks(b).subset_of(fb_filled(b)),
        fb_blocks(b).subset_of(fb_sealed(b)),
{
    b.finalize()
}

/// `Module::define_function`: compiles the function of `ctx` as the body
/// of function `id`; it panics on an id the module did not give. On success
/// the module holds a definition of `id`; a failure (the code generator
/// refused the function, an imported function, one defined before) leaves
/// the definitions as they were. The names stay as they were.
#[verifier::external_body]
pub(crate) fn define_function(m: &mut ObjectModule, id: u32, ctx: &mut Context) -> (r: Result<(), ModuleError>)
    requires
        func_declared(*old(m), id),
    ensures
        module_funcs(*final(m)) == module_funcs(*old(m)),
        module_sigs(*final(m)) == module_sigs(*old(m)),
        module_exported(*final(m)) == module_exported(*old(m)),
        r is Ok ==> module_defined(*final(m)) == module_defined(*old(m)).insert(id),
        r is Err ==> module_defined(*final(m)) == module_defined(*old(m)),
        module_defined(*old(m)).contains(id) ==> r is Err,
{
    m.define_function(FuncId::from_u32(id), ctx)
}

/// `Module::clear_context`.
#[verifier::external_body]
pub(crate) fn clear_context(m: &ObjectModule, ctx: &mut Context) {
    m.clear_context(ctx)
}

/// The object file that a module gives (`ObjectModule::finish`, then
/// `ObjectProduct::emit`): its bytes, `None` when writing them fails.
pub uninterp spec fn object_bytes(m: ObjectModule) -> Option<Seq<u8>>;

/// `ObjectModule::finish` and then `ObjectProduct::emit`: the bytes of the
/// module's object file, `None` when writing them fails.
#[verifier::external_body]
pub(crate) fn emit_module(m: ObjectModule) -> (r: Option<Vec<u8>>)
    ensures
        match r {
            Some(v) => object_bytes(m) == Some(v@),
            None => object_bytes(m) is None,
        },
{
    m.finish().emit().ok()
}

} // verus!
