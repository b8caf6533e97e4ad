use vstd::prelude::*;
use crate::ast::{CelesteType, Program, Stmt, SpecStmt, stmts_view};
use crate::parser::type_of_name;
use crate::parser::string_to_celeste_type;
use crate::tokens::TokenType;
use cranelift::codegen::ir::StackSlot;

verus! {

/// The value that an association list holds for `k`: the one of its last entry
/// named `k`, if any.
pub open spec fn assoc_get<V>(e: Seq<(String, V)>, k: Seq<char>) -> Option<V>
    decreases e.len(),
{
    if e.len() == 0 {
        None
    } else if e.last().0@ == k {
        Some(e.last().1)
    } else {
        assoc_get(e.drop_last(), k)
    }
}

/// When `i` is the last position of `e` named `n`, `e` binds `n` to the
/// value at `i`, and replacing that value binds `n` to the new one and
/// leaves every other name as it was.
pub proof fn lemma_assoc_update<V>(e: Seq<(String, V)>, i: int, s: String, v: V, k: Seq<char>)
    requires
        0 <= i < e.len(),
        e[i].0@ == s@,
        forall|j: int| i < j < e.len() ==> e[j].0@ != s@,
    ensures
        assoc_get(e, s@) == Some(e[i].1),
        assoc_get(e.update(i, (s, v)), k) == if k == s@ { Some(v) } else { assoc_get(e, k) },
    decreases e.len(),
{
    let e2 = e.update(i, (s, v));
    if i == e.len() - 1 {
        assert(e2.drop_last() =~= e.drop_last());
    } else {
        assert(e2.drop_last() =~= e.drop_last().update(i, (s, v)));
        lemma_assoc_update(e.drop_last(), i, s, v, k);
    }
}

/// A finite map from names to values. Later entries shadow earlier ones, so
/// inserting never has to search.
pub struct NameMap<V> {
    pub entries: Vec<(String, V)>,
}

impl<V> View for NameMap<V> {
    type V = Map<Seq<char>, V>;

    open spec fn view(&self) -> Map<Seq<char>, V> {
        Map::new(
            |k: Seq<char>| assoc_get(self.entries@, k) is Some,
            |k: Seq<char>| assoc_get(self.entries@, k)->0,
        )
    }
}

/// A wrapper around `<str as PartialEq>::eq`: true exactly when both strings
/// hold the same characters.
#[verifier::external_body]
pub(crate) fn str_equal(a: &str, b: &str) -> (r: bool)
    ensures
        r == (a@ == b@),
{
    a == b
}

impl<V> NameMap<V> {
    pub fn new() -> (m: Self)
        ensures
            m@ == Map::<Seq<char>, V>::empty(),
    {
        let m = NameMap { entries: Vec::new() };
        assert(m@ =~= Map::<Seq<char>, V>::empty());
        m
    }

    /// Binds `name` to `value`, replacing any earlier binding of `name`.
    pub fn insert(&mut self, name: String, value: V)
        ensures
            final(self)@ == old(self)@.insert(name@, value),
    {
        let ghost k = name@;
        let ghost old_e = self.entries@;
        self.entries.push((name, value));
        proof {
            assert(self.entries@.drop_last() =~= old_e);
            assert(self@ =~= old(self)@.insert(k, value));
        }
    }

    /// The last position that holds `name`, if any.
    #[verifier::rlimit(40)]
    pub fn position(&self, name: &str) -> (r: Option<usize>)
        ensures
            match r {
                Some(i) => {
                    &&& i < self.entries@.len()
                    &&& self.entries@[i as int].0@ == name@
                    &&& forall|j: int| i < j < self.entries@.len() ==> self.entries@[j].0@ != name@
                },
                None => !self@.contains_key(name@),
            },
    {
        let mut i = self.entries.len();
        assert(self.entries@.take(i as int) =~= self.entries@);
        while i > 0
            invariant
                i <= self.entries@.len(),
                assoc_get(self.entries@, name@) == assoc_get(self.entries@.take(i as int), name@),
                forall|j: int| i <= j < self.entries@.len() ==> self.entries@[j].0@ != name@,
            decreases i,
        {
            assert(self.entries@.take(i as int).drop_last() =~= self.entries@.take(i - 1));
            if str_equal(self.entries[i - 1].0.as_str(), name) {
                return Some(i - 1);
            }
            i = i - 1;
        }
        None
    }

    /// The value bound to `name`, if any.
    #[verifier::rlimit(40)]
    pub fn get(&self, name: &str) -> (r: Option<&V>)
        ensures
            match r {
                Some(v) => self@.contains_key(name@) && *v == self@[name@],
                None => !self@.contains_key(name@),
            },
    {
        let mut i = self.entries.len();
        assert(self.entries@.take(i as int) =~= self.entries@);
        while i > 0
            invariant
                i <= self.entries@.len(),
                assoc_get(self.entries@, name@) == assoc_get(self.entries@.take(i as int), name@),
            decreases i,
        {
            let ghost t = self.entries@.take(i as int);
            assert(t.drop_last() =~= self.entries@.take(i - 1));
            if str_equal(self.entries[i - 1].0.as_str(), name) {
                return Some(&self.entries[i - 1].1);
            }
            i = i - 1;
        }
        None
    }
}

/// A local variable record.
pub struct Local {
    pub ty: CelesteType,
    pub is_mutable: bool,
}

/// What is known of a variable in scope: its type, whether it may be
/// reassigned, and where the backend keeps it: in a stack slot and/or in
/// the Cranelift variable of the given index.
pub struct VariableInfo {
    pub stack_slot: Option<StackSlot>,
    pub var_type: CelesteType,
    pub is_mutable: bool,
    pub cranelift_var: Option<u32>,
}


/// What a call of a function needs to know of it.
pub struct FunctionInfo {
    pub params: Vec<CelesteType>,
    pub return_type: CelesteType,
    pub is_variadic: bool,
}

/// The mathematical value of a [`FunctionInfo`].
pub struct FunctionSig {
    pub params: Seq<CelesteType>,
    pub return_type: CelesteType,
    pub is_variadic: bool,
}

impl FunctionInfo {
    pub open spec fn sig(self) -> FunctionSig {
        FunctionSig { params: self.params@, return_type: self.return_type, is_variadic: self.is_variadic }
    }
}

/// The signatures in a function table.
pub open spec fn sigs(m: Map<Seq<char>, FunctionInfo>) -> Map<Seq<char>, FunctionSig> {
    Map::new(|k: Seq<char>| m.contains_key(k), |k: Seq<char>| m[k].sig())
}

/// The name and signature that a top-level statement declares, if any.
pub open spec fn declared_sig(s: SpecStmt) -> Option<(Seq<char>, FunctionSig)> {
    match s {
        SpecStmt::Function { name, params, return_type, .. } => Some((
            name,
            FunctionSig {
                params: Seq::new(params.len(), |i: int| params[i].1),
                return_type: type_of_name(return_type),
                is_variadic: false,
            },
        )),
        SpecStmt::Extern { name, arg_types, return_type, is_variadic } => Some((
            name,
            FunctionSig { params: arg_types, return_type, is_variadic },
        )),
        _ => None,
    }
}

/// The table `m` after recording, in order, the signatures that `ss` declares.
pub open spec fn register_spec(m: Map<Seq<char>, FunctionSig>, ss: Seq<SpecStmt>) -> Map<Seq<char>, FunctionSig>
    decreases ss.len(),
{
    if ss.len() == 0 {
        m
    } else {
        let m1 = register_spec(m, ss.drop_last());
        match declared_sig(ss.last()) {
            Some((n, sig)) => m1.insert(n, sig),
            None => m1,
        }
    }
}

/// The maps that a stack of scopes holds, outermost first.
pub open spec fn scope_maps(scopes: Seq<NameMap<VariableInfo>>) -> Seq<Map<Seq<char>, VariableInfo>> {
    Seq::new(scopes.len(), |i: int| scopes[i]@)
}

/// The variable bound to `k` in the innermost of the scopes `ms` that binds it.
pub open spec fn maps_lookup(ms: Seq<Map<Seq<char>, VariableInfo>>, k: Seq<char>) -> Option<VariableInfo>
    decreases ms.len(),
{
    if ms.len() == 0 {
        None
    } else if ms.last().contains_key(k) {
        Some(ms.last()[k])
    } else {
        maps_lookup(ms.drop_last(), k)
    }
}

/// When `si` is the innermost of the scopes `ms` that binds `n`, the lookup
/// of `n` gives its binding there; rebinding `n` there changes the lookup of
/// `n` only.
pub proof fn lemma_maps_rebind(ms: Seq<Map<Seq<char>, VariableInfo>>, si: int, n: Seq<char>, v: VariableInfo, k: Seq<char>)
    requires
        0 <= si < ms.len(),
        ms[si].contains_key(n),
        forall|j: int| si < j < ms.len() ==> !ms[j].contains_key(n),
    ensures
        maps_lookup(ms, n) == Some(ms[si][n]),
        maps_lookup(ms.update(si, ms[si].insert(n, v)), k) == if k == n { Some(v) } else { maps_lookup(ms, k) },
    decreases ms.len(),
{
    let ms2 = ms.update(si, ms[si].insert(n, v));
    if si == ms.len() - 1 {
        assert(ms2.drop_last() =~= ms.drop_last());
    } else {
        assert(ms2.drop_last() =~= ms.drop_last().update(si, ms[si].insert(n, v)));
        lemma_maps_rebind(ms.drop_last(), si, n, v, k);
    }
}

/// The scopes `ms` after binding `k` to `v` in the innermost one (no change
/// when there is none).
pub open spec fn maps_add(ms: Seq<Map<Seq<char>, VariableInfo>>, k: Seq<char>, v: VariableInfo) -> Seq<Map<Seq<char>, VariableInfo>> {
    if ms.len() == 0 {
        ms
    } else {
        ms.update(ms.len() - 1, ms.last().insert(k, v))
    }
}

/// The scopes `ms` after closing the innermost one (no change when there is none).
pub open spec fn maps_pop(ms: Seq<Map<Seq<char>, VariableInfo>>) -> Seq<Map<Seq<char>, VariableInfo>> {
    if ms.len() == 0 {
        ms
    } else {
        ms.drop_last()
    }
}

/// Reading a name right after binding it gives the new binding, as long as
/// a scope is open to hold it; every other name reads as before.
pub proof fn law_lookup_after_add(ms: Seq<Map<Seq<char>, VariableInfo>>, k: Seq<char>, v: VariableInfo, q: Seq<char>)
    ensures
        maps_lookup(maps_add(ms, k, v), q) == if ms.len() > 0 && q == k { Some(v) } else { maps_lookup(ms, q) },
{
    if ms.len() > 0 {
        let ms2 = maps_add(ms, k, v);
        assert(ms2.drop_last() =~= ms.drop_last());
    }
}

/// Opening a scope hides no variable, and closing it again gives back the
/// scopes as they were.
pub proof fn law_enter_exit(ms: Seq<Map<Seq<char>, VariableInfo>>, q: Seq<char>)
    ensures
        maps_lookup(ms.push(Map::empty()), q) == maps_lookup(ms, q),
        maps_pop(ms.push(Map::empty())) == ms,
{
    assert(ms.push(Map::empty()).drop_last() =~= ms);
}

/// A variable bound in a block is forgotten when the block closes: every
/// name then reads as it did before the block was opened.
pub proof fn law_block_binding_forgotten(ms: Seq<Map<Seq<char>, VariableInfo>>, k: Seq<char>, v: VariableInfo, q: Seq<char>)
    ensures
        maps_pop(maps_add(ms.push(Map::empty()), k, v)) == ms,
        maps_lookup(maps_pop(maps_add(ms.push(Map::empty()), k, v)), q) == maps_lookup(ms, q),
{
    assert(maps_add(ms.push(Map::empty()), k, v).drop_last() =~= ms);
}

/// A binding in an inner scope shadows the bindings of the outer ones.
pub proof fn law_inner_shadows_outer(ms: Seq<Map<Seq<char>, VariableInfo>>, k: Seq<char>, v: VariableInfo)
    ensures
        maps_lookup(maps_add(ms.push(Map::empty()), k, v), k) == Some(v),
{
}

/// In the table that registering `ss` builds, a name holds the signature of
/// its last declaration in `ss`.
pub proof fn law_last_declaration_wins(m: Map<Seq<char>, FunctionSig>, ss: Seq<SpecStmt>, i: int, n: Seq<char>, sig: FunctionSig)
    requires
        0 <= i < ss.len(),
        declared_sig(ss[i]) == Some((n, sig)),
        forall|j: int| i < j < ss.len() ==> !(#[trigger] declared_sig(ss[j]) matches Some((n2, _)) && n2 == n),
    ensures
        register_spec(m, ss).contains_key(n),
        register_spec(m, ss)[n] == sig,
    decreases ss.len(),
{
    if i < ss.len() - 1 {
        assert(ss.drop_last()[i] == ss[i]);
        assert forall|j: int| i < j < ss.drop_last().len() implies !(#[trigger] declared_sig(ss.drop_last()[j]) matches Some((n2, _)) && n2 == n) by {
            assert(ss.drop_last()[j] == ss[j]);
        }
        law_last_declaration_wins(m, ss.drop_last(), i, n, sig);
        assert(!(declared_sig(ss[ss.len() - 1]) matches Some((n2, _)) && n2 == n));
    }
}

/// Whether `s` declares a function or an `extrn` named `n`.
pub open spec fn declares_name(s: SpecStmt, n: Seq<char>) -> bool {
    (s is Function && s->Function_name == n) || (s is Extern && s->Extern_name == n)
}

/// In the table that registering `ss` builds, a function keeps the
/// parameter types of its last declaration in `ss`, in the order they are
/// declared, and the return type its return type names; an `extrn` keeps
/// its argument types, in order, its return type and whether it is
/// variadic.
pub proof fn law_registered_signature_follows_declaration(m: Map<Seq<char>, FunctionSig>, ss: Seq<SpecStmt>, i: int, n: Seq<char>)
    requires
        0 <= i < ss.len(),
        declares_name(ss[i], n),
        forall|j: int| i < j < ss.len() ==> !declares_name(#[trigger] ss[j], n),
    ensures
        register_spec(m, ss).contains_key(n),
        ss[i] is Function ==> {
            &&& register_spec(m, ss)[n].params.len() == ss[i]->Function_params.len()
            &&& forall|k: int| 0 <= k < ss[i]->Function_params.len()
                ==> register_spec(m, ss)[n].params[k] == (#[trigger] ss[i]->Function_params[k]).1
            &&& register_spec(m, ss)[n].return_type == type_of_name(ss[i]->Function_return_type)
            &&& !register_spec(m, ss)[n].is_variadic
        },
        ss[i] is Extern ==> {
            &&& register_spec(m, ss)[n].params == ss[i]->Extern_arg_types
            &&& register_spec(m, ss)[n].return_type == ss[i]->Extern_return_type
            &&& register_spec(m, ss)[n].is_variadic == ss[i]->Extern_is_variadic
        },
{
    let (_, sig) = declared_sig(ss[i])->0;
    assert forall|j: int| i < j < ss.len() implies !(#[trigger] declared_sig(ss[j]) matches Some((n2, _)) && n2 == n) by {
        assert(!declares_name(ss[j], n));
    }
    law_last_declaration_wins(m, ss, i, n, sig);
}

/// The state shared by the lexer, parser, type checker and backend: the
/// source and the lexer's position in it, the current token, and the
/// global, function and block-scoped name tables.
pub struct Compiler {
    pub src: Vec<u8>,
    pub line: usize,
    pub index: usize,
    pub cur_tok: TokenType,
    pub filename: String,
    pub locals: NameMap<Local>,
    pub globals: NameMap<CelesteType>,
    pub scopes: Vec<NameMap<VariableInfo>>,
    pub functions: NameMap<FunctionInfo>,
}

/// `a` and `b` hold the same source, file name and name tables; only the
/// lexer's position and current token may differ.
pub open spec fn same_tables(a: Compiler, b: Compiler) -> bool {
    &&& a.src == b.src
    &&& a.filename == b.filename
    &&& a.locals == b.locals
    &&& a.globals == b.globals
    &&& a.scopes == b.scopes
    &&& a.functions == b.functions
}

impl Compiler {
    /// The lexer's position lies within the source, and the line count is no
    /// more than one plus the bytes read so far.
    pub open spec fn wf(&self) -> bool {
        &&& self.index <= self.src@.len()
        &&& self.line <= self.index + 1
        &&& self.src@.len() < usize::MAX
    }

    /// The variable that `name` denotes at this point.
    pub open spec fn lookup(&self, name: Seq<char>) -> Option<VariableInfo> {
        maps_lookup(scope_maps(self.scopes@), name)
    }

    pub fn new(src: String, filename: String) -> (c: Self)
        ensures
            c.src@ == vstd::utf8::encode_utf8(src@),
            c.filename@ == filename@,
            c.line == 1,
            c.index == 0,
            c.cur_tok is Eof,
            c.locals@ == Map::<Seq<char>, Local>::empty(),
            c.globals@ == Map::<Seq<char>, CelesteType>::empty(),
            c.functions@ == Map::<Seq<char>, FunctionInfo>::empty(),
            c.scopes@.len() == 0,
    {
        Compiler {
            src: src.as_str().as_bytes_vec(),
            line: 1,
            index: 0,
            cur_tok: TokenType::Eof,
            filename,
            locals: NameMap::new(),
            globals: NameMap::new(),
            scopes: Vec::new(),
            functions: NameMap::new(),
        }
    }

    /// Opens a new, empty innermost scope.
    pub fn enter_scope(&mut self)
        ensures
            scope_maps(final(self).scopes@) == scope_maps(old(self).scopes@).push(Map::empty()),
            final(self).src == old(self).src,
            final(self).index == old(self).index,
            final(self).line == old(self).line,
            final(self).cur_tok == old(self).cur_tok,
            final(self).globals == old(self).globals,
            final(self).functions == old(self).functions,
            final(self).locals == old(self).locals,
            final(self).filename == old(self).filename,
    {
        let m: NameMap<VariableInfo> = NameMap { entries: Vec::new() };
        assert(m@ =~= Map::<Seq<char>, VariableInfo>::empty());
        self.scopes.push(m);
        assert(scope_maps(self.scopes@) =~= scope_maps(old(self).scopes@).push(Map::empty()));
    }

    /// Closes the innermost scope, if any.
    pub fn exit_scope(&mut self)
        ensures
            scope_maps(final(self).scopes@) == maps_pop(scope_maps(old(self).scopes@)),
            final(self).src == old(self).src,
            final(self).index == old(self).index,
            final(self).line == old(self).line,
            final(self).cur_tok == old(self).cur_tok,
            final(self).globals == old(self).globals,
            final(self).functions == old(self).functions,
            final(self).locals == old(self).locals,
            final(self).filename == old(self).filename,
    {
        let _ = self.scopes.pop();
        assert(scope_maps(self.scopes@) =~= maps_pop(scope_maps(old(self).scopes@)));
    }

    /// Binds `name` in the innermost scope; does nothing when no scope is open.
    pub fn add_variable(&mut self, name: String, info: VariableInfo)
        ensures
            scope_maps(final(self).scopes@) == maps_add(scope_maps(old(self).scopes@), name@, info),
            final(self).src == old(self).src,
            final(self).index == old(self).index,
            final(self).line == old(self).line,
            final(self).cur_tok == old(self).cur_tok,
            final(self).globals == old(self).globals,
            final(self).functions == old(self).functions,
            final(self).locals == old(self).locals,
            final(self).filename == old(self).filename,
    {
        if let Some(mut current_scope) = self.scopes.pop() {
            current_scope.insert(name, info);
            self.scopes.push(current_scope);
        }
        assert(scope_maps(self.scopes@) =~= maps_add(scope_maps(old(self).scopes@), name@, info));
    }

    /// The variable that `name` denotes: the binding of the innermost scope
    /// that binds it.
    #[verifier::rlimit(40)]
    pub fn lookup_variable(&self, name: &str) -> (r: Option<&VariableInfo>)
        ensures
            match r {
                Some(v) => self.lookup(name@) == Some(*v),
                None => self.lookup(name@) is None,
            },
    {
        let mut i = self.scopes.len();
        assert(self.scopes@.take(i as int) =~= self.scopes@);
        while i > 0
            invariant
                i <= self.scopes@.len(),
                self.lookup(name@) == maps_lookup(scope_maps(self.scopes@.take(i as int)), name@),
            decreases i,
        {
            assert(self.scopes@.take(i as int).drop_last() =~= self.scopes@.take(i - 1));
            assert(scope_maps(self.scopes@.take(i as int)).drop_last() =~= scope_maps(self.scopes@.take(i - 1)));
            if let Some(info) = self.scopes[i - 1].get(name) {
                return Some(info);
            }
            i = i - 1;
        }
        None
    }

    /// The variable that `name` denotes, to be changed in place.
    #[verifier::rlimit(40)]
    pub fn lookup_variable_mut(&mut self, name: &str) -> (r: Option<&mut VariableInfo>)
        ensures
            match r {
                Some(v) => {
                    &&& old(self).lookup(name@) == Some(*v)
                    &&& final(self).lookup(name@) == Some(*final(v))
                    &&& forall|k: Seq<char>| k != name@ ==> #[trigger] final(self).lookup(k) == old(self).lookup(k)
                    &&& scope_maps(final(self).scopes@).len() == scope_maps(old(self).scopes@).len()
                },
                None => old(self).lookup(name@) is None && final(self).scopes@ == old(self).scopes@,
            },
            final(self).src == old(self).src,
            final(self).index == old(self).index,
            final(self).line == old(self).line,
            final(self).cur_tok == old(self).cur_tok,
            final(self).globals == old(self).globals,
            final(self).functions == old(self).functions,
            final(self).locals == old(self).locals,
            final(self).filename == old(self).filename,
    {
        let mut i = self.scopes.len();
        let ghost ms = scope_maps(self.scopes@);
        assert(self.scopes@.take(i as int) =~= self.scopes@);
        while i > 0
            invariant
                i <= self.scopes@.len(),
                *self == *old(self),
                ms == scope_maps(self.scopes@),
                self.lookup(name@) == maps_lookup(scope_maps(self.scopes@.take(i as int)), name@),
                forall|j: int| i <= j < ms.len() ==> !ms[j].contains_key(name@),
            decreases i,
        {
            assert(self.scopes@.take(i as int).drop_last() =~= self.scopes@.take(i - 1));
            assert(scope_maps(self.scopes@.take(i as int)).drop_last() =~= scope_maps(self.scopes@.take(i - 1)));
            if let Some(ei) = self.scopes[i - 1].position(name) {
                let si = i - 1;
                let ghost e = self.scopes@[si as int].entries@;
                let ghost s = e[ei as int].0;
                proof {
                    lemma_assoc_update(e, ei as int, s, e[ei as int].1, name@);
                }
                proof {
                    assert forall|nm: NameMap<VariableInfo>, t: (String, VariableInfo)|
                        #![trigger nm.entries@, e.update(ei as int, t)]
                        nm.entries@ == e.update(ei as int, t) && t.0 == s implies nm@ == ms[si as int].insert(name@, t.1) by {
                        let fv = t.1;
                        assert(t == (s, fv));
                        assert forall|k: Seq<char>| #![auto] true implies
                            assoc_get(e.update(ei as int, (s, fv)), k) == if k == name@ { Some(fv) } else { assoc_get(e, k) } by {
                            lemma_assoc_update(e, ei as int, s, fv, k);
                        }
                        assert(nm@ =~= ms[si as int].insert(name@, fv));
                    }
                    assert forall|nm: NameMap<VariableInfo>|
                        #![trigger self.scopes@.update(si as int, nm)]
                        scope_maps(self.scopes@.update(si as int, nm)) == ms.update(si as int, nm@) by {
                        assert(scope_maps(self.scopes@.update(si as int, nm)) =~= ms.update(si as int, nm@));
                    }
                    assert forall|fv: VariableInfo, k: Seq<char>| #![auto] true implies
                        maps_lookup(ms.update(si as int, ms[si as int].insert(name@, fv)), k)
                            == if k == name@ { Some(fv) } else { maps_lookup(ms, k) } by {
                        lemma_maps_rebind(ms, si as int, name@, fv, k);
                    }
                }
                let scope = &mut self.scopes[si];
                let entry = &mut scope.entries[ei];
                let v = &mut entry.1;
                return Some(v);
            }
            i = i - 1;
        }
        None
    }

    /// Adds every binding of `globals` to the global table; on a name bound
    /// in both, the binding of `globals` wins.
    #[verifier::rlimit(40)]
    pub fn merge_globals(&mut self, globals: &NameMap<CelesteType>)
        ensures
            final(self).globals@ == old(self).globals@.union_prefer_right(globals@),
            final(self).src == old(self).src,
            final(self).index == old(self).index,
            final(self).line == old(self).line,
            final(self).cur_tok == old(self).cur_tok,
            final(self).scopes == old(self).scopes,
            final(self).functions == old(self).functions,
            final(self).locals == old(self).locals,
            final(self).filename == old(self).filename,
    {
        let ghost e = globals.entries@;
        let mut i: usize = 0;
        proof {
            let m0 = Map::new(
                |k: Seq<char>| assoc_get(e.take(0), k) is Some,
                |k: Seq<char>| assoc_get(e.take(0), k)->0,
            );
            assert(e.take(0) =~= Seq::<(String, CelesteType)>::empty());
            assert(m0 =~= Map::<Seq<char>, CelesteType>::empty());
            assert(self.globals@ =~= old(self).globals@.union_prefer_right(m0));
        }
        while i < globals.entries.len()
            invariant
                e == globals.entries@,
                i <= e.len(),
                self.globals@ == old(self).globals@.union_prefer_right(Map::new(
                    |k: Seq<char>| assoc_get(e.take(i as int), k) is Some,
                    |k: Seq<char>| assoc_get(e.take(i as int), k)->0,
                )),
                self.src == old(self).src,
                self.index == old(self).index,
                self.line == old(self).line,
                self.cur_tok == old(self).cur_tok,
                self.scopes == old(self).scopes,
                self.functions == old(self).functions,
                self.locals == old(self).locals,
                self.filename == old(self).filename,
            decreases e.len() - i,
        {
            let ghost m_before = Map::new(
                |k: Seq<char>| assoc_get(e.take(i as int), k) is Some,
                |k: Seq<char>| assoc_get(e.take(i as int), k)->0,
            );
            let ghost m_after = Map::new(
                |k: Seq<char>| assoc_get(e.take(i + 1), k) is Some,
                |k: Seq<char>| assoc_get(e.take(i + 1), k)->0,
            );
            proof {
                assert(e.take(i + 1).drop_last() =~= e.take(i as int));
                assert(m_after =~= m_before.insert(e[i as int].0@, e[i as int].1));
            }
            self.globals.insert(globals.entries[i].0.clone(), globals.entries[i].1.duplicate());
            proof {
                assert(self.globals@ =~= old(self).globals@.union_prefer_right(m_after));
            }
            i = i + 1;
        }
        assert(e.take(e.len() as int) =~= e);
    }

    /// Records the signature of every function and external function that
    /// `program` declares at its top level; a later declaration of a name
    /// replaces an earlier one.
    #[verifier::rlimit(40)]
    pub fn register_functions(&mut self, program: &Program)
        ensures
            sigs(final(self).functions@) == register_spec(sigs(old(self).functions@), stmts_view(program.stmts@)),
            final(self).src == old(self).src,
            final(self).index == old(self).index,
            final(self).line == old(self).line,
            final(self).cur_tok == old(self).cur_tok,
            final(self).globals == old(self).globals,
            final(self).scopes == old(self).scopes,
            final(self).locals == old(self).locals,
            final(self).filename == old(self).filename,
    {
        let ghost ss = stmts_view(program.stmts@);
        let mut i: usize = 0;
        while i < program.stmts.len()
            invariant
                i <= program.stmts@.len(),
                ss == stmts_view(program.stmts@),
                sigs(self.functions@) == register_spec(sigs(old(self).functions@), ss.take(i as int)),
                self.src == old(self).src,
                self.index == old(self).index,
                self.line == old(self).line,
                self.cur_tok == old(self).cur_tok,
                self.globals == old(self).globals,
                self.scopes == old(self).scopes,
                self.locals == old(self).locals,
                self.filename == old(self).filename,
            decreases program.stmts@.len() - i,
        {
            proof {
                assert(ss.take(i + 1).drop_last() =~= ss.take(i as int));
                assert(ss.take(i + 1).last() == program.stmts@[i as int]@);
            }
            let ghost before = self.functions@;
            match &program.stmts[i] {
                Stmt::Function { name, params, return_type, .. } => {
                    let mut tys: Vec<CelesteType> = Vec::new();
                    let mut j: usize = 0;
                    while j < params.len()
                        invariant
                            j <= params@.len(),
                            tys@.len() == j,
                            forall|m: int| 0 <= m < j ==> tys@[m] == #[trigger] params@[m].ty,
                        decreases params@.len() - j,
                    {
                        tys.push(params[j].ty.duplicate());
                        j = j + 1;
                    }
                    let info = FunctionInfo {
                        params: tys,
                        return_type: string_to_celeste_type(return_type.as_str()),
                        is_variadic: false,
                    };
                    self.functions.insert(name.clone(), info);
                    proof {
                        let d = declared_sig(program.stmts@[i as int]@);
                        assert(d matches Some((n, sg)) && n == name@ && sg.params =~= tys@);
                        assert(sigs(self.functions@) =~= sigs(before).insert(name@, info.sig()));
                    }
                }
                Stmt::Extern { name, arg_types, return_type, is_variadic } => {
                    let mut tys: Vec<CelesteType> = Vec::new();
                    let mut j: usize = 0;
                    while j < arg_types.len()
                        invariant
                            j <= arg_types@.len(),
                            tys@.len() == j,
                            forall|m: int| 0 <= m < j ==> tys@[m] == #[trigger] arg_types@[m],
                        decreases arg_types@.len() - j,
                    {
                        tys.push(arg_types[j].duplicate());
                        j = j + 1;
                    }
                    let info = FunctionInfo {
                        params: tys,
                        return_type: return_type.duplicate(),
                        is_variadic: *is_variadic,
                    };
                    self.functions.insert(name.clone(), info);
                    proof {
                        assert(tys@ =~= arg_types@);
                        assert(sigs(self.functions@) =~= sigs(before).insert(name@, info.sig()));
                    }
                }
                _ => {}
            }
            i = i + 1;
        }
        assert(ss.take(program.stmts@.len() as int) =~= ss);
    }

    /// The signature recorded for the function `name`, if any.
    pub fn lookup_function(&self, name: &str) -> (r: Option<&FunctionInfo>)
        ensures
            match r {
                Some(f) => self.functions@.contains_key(name@) && *f == self.functions@[name@],
                None => !self.functions@.contains_key(name@),
            },
    {
        self.functions.get(name)
    }
}

} // verus!
