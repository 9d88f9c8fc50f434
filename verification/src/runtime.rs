//! The state of the runtime and the operations on scopes, variables and
//! references, each stated by the definition of the same name in the model.
use std::collections::HashMap;
use std::rc::Rc;

use vstd::prelude::*;

use crate::ast::{
    define_view, lemma_stmts_view, name_view, opt_string_view, stmt_view, stmts_view, strings_view,
    DioAstStatement, FunctionDefine, FunctionName, SpecFnName, SpecStmt,
};
use crate::error::{RuntimeError, SpecRuntimeError};
use crate::module::{
    copy_module_item, lemma_module_entries_view, module_entries_view, module_item_view,
    put_module_entry, ModuleGenerator, ModuleItem,
};
use crate::ops::index_value;
use crate::host::{HostFunctions, NoHost};
use crate::semantics::HostModel;
use crate::semantics::{
    add_bindings, add_script_function, bind_env, bind_module, collect_functions, create_data,
    descend, get_function, get_module_value, load_from_module, method_lookup, scan_fn,
    SpecModuleItem, bind_env_from, collect_free_vars, deref, deref_dict, deref_list,
    deref_seen, free_vars_from, get_from_index, create_var, enter_scope, find_var, find_var_from, follow_ref, get_ref, get_var, leave_scope,
    put, rebind_scope, reserved, set_ref, set_var, SpecRuntime, SpecScope,
};
use crate::text::{copy_string, str_eq};
use crate::value::{
    copy_function, copy_value, dict_lookup, function_view, share_define, FunctionType, SpecFunction, dict_view, env_view, lemma_dict_view, lemma_dict_view_push,
    lemma_values_view, lemma_values_view_push, values_view, find_key, key_index, lemma_key_index,
    lemma_key_index_absent, lemma_key_index_first, lit, result_view, value_view, SpecValue,
    Value,
};

verus! {

broadcast use vstd::std_specs::hash::group_hash_axioms;

/// A scope: the names it binds to variable ids; lookups stop at an isolated
/// scope, the scope of a function call.
pub struct Scope {
    pub isolate: bool,
    pub data: Vec<(String, u128)>,
}

impl Scope {
    /// The scope of a block.
    pub fn gen() -> (r: Self)
        ensures
            scope_view(r) == (SpecScope { isolate: false, vars: Seq::empty() }),
    {
        let r = Scope { isolate: false, data: Vec::new() };
        assert(env_view(r.data@) =~= Seq::<(Seq<char>, u128)>::empty());
        r
    }

    /// The scope of a function call.
    pub fn fun() -> (r: Self)
        ensures
            scope_view(r) == (SpecScope { isolate: true, vars: Seq::empty() }),
    {
        let r = Scope { isolate: true, data: Vec::new() };
        assert(env_view(r.data@) =~= Seq::<(Seq<char>, u128)>::empty());
        r
    }
}

pub open spec fn scope_view(s: Scope) -> SpecScope {
    SpecScope { isolate: s.isolate, vars: env_view(s.data@) }
}

/// What the runtime stores under a variable id.
pub enum DataType {
    Variable(Value),
}

pub open spec fn datum_view(d: DataType) -> SpecValue {
    match d {
        DataType::Variable(v) => v@,
    }
}

impl DataType {
    /// The value stored, as a copy.
    pub fn as_variable(&self) -> (r: Option<Value>)
        ensures
            r matches Some(v) && v@ == datum_view(*self),
    {
        match self {
            DataType::Variable(v) => Some(copy_value(v)),
        }
    }
}

/// The runtime: its scopes, the values of its variables by id, the next
/// fresh id, its modules, the `use`d module paths, the text that scripts
/// printed, and the functions of the host program bound to it.
pub struct Runtime<H = NoHost> {
    pub scopes: Vec<Scope>,
    pub data: HashMap<u128, DataType>,
    pub next_id: u128,
    pub modules: Vec<(String, ModuleItem)>,
    pub namespace_use: Vec<(String, Vec<String>)>,
    pub output: Vec<String>,
    pub host: H,
}

/// What the host functions return.
pub open spec fn host_view<H: HostFunctions>(h: H) -> HostModel {
    |k: usize, a: Seq<SpecValue>| h.host_result(k, a)
}

pub open spec fn uses_view(s: Seq<(String, Vec<String>)>) -> Seq<(Seq<char>, Seq<Seq<char>>)> {
    Seq::new(s.len(), |i: int| (s[i].0@, strings_view(s[i].1@)))
}

impl<H: HostFunctions> View for Runtime<H> {
    type V = SpecRuntime;

    open spec fn view(&self) -> SpecRuntime {
        SpecRuntime {
            scopes: Seq::new(self.scopes@.len(), |i: int| scope_view(self.scopes@[i])),
            data: self.data@.map_values(|d: DataType| datum_view(d)),
            next_id: self.next_id,
            modules: module_entries_view(self.modules@),
            namespace_use: uses_view(self.namespace_use@),
            output: Seq::new(self.output@.len(), |i: int| self.output@[i]@),
            host: host_view(self.host),
        }
    }
}

/// Results of the store operations, in the model.
pub open spec fn id_result(r: Result<u128, RuntimeError>) -> Result<u128, SpecRuntimeError> {
    match r {
        Ok(x) => Ok(x),
        Err(e) => Err(e@),
    }
}

pub open spec fn unit_result(r: Result<(), RuntimeError>) -> Result<(), SpecRuntimeError> {
    match r {
        Ok(x) => Ok(x),
        Err(e) => Err(e@),
    }
}

pub open spec fn var_result(r: Result<(u128, Value), RuntimeError>) -> Result<
    (u128, SpecValue),
    SpecRuntimeError,
> {
    match r {
        Ok((id, v)) => Ok((id, v@)),
        Err(e) => Err(e@),
    }
}

/// The id that `k` is bound to among the bindings.
pub fn lookup_binding(s: &Vec<(String, u128)>, k: &str) -> (r: Option<u128>)
    ensures
        r == dict_lookup(env_view(s@), k@),
{
    let ghost sv = env_view(s@);
    match find_key(s, k) {
        Some(i) => {
            proof {
                assert(sv[i as int] == (s@[i as int].0@, s@[i as int].1));
                assert forall|j: int| 0 <= j < i implies sv[j].0 != k@ by {
                    assert(sv[j] == (s@[j].0@, s@[j].1));
                }
                lemma_key_index_first(sv, k@, i as int);
            }
            Some(s[i].1)
        },
        None => {
            proof {
                assert forall|j: int| 0 <= j < sv.len() implies sv[j].0 != k@ by {
                    assert(sv[j] == (s@[j].0@, s@[j].1));
                }
                lemma_key_index_absent(sv, k@);
            }
            None
        },
    }
}

/// Binds `k` to `id`: the first binding of `k` is changed, or one is added.
pub fn put_binding(s: &mut Vec<(String, u128)>, k: &str, id: u128)
    ensures
        env_view(final(s)@) == put(env_view(old(s)@), k@, id),
{
    let ghost sv = env_view(s@);
    match find_key(s, k) {
        Some(i) => {
            proof {
                assert forall|j: int| 0 <= j < i implies sv[j].0 != k@ by {
                    assert(sv[j] == (s@[j].0@, s@[j].1));
                }
                lemma_key_index_first(sv, k@, i as int);
            }
            let key = copy_string(&s[i].0);
            s.set(i, (key, id));
            assert(env_view(s@) =~= sv.update(i as int, (k@, id)));
        },
        None => {
            proof {
                assert forall|j: int| 0 <= j < sv.len() implies sv[j].0 != k@ by {
                    assert(sv[j] == (s@[j].0@, s@[j].1));
                }
                lemma_key_index_absent(sv, k@);
            }
            s.push((String::from_str(k), id));
            assert(env_view(s@) =~= sv.push((k@, id)));
        },
    }
}

fn is_reserved(name: &str) -> (r: bool)
    ensures
        r == reserved(name@),
{
    str_eq(name, "let") || str_eq(name, "if") || str_eq(name, "else") || str_eq(name, "for")
        || str_eq(name, "in") || str_eq(name, "while") || str_eq(name, "fn") || str_eq(
        name,
        "return",
    ) || str_eq(name, "use") || str_eq(name, "true") || str_eq(name, "false")
}

impl<H: HostFunctions> Runtime<H> {
    /// Every id in use is below the next fresh id.
    pub open spec fn wf(&self) -> bool {
        forall|id: u128| #[trigger] self.data@.contains_key(id) ==> id < self.next_id
    }

    /// Opens a scope; an isolated one for a function call.
    pub fn enter_scope(&mut self, i: bool)
        ensures
            final(self)@ == enter_scope(old(self)@, i),
            old(self).wf() ==> final(self).wf(),
    {
        let scope = if i {
            Scope::fun()
        } else {
            Scope::gen()
        };
        self.scopes.push(scope);
        assert(self@.scopes =~= old(self)@.scopes.push(SpecScope { isolate: i, vars: Seq::empty() }));
    }

    /// Closes the innermost scope.
    pub fn leave_scope(&mut self)
        ensures
            final(self)@ == leave_scope(old(self)@),
            old(self).wf() ==> final(self).wf(),
    {
        if self.scopes.len() > 0 {
            let _ = self.scopes.pop();
            assert(self@.scopes =~= old(self)@.scopes.drop_last());
        }
    }

    /// The id and the value of the variable `name`.
    pub fn get_var(&self, name: &str) -> (r: Result<(u128, Value), RuntimeError>)
        ensures
            var_result(r) == get_var(self@, name@),
    {
        let mut i = self.scopes.len();
        while i > 0
            invariant
                i <= self.scopes@.len(),
                find_var_from(self@, name@, i as int) == find_var(self@, name@),
            ensures
                find_var(self@, name@) is None,
            decreases i,
        {
            let scope = &self.scopes[i - 1];
            assert(self@.scopes[i - 1] == scope_view(*scope));
            match lookup_binding(&scope.data, name) {
                Some(id) => {
                    match self.data.get(&id) {
                        Some(d) => {
                            let v = match d {
                                DataType::Variable(v) => copy_value(v),
                            };
                            return Ok((id, v));
                        },
                        None => {
                            if scope.isolate {
                                break ;
                            }
                        },
                    }
                },
                None => {
                    if scope.isolate {
                        break ;
                    }
                },
            }
            i = i - 1;
        }
        Err(RuntimeError::VariableNotFound { name: String::from_str(name) })
    }

    /// A new variable in the innermost scope, under a fresh id.
    pub fn create_var(&mut self, name: &str, value: Value) -> (r: Result<u128, RuntimeError>)
        ensures
            (final(self)@, id_result(r)) == create_var(old(self)@, name@, value@),
            old(self).wf() ==> final(self).wf(),
    {
        if is_reserved(name) {
            return Err(RuntimeError::UsingReservedKeyword { keyword: String::from_str(name) });
        }
        let n = self.scopes.len();
        if n == 0 {
            return Err(RuntimeError::ScopeNotFound);
        }
        assert(self@.scopes.last() == scope_view(self.scopes@[n - 1]));
        if lookup_binding(&self.scopes[n - 1].data, name).is_some() {
            return Err(RuntimeError::VariableAlreadyDefined { name: String::from_str(name) });
        }
        if self.next_id == u128::MAX || self.data.contains_key(&self.next_id) {
            return Err(RuntimeError::IdSpaceExhausted);
        }
        let id = self.next_id;
        let ghost dv = value@;
        let ghost before = self@;
        let _ = self.data.insert(id, DataType::Variable(value));
        self.next_id = id + 1;
        let mut last = self.scopes.pop().unwrap();
        let ghost lv = scope_view(last);
        last.data.push((String::from_str(name), id));
        assert(env_view(last.data@) =~= lv.vars.push((name@, id)));
        self.scopes.push(last);
        proof {
            assert(self@.scopes =~= before.scopes.update(
                before.scopes.len() - 1,
                SpecScope { isolate: lv.isolate, vars: lv.vars.push((name@, id)) },
            ));
            assert(self@.data =~= before.data.insert(id, dv));
        }
        Ok(id)
    }

    /// The value stored under an id.
    pub fn get_ref_value(&self, id: u128) -> (r: Result<Value, RuntimeError>)
        ensures
            result_view(r) == get_ref(self@, id),
    {
        match self.data.get(&id) {
            Some(DataType::Variable(v)) => Ok(copy_value(v)),
            None => Err(RuntimeError::UnknownPointer { pointer: id }),
        }
    }

    /// Replaces the value stored under an id.
    pub fn set_ref_value(&mut self, id: u128, value: Value) -> (r: Result<(), RuntimeError>)
        ensures
            (final(self)@, unit_result(r)) == set_ref(old(self)@, id, value@),
            old(self).wf() ==> final(self).wf(),
    {
        if self.data.contains_key(&id) {
            let ghost dv = value@;
            let _ = self.data.insert(id, DataType::Variable(value));
            assert(self@.data =~= old(self)@.data.insert(id, dv));
            Ok(())
        } else {
            Err(RuntimeError::UnknownPointer { pointer: id })
        }
    }

    /// The end of the chain of references from `id`.
    pub fn follow_ref(&self, id: u128) -> (r: Result<u128, RuntimeError>)
        ensures
            id_result(r) == follow_ref(self@, id, 0),
    {
        let mut cur = id;
        let mut hops: u64 = 0;
        loop
            invariant
                hops <= 35,
                follow_ref(self@, cur, hops as nat) == follow_ref(self@, id, 0),
            decreases 36 - hops,
        {
            match self.data.get(&cur) {
                Some(DataType::Variable(Value::Reference(next))) => {
                    if hops + 1 > 35 {
                        return Err(RuntimeError::CircularReference);
                    }
                    cur = *next;
                    hops = hops + 1;
                },
                Some(_) => {
                    return Ok(cur);
                },
                None => {
                    return Err(RuntimeError::UnknownPointer { pointer: cur });
                },
            }
        }
    }

    /// Assignment to an existing variable.
    pub fn set_var(&mut self, name: &str, value: Value) -> (r: Result<u128, RuntimeError>)
        ensures
            (final(self)@, id_result(r)) == set_var(old(self)@, name@, value@),
            old(self).wf() ==> final(self).wf(),
    {
        let cur = match self.get_var(name) {
            Ok((id, _)) => id,
            Err(e) => {
                return Err(e);
            },
        };
        match value {
            Value::Reference(new_id) => {
                let mut i = self.scopes.len();
                while i > 0
                    invariant
                        i <= self.scopes@.len(),
                        self@ == old(self)@,
                        self.data@ == old(self).data@,
                        self.next_id == old(self).next_id,
                        value@ == SpecValue::Reference(new_id),
                        get_var(old(self)@, name@) is Ok,
                        rebind_scope(self@, name@, i as int) == rebind_scope(
                            self@,
                            name@,
                            self@.scopes.len() as int,
                        ),
                    ensures
                        rebind_scope(self@, name@, self@.scopes.len() as int) is None,
                        self@ == old(self)@,
                        self.data@ == old(self).data@,
                        self.next_id == old(self).next_id,
                    decreases i,
                {
                    assert(self@.scopes[i - 1] == scope_view(self.scopes@[i - 1]));
                    if self.scopes[i - 1].isolate {
                        break ;
                    }
                    if lookup_binding(&self.scopes[i - 1].data, name).is_some() {
                        let ghost before = self@;
                        let mut sc = self.scopes.remove(i - 1);
                        let ghost sv = scope_view(sc);
                        assert(sv == before.scopes[i - 1]);
                        put_binding(&mut sc.data, name, new_id);
                        self.scopes.insert(i - 1, sc);
                        assert(self@.scopes =~= before.scopes.update(
                            i - 1,
                            SpecScope { isolate: sv.isolate, vars: put(sv.vars, name@, new_id) },
                        ));
                        return Ok(new_id);
                    }
                    i = i - 1;
                }
                Err(RuntimeError::VariableNotFound { name: String::from_str(name) })
            },
            v => {
                let t = match self.follow_ref(cur) {
                    Ok(t) => t,
                    Err(e) => {
                        return Err(e);
                    },
                };
                let ghost dv = v@;
                proof {
                    crate::semantics::lemma_follow_ref_found(self@, cur, 0);
                }
                let _ = self.data.insert(t, DataType::Variable(v));
                assert(self@.data =~= old(self)@.data.insert(t, dv));
                Ok(t)
            },
        }
    }
}


// ---------------------------------------------------------------------------
// Closures
// ---------------------------------------------------------------------------

impl<H: HostFunctions> Runtime<H> {
    /// The variables that a function defined now can see, except its own
    /// name.
    pub fn collect_free_vars(&self, func: &FunctionDefine) -> (r: Vec<(String, u128)>)
        ensures
            env_view(r@) == collect_free_vars(self@, define_view(*func).name),
    {
        let ghost skip = define_view(*func).name;
        let mut env: Vec<(String, u128)> = Vec::new();
        assert(env_view(env@) =~= Seq::<(Seq<char>, u128)>::empty());
        let mut i = self.scopes.len();
        while i > 0
            invariant_except_break
                free_vars_from(self@, skip, i as int, env_view(env@)) == collect_free_vars(
                    self@,
                    skip,
                ),
            invariant
                i <= self.scopes@.len(),
                skip == define_view(*func).name,
            ensures
                env_view(env@) == collect_free_vars(self@, skip),
            decreases i,
        {
            let scope = &self.scopes[i - 1];
            assert(self@.scopes[i - 1] == scope_view(*scope));
            let ghost acc0 = env_view(env@);
            let mut j: usize = 0;
            assert(env_view(scope.data@).skip(0) =~= env_view(scope.data@));
            while j < scope.data.len()
                invariant
                    j <= scope.data@.len(),
                    skip == define_view(*func).name,
                    add_bindings(env_view(env@), env_view(scope.data@).skip(j as int), skip)
                        == add_bindings(acc0, env_view(scope.data@), skip),
                decreases scope.data@.len() - j,
            {
                let ghost vs = env_view(scope.data@).skip(j as int);
                let k = &scope.data[j].0;
                let id = scope.data[j].1;
                assert(vs[0] == (k@, id));
                assert(vs.drop_first() =~= env_view(scope.data@).skip(j + 1));
                let is_own = match &func.name {
                    Some(n) => str_eq(n.as_str(), k.as_str()),
                    None => false,
                };
                if !is_own && lookup_binding(&env, k.as_str()).is_none() {
                    proof {
                        crate::value::lemma_key_index(env_view(env@), k@);
                    }
                    let ghost before = env_view(env@);
                    env.push((copy_string(k), id));
                    assert(env_view(env@) =~= before.push((k@, id)));
                } else {
                    proof {
                        crate::value::lemma_key_index(env_view(env@), k@);
                    }
                }
                j = j + 1;
            }
            assert(env_view(scope.data@).skip(j as int) =~= Seq::<(Seq<char>, u128)>::empty());
            if scope.isolate {
                break ;
            }
            i = i - 1;
        }
        env
    }

    /// The bindings of a function's captured variables, made in the
    /// innermost scope.
    pub fn bind_env(&mut self, env: &Vec<(String, u128)>)
        ensures
            final(self)@ == bind_env(old(self)@, env_view(env@)),
            old(self).wf() ==> final(self).wf(),
    {
        let n = self.scopes.len();
        if n == 0 {
            return;
        }
        let ghost before = self@;
        let mut last = self.scopes.pop().unwrap();
        let ghost lv = scope_view(last);
        assert(lv == before.scopes.last());
        let mut j: usize = 0;
        assert(env_view(env@).skip(0) =~= env_view(env@));
        while j < env.len()
            invariant
                j <= env@.len(),
                last.isolate == lv.isolate,
                bind_env_from(env_view(last.data@), env_view(env@).skip(j as int)) == bind_env_from(
                    lv.vars,
                    env_view(env@),
                ),
            decreases env@.len() - j,
        {
            let ghost es = env_view(env@).skip(j as int);
            assert(es[0] == (env@[j as int].0@, env@[j as int].1));
            assert(es.drop_first() =~= env_view(env@).skip(j + 1));
            put_binding(&mut last.data, env[j].0.as_str(), env[j].1);
            j = j + 1;
        }
        assert(env_view(env@).skip(j as int) =~= Seq::<(Seq<char>, u128)>::empty());
        self.scopes.push(last);
        assert(self@.scopes =~= before.scopes.update(
            before.scopes.len() - 1,
            SpecScope { isolate: lv.isolate, vars: bind_env_from(lv.vars, env_view(env@)) },
        ));
    }
}

// ---------------------------------------------------------------------------
// References inside values
// ---------------------------------------------------------------------------

pub open spec fn values_result(r: Result<Vec<Value>, RuntimeError>) -> Result<
    Seq<SpecValue>,
    SpecRuntimeError,
> {
    match r {
        Ok(v) => Ok(values_view(v@)),
        Err(e) => Err(e@),
    }
}

pub open spec fn dict_result(r: Result<Vec<(String, Value)>, RuntimeError>) -> Result<
    Seq<(Seq<char>, SpecValue)>,
    SpecRuntimeError,
> {
    match r {
        Ok(v) => Ok(dict_view(v@)),
        Err(e) => Err(e@),
    }
}

/// The outcome of a list whose first items gave `done`.
pub open spec fn then_list(done: Seq<SpecValue>, rest: Result<Seq<SpecValue>, SpecRuntimeError>) -> Result<
    Seq<SpecValue>,
    SpecRuntimeError,
> {
    match rest {
        Ok(ys) => Ok(done + ys),
        Err(e) => Err(e),
    }
}

pub open spec fn then_dict(
    done: Seq<(Seq<char>, SpecValue)>,
    rest: Result<Seq<(Seq<char>, SpecValue)>, SpecRuntimeError>,
) -> Result<Seq<(Seq<char>, SpecValue)>, SpecRuntimeError> {
    match rest {
        Ok(ys) => Ok(done + ys),
        Err(e) => Err(e),
    }
}

impl<H: HostFunctions> Runtime<H> {
    /// The model's variable store has finitely many ids.
    pub proof fn lemma_data_finite(&self)
        ensures
            self@.data.dom().finite(),
            self@.data.dom() == self.data@.dom(),
    {
        assert(self@.data.dom() =~= self.data@.dom());
    }

    /// The value with every reference in it resolved.
    pub fn deref_value(&self, v: &Value) -> (r: Result<Value, RuntimeError>)
        ensures
            result_view(r) == deref(self@, v@),
    {
        let seen: Vec<u128> = Vec::new();
        assert(seen@.to_set() =~= Set::<u128>::empty());
        self.deref_inner(v, &seen)
    }

    fn deref_inner(&self, v: &Value, seen: &Vec<u128>) -> (r: Result<Value, RuntimeError>)
        ensures
            result_view(r) == deref_seen(self@, v@, seen@.to_set()),
        decreases self@.data.dom().difference(seen@.to_set()).len(), v, 1nat,
    {
        proof {
            self.lemma_data_finite();
        }
        match v {
            Value::List(l) => match self.deref_list(l, seen) {
                Ok(ys) => Ok(Value::List(ys)),
                Err(e) => Err(e),
            },
            Value::Dict(d) => match self.deref_dict(d, seen) {
                Ok(ys) => Ok(Value::Dict(ys)),
                Err(e) => Err(e),
            },
            Value::Tuple((a, b)) => match self.deref_inner(a, seen) {
                Ok(x) => match self.deref_inner(b, seen) {
                    Ok(y) => Ok(Value::Tuple((Box::new(x), Box::new(y)))),
                    Err(e) => Err(e),
                },
                Err(e) => Err(e),
            },
            Value::Reference(id) => {
                let id = *id;
                let mut k: usize = 0;
                while k < seen.len()
                        invariant
                        k <= seen@.len(),
                        forall|m: int| 0 <= m < k ==> seen@[m] != id,
                        self@.data.dom().finite(),
                        v@ == SpecValue::Reference(id),
                    decreases seen@.len() - k,
                {
                    if seen[k] == id {
                        assert(seen@[k as int] == id);
                        assert(seen@.contains(id));
                        assert(seen@.to_set().contains(id));
                        return Err(RuntimeError::CircularReference);
                    }
                    k = k + 1;
                }
                assert(!seen@.to_set().contains(id)) by {
                    if seen@.contains(id) {
                        let m = choose|m: int| 0 <= m < seen@.len() && seen@[m] == id;
                    }
                }
                match self.data.get(&id) {
                    Some(DataType::Variable(w)) => {
                        let mut seen2 = copy_ids(seen);
                        seen2.push(id);
                        proof {
                            lemma_push_to_set(seen@, id);
                        }
                        proof {
                            crate::semantics::lemma_unseen_shrinks(
                                self@.data.dom(),
                                seen@.to_set(),
                                id,
                            );
                        }
                        self.deref_inner(w, &seen2)
                    },
                    None => Err(RuntimeError::UnknownPointer { pointer: id }),
                }
            },
            _ => Ok(copy_value(v)),
        }
    }

    fn deref_list(&self, l: &Vec<Value>, seen: &Vec<u128>) -> (r: Result<Vec<Value>, RuntimeError>)
        ensures
            values_result(r) == deref_list(self@, values_view(l@), seen@.to_set()),
        decreases self@.data.dom().difference(seen@.to_set()).len(), l, 0nat,
    {
        let ghost xv = values_view(l@);
        proof {
            lemma_values_view(l@);
        }
        let mut out: Vec<Value> = Vec::new();
        assert(values_view(out@) =~= Seq::<SpecValue>::empty());
        let mut i: usize = 0;
        proof {
            self.lemma_data_finite();
            assert(xv.skip(0) =~= xv);
            match deref_list(self@, xv, seen@.to_set()) {
                Ok(ys) => {
                    assert(values_view(out@) + ys =~= ys);
                },
                Err(_) => {},
            }
        }
        while i < l.len()
            invariant
                self@.data.dom().finite(),
                i <= l@.len(),
                xv == values_view(l@),
                xv.len() == l@.len(),
                forall|m: int| 0 <= m < l@.len() ==> #[trigger] xv[m] == value_view(l@[m]),
                then_list(values_view(out@), deref_list(self@, xv.skip(i as int), seen@.to_set()))
                    == deref_list(self@, xv, seen@.to_set()),
            decreases l@.len() - i,
        {
            assert(decreases_to!(l => l@[i as int]));
            let ghost rest = xv.skip(i as int);
            assert(rest[0] == value_view(l@[i as int]));
            assert(rest.drop_first() =~= xv.skip(i + 1));
            match self.deref_inner(&l[i], seen) {
                Ok(y) => {
                    proof {
                        lemma_values_view_push(out@, y);
                    }
                    let ghost yv = y@;
                    let ghost before = values_view(out@);
                    out.push(y);
                    proof {
                        let ss = seen@.to_set();
                        assert(deref_seen(self@, rest[0], ss) == Ok::<SpecValue, SpecRuntimeError>(yv));
                        match deref_list(self@, xv.skip(i + 1), ss) {
                            Ok(ys) => {
                                assert(deref_list(self@, rest, ss) == Ok::<Seq<SpecValue>, SpecRuntimeError>(seq![yv] + ys));
                                assert(values_view(out@) + ys =~= before + (seq![yv] + ys));
                            },
                            Err(e) => {
                                assert(deref_list(self@, rest, ss) == Err::<Seq<SpecValue>, SpecRuntimeError>(e));
                            },
                        }
                    }
                },
                Err(e) => {
                    return Err(e);
                },
            }
            i = i + 1;
        }
        assert(xv.skip(i as int) =~= Seq::<SpecValue>::empty());
        assert(values_view(out@) + Seq::<SpecValue>::empty() =~= values_view(out@));
        Ok(out)
    }

    fn deref_dict(&self, d: &Vec<(String, Value)>, seen: &Vec<u128>) -> (r: Result<
        Vec<(String, Value)>,
        RuntimeError,
    >)
        ensures
            dict_result(r) == deref_dict(self@, dict_view(d@), seen@.to_set()),
        decreases self@.data.dom().difference(seen@.to_set()).len(), d, 0nat,
    {
        let ghost xv = dict_view(d@);
        proof {
            lemma_dict_view(d@);
        }
        let mut out: Vec<(String, Value)> = Vec::new();
        assert(dict_view(out@) =~= Seq::<(Seq<char>, SpecValue)>::empty());
        let mut i: usize = 0;
        proof {
            self.lemma_data_finite();
            assert(xv.skip(0) =~= xv);
            match deref_dict(self@, xv, seen@.to_set()) {
                Ok(ys) => {
                    assert(dict_view(out@) + ys =~= ys);
                },
                Err(_) => {},
            }
        }
        while i < d.len()
            invariant
                self@.data.dom().finite(),
                i <= d@.len(),
                xv == dict_view(d@),
                xv.len() == d@.len(),
                forall|m: int| 0 <= m < d@.len() ==> #[trigger] xv[m] == (d@[m].0@, value_view(d@[m].1)),
                then_dict(dict_view(out@), deref_dict(self@, xv.skip(i as int), seen@.to_set()))
                    == deref_dict(self@, xv, seen@.to_set()),
            decreases d@.len() - i,
        {
            assert(decreases_to!(d => d@[i as int].1));
            let ghost rest = xv.skip(i as int);
            assert(rest[0] == (d@[i as int].0@, value_view(d@[i as int].1)));
            assert(rest.drop_first() =~= xv.skip(i + 1));
            match self.deref_inner(&d[i].1, seen) {
                Ok(y) => {
                    let k = copy_string(&d[i].0);
                    proof {
                        lemma_dict_view_push(out@, k, y);
                    }
                    let ghost kv = (k@, y@);
                    let ghost yv = y@;
                    let ghost before = dict_view(out@);
                    out.push((k, y));
                    proof {
                        let ss = seen@.to_set();
                        assert(deref_seen(self@, rest[0].1, ss) == Ok::<SpecValue, SpecRuntimeError>(yv));
                        match deref_dict(self@, xv.skip(i + 1), ss) {
                            Ok(ys) => {
                                assert(deref_dict(self@, rest, ss) == Ok::<Seq<(Seq<char>, SpecValue)>, SpecRuntimeError>(seq![(rest[0].0, yv)] + ys));
                                assert(dict_view(out@) + ys =~= before + (seq![kv] + ys));
                            },
                            Err(e) => {
                                assert(deref_dict(self@, rest, ss) == Err::<Seq<(Seq<char>, SpecValue)>, SpecRuntimeError>(e));
                            },
                        }
                    }
                },
                Err(e) => {
                    return Err(e);
                },
            }
            i = i + 1;
        }
        assert(xv.skip(i as int) =~= Seq::<(Seq<char>, SpecValue)>::empty());
        assert(dict_view(out@) + Seq::<(Seq<char>, SpecValue)>::empty() =~= dict_view(out@));
        Ok(out)
    }

    /// `value[index]`, after the references in `value` are resolved.
    pub fn get_from_index(&self, value: &Value, index: &Value) -> (r: Result<Value, RuntimeError>)
        ensures
            result_view(r) == get_from_index(self@, value@, index@),
    {
        match self.deref_value(value) {
            Ok(v) => index_value(&v, index),
            Err(e) => Err(e),
        }
    }
}

proof fn lemma_push_to_set(s: Seq<u128>, x: u128)
    ensures
        s.push(x).to_set() == s.to_set().insert(x),
{
    assert forall|y: u128| #[trigger] s.push(x).to_set().contains(y) == s.to_set().insert(x).contains(y) by {
        if s.contains(y) {
            let m = choose|m: int| 0 <= m < s.len() && s[m] == y;
            assert(s.push(x)[m] == y);
        }
        if s.push(x).contains(y) {
            let m = choose|m: int| 0 <= m < s.push(x).len() && s.push(x)[m] == y;
            if m < s.len() {
                assert(s[m] == y);
            }
        }
        if y == x {
            assert(s.push(x)[s.len() as int] == x);
        }
    }
    assert(s.push(x).to_set() =~= s.to_set().insert(x));
}

fn copy_ids(s: &Vec<u128>) -> (r: Vec<u128>)
    ensures
        r@ == s@,
{
    let mut r: Vec<u128> = Vec::new();
    let mut i: usize = 0;
    while i < s.len()
        invariant
            i <= s@.len(),
            r@ == s@.take(i as int),
        decreases s@.len() - i,
    {
        r.push(s[i]);
        i = i + 1;
        assert(r@ =~= s@.take(i as int));
    }
    assert(s@.take(i as int) =~= s@);
    r
}


// ---------------------------------------------------------------------------
// Modules and functions
// ---------------------------------------------------------------------------

pub open spec fn item_result(r: Result<ModuleItem, RuntimeError>) -> Result<
    SpecModuleItem,
    SpecRuntimeError,
> {
    match r {
        Ok(m) => Ok(module_item_view(m)),
        Err(e) => Err(e@),
    }
}

pub open spec fn fn_result(r: Result<FunctionType, RuntimeError>) -> Result<
    SpecFunction,
    SpecRuntimeError,
> {
    match r {
        Ok(f) => Ok(function_view(f)),
        Err(e) => Err(e@),
    }
}

/// The position of the first module entry with key `k`.
pub fn lookup_module_entry(s: &Vec<(String, ModuleItem)>, k: &str) -> (r: Option<usize>)
    ensures
        match r {
            Some(i) => i < s@.len() && dict_lookup(module_entries_view(s@), k@) == Some(
                module_item_view(s@[i as int].1),
            ),
            None => dict_lookup(module_entries_view(s@), k@) is None,
        },
{
    let ghost sv = module_entries_view(s@);
    proof {
        lemma_module_entries_view(s@);
    }
    match find_key(s, k) {
        Some(i) => {
            proof {
                lemma_key_index_first(sv, k@, i as int);
            }
            Some(i)
        },
        None => {
            proof {
                lemma_key_index_absent(sv, k@);
            }
            None
        },
    }
}

/// The position of the `use` whose key is `k`.
fn lookup_use(s: &Vec<(String, Vec<String>)>, k: &str) -> (r: Option<usize>)
    ensures
        match r {
            Some(i) => i < s@.len() && dict_lookup(uses_view(s@), k@) == Some(
                strings_view(s@[i as int].1@),
            ),
            None => dict_lookup(uses_view(s@), k@) is None,
        },
{
    let ghost sv = uses_view(s@);
    match find_key(s, k) {
        Some(i) => {
            proof {
                lemma_key_index_first(sv, k@, i as int);
            }
            Some(i)
        },
        None => {
            proof {
                lemma_key_index_absent(sv, k@);
            }
            None
        },
    }
}

pub fn copy_strings(v: &Vec<String>) -> (r: Vec<String>)
    ensures
        strings_view(r@) == strings_view(v@),
{
    let mut r: Vec<String> = Vec::new();
    let mut i: usize = 0;
    while i < v.len()
        invariant
            i <= v@.len(),
            strings_view(r@) == strings_view(v@.take(i as int)),
        decreases v@.len() - i,
    {
        let x = copy_string(&v[i]);
        proof {
            crate::ast::lemma_strings_view_push(r@, x);
        }
        r.push(x);
        i = i + 1;
        assert(strings_view(r@) =~= strings_view(v@.take(i as int)));
    }
    assert(v@.take(i as int) =~= v@);
    r
}

impl<H: HostFunctions> Runtime<H> {
    /// The item at a module path.
    pub fn load_from_module(&self, ns: &Vec<String>) -> (r: Result<ModuleItem, RuntimeError>)
        ensures
            item_result(r) == load_from_module(self@.modules, strings_view(ns@)),
    {
        let ghost nv = strings_view(ns@);
        if ns.len() == 0 {
            return Err(RuntimeError::ModuleNotFound { module: String::new() });
        }
        assert(nv[0] == ns@[0]@);
        let mut cur: &ModuleItem = match lookup_module_entry(&self.modules, ns[0].as_str()) {
            Some(k) => &self.modules[k].1,
            None => {
                return Err(RuntimeError::ModuleNotFound { module: copy_string(&ns[0]) });
            },
        };
        let mut i: usize = 1;
        while i < ns.len()
            invariant
                1 <= i <= ns@.len(),
                nv == strings_view(ns@),
                descend(module_item_view(*cur), nv, i as int) == load_from_module(
                    self@.modules,
                    nv,
                ),
            decreases ns@.len() - i,
        {
            assert(nv[i as int] == ns@[i as int]@);
            match cur {
                ModuleItem::SubModule(info) => match lookup_module_entry(&info.0, ns[i].as_str()) {
                    Some(k) => {
                        cur = &info.0[k].1;
                    },
                    None => {
                        return Err(
                            RuntimeError::ModulePartNotFound {
                                part: copy_string(&ns[i]),
                                module: copy_string(&ns[0]),
                            },
                        );
                    },
                },
                _ => {
                    return Err(
                        RuntimeError::ModulePartNotFound {
                            part: copy_string(&ns[i]),
                            module: copy_string(&ns[0]),
                        },
                    );
                },
            }
            i = i + 1;
        }
        Ok(copy_module_item(cur))
    }

    /// The item at a module path, also through a `use` of its first part.
    pub fn get_module_value(&self, ns: &Vec<String>) -> (r: Result<ModuleItem, RuntimeError>)
        ensures
            item_result(r) == get_module_value(self@, strings_view(ns@)),
    {
        let ghost nv = strings_view(ns@);
        match self.load_from_module(ns) {
            Ok(v) => Ok(v),
            Err(e) => {
                if ns.len() == 0 {
                    return Err(e);
                }
                assert(nv[0] == ns@[0]@);
                match lookup_use(&self.namespace_use, ns[0].as_str()) {
                    Some(k) => {
                        let used = &self.namespace_use[k].1;
                        let ghost uv = strings_view(used@);
                        let skip_first = used.len() > 0 && str_eq(
                            used[used.len() - 1].as_str(),
                            ns[0].as_str(),
                        );
                        assert(used.len() > 0 ==> uv.last() == used@[used@.len() - 1]@);
                        let mut path = copy_strings(used);
                        let mut j: usize = if skip_first {
                            1
                        } else {
                            0
                        };
                        let ghost rest = if skip_first {
                            nv.drop_first()
                        } else {
                            nv
                        };
                        let ghost start = j;
                        while j < ns.len()
                            invariant
                                start <= j <= ns@.len(),
                                start <= 1,
                                nv == strings_view(ns@),
                                rest == nv.skip(start as int),
                                strings_view(path@) == uv + nv.subrange(start as int, j as int),
                            decreases ns@.len() - j,
                        {
                            let x = copy_string(&ns[j]);
                            proof {
                                crate::ast::lemma_strings_view_push(path@, x);
                            }
                            path.push(x);
                            j = j + 1;
                            assert(strings_view(path@) =~= uv + nv.subrange(start as int, j as int));
                        }
                        assert(nv.subrange(start as int, j as int) =~= rest);
                        self.load_from_module(&path)
                    },
                    None => Err(RuntimeError::ModuleNotFound { module: copy_string(&ns[0]) }),
                }
            },
        }
    }

    /// The function that a call names.
    pub fn get_function(&self, name: &FunctionName) -> (r: Result<FunctionType, RuntimeError>)
        ensures
            fn_result(r) == get_function(self@, name_view(*name)),
    {
        match name {
            FunctionName::Single(n) => {
                let mut i = self.scopes.len();
                while i > 0
                    invariant
                        i <= self.scopes@.len(),
                        name_view(*name) == SpecFnName::Single(n@),
                        scan_fn(self@, n@, i as int) == scan_fn(
                            self@,
                            n@,
                            self@.scopes.len() as int,
                        ),
                    decreases i,
                {
                    assert(self@.scopes[i - 1] == scope_view(self.scopes@[i - 1]));
                    match lookup_binding(&self.scopes[i - 1].data, n.as_str()) {
                        Some(id) => {
                            match self.data.get(&id) {
                                Some(DataType::Variable(Value::Function(f))) => {
                                    return Ok(copy_function(f));
                                },
                                _ => {},
                            }
                        },
                        None => {},
                    }
                    i = i - 1;
                }
                let mut path: Vec<String> = Vec::new();
                path.push(copy_string(n));
                assert(strings_view(path@) =~= seq![n@]);
                match self.get_module_value(&path) {
                    Ok(ModuleItem::Function(f)) => Ok(f),
                    _ => Err(RuntimeError::FunctionNotFound { name: copy_string(n) }),
                }
            },
            FunctionName::Namespace(ns) => match self.get_module_value(ns) {
                Ok(ModuleItem::Function(f)) => Ok(f),
                Ok(_) => Err(RuntimeError::FunctionNotFound { name: name.as_single() }),
                Err(e) => Err(e),
            },
        }
    }

    /// The method `name` of the module named after a value's type.
    pub fn method_lookup(&self, kind: &str, name: &str) -> (r: Option<FunctionType>)
        ensures
            match r {
                Some(f) => method_lookup(self@, kind@, name@) == Some(function_view(f)),
                None => method_lookup(self@, kind@, name@) is None,
            },
    {
        match lookup_module_entry(&self.modules, kind) {
            Some(k) => match &self.modules[k].1 {
                ModuleItem::SubModule(sub) => match lookup_module_entry(&sub.0, name) {
                    Some(j) => match &sub.0[j].1 {
                        ModuleItem::Function(f) => Some(copy_function(f)),
                        _ => None,
                    },
                    None => None,
                },
                _ => None,
            },
            None => None,
        }
    }

    /// A named script function defined in the innermost scope.
    pub fn add_script_function(&mut self, func: &Rc<FunctionDefine>) -> (r: Result<
        (Option<u128>, Value),
        RuntimeError,
    >)
        ensures
            (final(self)@, match r {
                Ok((id, v)) => Ok((id, v@)),
                Err(e) => Err(e@),
            }) == add_script_function(old(self)@, define_view(**func)),
            old(self).wf() ==> final(self).wf(),
    {
        match &func.name {
            Some(n) => {
                let empty: Vec<(String, u128)> = Vec::new();
                assert(env_view(empty@) =~= Seq::<(Seq<char>, u128)>::empty());
                let f = Value::Function(FunctionType::DScript((share_define(func), empty)));
                let g = copy_value(&f);
                match self.create_var(n.as_str(), f) {
                    Ok(id) => Ok((Some(id), g)),
                    Err(e) => Err(e),
                }
            },
            None => Err(RuntimeError::AnonymousFunctionInRoot),
        }
    }

    /// The named functions among the statements, defined before they run.
    pub fn collect_functions(&mut self, statements: &Vec<DioAstStatement>) -> (r: Result<
        (),
        RuntimeError,
    >)
        ensures
            (final(self)@, unit_result(r)) == collect_functions(
                old(self)@,
                stmts_view(statements@),
            ),
            old(self).wf() ==> final(self).wf(),
    {
        let ghost sv = stmts_view(statements@);
        proof {
            lemma_stmts_view(statements@);
            assert(sv.skip(0) =~= sv);
        }
        let mut i: usize = 0;
        while i < statements.len()
            invariant
                i <= statements@.len(),
                sv == stmts_view(statements@),
                sv.len() == statements@.len(),
                forall|m: int| 0 <= m < statements@.len() ==> #[trigger] sv[m] == stmt_view(statements@[m]),
                collect_functions(self@, sv.skip(i as int)) == collect_functions(old(self)@, sv),
                old(self).wf() ==> self.wf(),
            decreases statements@.len() - i,
        {
            let ghost rest = sv.skip(i as int);
            assert(rest[0] == stmt_view(statements@[i as int]));
            assert(rest.drop_first() =~= sv.skip(i + 1));
            match &statements[i] {
                DioAstStatement::FunctionDefine(fd) => {
                    if fd.name.is_some() {
                        match self.add_script_function(fd) {
                            Ok(_) => {},
                            Err(e) => {
                                return Err(e);
                            },
                        }
                    }
                },
                _ => {},
            }
            i = i + 1;
        }
        assert(sv.skip(i as int) =~= Seq::<SpecStmt>::empty());
        Ok(())
    }

    /// Makes a module reachable under `name`.
    pub fn bind_module(&mut self, name: &str, module: ModuleGenerator)
        ensures
            final(self)@ == bind_module(old(self)@, name@, module@),
            old(self).wf() ==> final(self).wf(),
    {
        put_module_entry(&mut self.modules, name, module.to_module_item());
    }

    /// Stores a value under a fresh id.
    pub fn create_data(&mut self, data: Value) -> (r: Result<u128, RuntimeError>)
        ensures
            (final(self)@, id_result(r)) == create_data(old(self)@, data@),
            old(self).wf() ==> final(self).wf(),
    {
        if self.next_id == u128::MAX || self.data.contains_key(&self.next_id) {
            return Err(RuntimeError::IdSpaceExhausted);
        }
        let id = self.next_id;
        let ghost dv = data@;
        let _ = self.data.insert(id, DataType::Variable(data));
        self.next_id = id + 1;
        assert(self@.data =~= old(self)@.data.insert(id, dv));
        Ok(id)
    }
}

} // verus!
