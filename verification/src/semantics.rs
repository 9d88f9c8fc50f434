//! The model of the runtime: its state, the operations on variables and
//! references, and the evaluation of scripts as a definition over that state.
//!
//! Evaluation takes a depth: each function call and each loop iteration uses
//! one level, and running out of levels is an error. Everything else recurses
//! on the syntax.
use vstd::prelude::*;

use crate::ast::{
    fn_name_text, CalculateMark, SpecAstContent, SpecAstElement, SpecAstValue, SpecCall,
    SpecExpr, SpecFnDefine, SpecFnName, SpecLinkPart, SpecLoopKind, SpecStmt,
};
use crate::error::SpecRuntimeError;
use crate::ops::{calc_spec, index_spec, value_content};
use crate::parser::parse_script;
use crate::text::{int_numeral, split_pieces, std_lowercase, std_uppercase};
use crate::value::{
    dict_lookup, key_index, kind_name, truthy, value_text, BuiltinFunction, SpecContent, SpecElement,
    SpecFunction, SpecValue,
};

verus! {

/// A scope: the names it binds to variable ids, and whether lookups stop at
/// it (the scope of a function call).
pub struct SpecScope {
    pub isolate: bool,
    pub vars: Seq<(Seq<char>, u128)>,
}

/// An entry of a module: a function, a value, or a module of its own.
pub enum SpecModuleItem {
    Function(SpecFunction),
    Variable(SpecValue),
    SubModule(Seq<(Seq<char>, SpecModuleItem)>),
}

/// What each function of the host program returns for its arguments, by
/// its number.
pub type HostModel = spec_fn(usize, Seq<SpecValue>) -> Result<SpecValue, SpecRuntimeError>;

/// The state of the runtime; `host` is what the functions of the host
/// program bound to it return.
pub struct SpecRuntime {
    pub scopes: Seq<SpecScope>,
    pub data: Map<u128, SpecValue>,
    pub next_id: u128,
    pub modules: Seq<(Seq<char>, SpecModuleItem)>,
    pub namespace_use: Seq<(Seq<char>, Seq<Seq<char>>)>,
    pub output: Seq<Seq<char>>,
    pub host: HostModel,
}

/// `k` bound to `v`: the first entry with key `k` takes the new value, or a
/// new entry is added at the end.
pub open spec fn put<V>(s: Seq<(Seq<char>, V)>, k: Seq<char>, v: V) -> Seq<(Seq<char>, V)> {
    match key_index(s, k) {
        Some(i) => s.update(i, (k, v)),
        None => s.push((k, v)),
    }
}

/// The names that no variable may take.
pub open spec fn reserved(name: Seq<char>) -> bool {
    name == "let"@ || name == "if"@ || name == "else"@ || name == "for"@ || name == "in"@
        || name == "while"@ || name == "fn"@ || name == "return"@ || name == "use"@ || name
        == "true"@ || name == "false"@
}

// ---------------------------------------------------------------------------
// Scopes and variables
// ---------------------------------------------------------------------------

pub open spec fn enter_scope(rt: SpecRuntime, isolate: bool) -> SpecRuntime {
    SpecRuntime { scopes: rt.scopes.push(SpecScope { isolate, vars: Seq::empty() }), ..rt }
}

pub open spec fn leave_scope(rt: SpecRuntime) -> SpecRuntime {
    if rt.scopes.len() > 0 {
        SpecRuntime { scopes: rt.scopes.drop_last(), ..rt }
    } else {
        rt
    }
}

/// The variable that `name` denotes, looking from scope `i - 1` outwards and
/// stopping after a function scope; a binding whose data is gone is passed.
pub open spec fn find_var_from(rt: SpecRuntime, name: Seq<char>, i: int) -> Option<u128>
    decreases i,
{
    if i <= 0 || i > rt.scopes.len() {
        None
    } else {
        let sc = rt.scopes[i - 1];
        match dict_lookup(sc.vars, name) {
            Some(id) => if rt.data.contains_key(id) {
                Some(id)
            } else if sc.isolate {
                None
            } else {
                find_var_from(rt, name, i - 1)
            },
            None => if sc.isolate {
                None
            } else {
                find_var_from(rt, name, i - 1)
            },
        }
    }
}

pub open spec fn find_var(rt: SpecRuntime, name: Seq<char>) -> Option<u128> {
    find_var_from(rt, name, rt.scopes.len() as int)
}

/// The id and the value of a variable.
pub open spec fn get_var(rt: SpecRuntime, name: Seq<char>) -> Result<
    (u128, SpecValue),
    SpecRuntimeError,
> {
    match find_var(rt, name) {
        Some(id) => Ok((id, rt.data[id])),
        None => Err(SpecRuntimeError::VariableNotFound { name }),
    }
}

/// A new variable in the innermost scope, under the next id, which must
/// hold nothing yet.
pub open spec fn create_var(rt: SpecRuntime, name: Seq<char>, v: SpecValue) -> (
    SpecRuntime,
    Result<u128, SpecRuntimeError>,
) {
    if reserved(name) {
        (rt, Err(SpecRuntimeError::UsingReservedKeyword { keyword: name }))
    } else if rt.scopes.len() == 0 {
        (rt, Err(SpecRuntimeError::ScopeNotFound))
    } else if dict_lookup(rt.scopes.last().vars, name) is Some {
        (rt, Err(SpecRuntimeError::VariableAlreadyDefined { name }))
    } else if rt.next_id == u128::MAX || rt.data.contains_key(rt.next_id) {
        (rt, Err(SpecRuntimeError::IdSpaceExhausted))
    } else {
        let id = rt.next_id;
        let last = rt.scopes.last();
        (
            SpecRuntime {
                scopes: rt.scopes.update(
                    rt.scopes.len() - 1,
                    SpecScope { isolate: last.isolate, vars: last.vars.push((name, id)) },
                ),
                data: rt.data.insert(id, v),
                next_id: (id + 1) as u128,
                ..rt
            },
            Ok(id),
        )
    }
}

/// The value stored under an id.
pub open spec fn get_ref(rt: SpecRuntime, id: u128) -> Result<SpecValue, SpecRuntimeError> {
    if rt.data.contains_key(id) {
        Ok(rt.data[id])
    } else {
        Err(SpecRuntimeError::UnknownPointer { pointer: id })
    }
}

/// Replaces the value stored under an id.
pub open spec fn set_ref(rt: SpecRuntime, id: u128, v: SpecValue) -> (
    SpecRuntime,
    Result<(), SpecRuntimeError>,
) {
    if rt.data.contains_key(id) {
        (SpecRuntime { data: rt.data.insert(id, v), ..rt }, Ok(()))
    } else {
        (rt, Err(SpecRuntimeError::UnknownPointer { pointer: id }))
    }
}

/// The end of a chain of references from `id`, after at most 35 hops.
pub open spec fn follow_ref(rt: SpecRuntime, id: u128, hops: nat) -> Result<
    u128,
    SpecRuntimeError,
>
    decreases 36 - hops,
{
    if !rt.data.contains_key(id) {
        Err(SpecRuntimeError::UnknownPointer { pointer: id })
    } else {
        match rt.data[id] {
            SpecValue::Reference(next) => if hops + 1 > 35 {
                Err(SpecRuntimeError::CircularReference)
            } else {
                follow_ref(rt, next, hops + 1)
            },
            _ => Ok(id),
        }
    }
}

/// The end of a chain of references holds a value.
pub proof fn lemma_follow_ref_found(rt: SpecRuntime, id: u128, hops: nat)
    ensures
        follow_ref(rt, id, hops) matches Ok(t) ==> rt.data.contains_key(t),
    decreases 36 - hops,
{
    if rt.data.contains_key(id) {
        if let SpecValue::Reference(next) = rt.data[id] {
            if hops + 1 <= 35 {
                lemma_follow_ref_found(rt, next, hops + 1);
            }
        }
    }
}

/// The scope, from `i - 1` outwards and before any function scope, in which
/// `name` is bound.
pub open spec fn rebind_scope(rt: SpecRuntime, name: Seq<char>, i: int) -> Option<int>
    decreases i,
{
    if i <= 0 || i > rt.scopes.len() {
        None
    } else if rt.scopes[i - 1].isolate {
        None
    } else if dict_lookup(rt.scopes[i - 1].vars, name) is Some {
        Some(i - 1)
    } else {
        rebind_scope(rt, name, i - 1)
    }
}

/// Assignment to an existing variable: a reference rebinds the name, any
/// other value is stored at the end of the variable's chain of references.
pub open spec fn set_var(rt: SpecRuntime, name: Seq<char>, v: SpecValue) -> (
    SpecRuntime,
    Result<u128, SpecRuntimeError>,
) {
    match get_var(rt, name) {
        Err(e) => (rt, Err(e)),
        Ok((cur, _)) => match v {
            SpecValue::Reference(new_id) => match rebind_scope(
                rt,
                name,
                rt.scopes.len() as int,
            ) {
                Some(i) => {
                    let sc = rt.scopes[i];
                    (
                        SpecRuntime {
                            scopes: rt.scopes.update(
                                i,
                                SpecScope { isolate: sc.isolate, vars: put(sc.vars, name, new_id) },
                            ),
                            ..rt
                        },
                        Ok(new_id),
                    )
                },
                None => (rt, Err(SpecRuntimeError::VariableNotFound { name })),
            },
            _ => match follow_ref(rt, cur, 0) {
                Err(e) => (rt, Err(e)),
                Ok(t) => (SpecRuntime { data: rt.data.insert(t, v), ..rt }, Ok(t)),
            },
        },
    }
}

/// The bindings of `vars` added to `acc`, except `skip` and the names that
/// `acc` binds already.
pub open spec fn add_bindings(
    acc: Seq<(Seq<char>, u128)>,
    vars: Seq<(Seq<char>, u128)>,
    skip: Option<Seq<char>>,
) -> Seq<(Seq<char>, u128)>
    decreases vars.len(),
{
    if vars.len() == 0 {
        acc
    } else {
        let (k, id) = vars[0];
        let acc2 = if skip == Some(k) || key_index(acc, k) is Some {
            acc
        } else {
            acc.push((k, id))
        };
        add_bindings(acc2, vars.drop_first(), skip)
    }
}

pub open spec fn free_vars_from(
    rt: SpecRuntime,
    skip: Option<Seq<char>>,
    i: int,
    acc: Seq<(Seq<char>, u128)>,
) -> Seq<(Seq<char>, u128)>
    decreases i,
{
    if i <= 0 || i > rt.scopes.len() {
        acc
    } else {
        let sc = rt.scopes[i - 1];
        let acc2 = add_bindings(acc, sc.vars, skip);
        if sc.isolate {
            acc2
        } else {
            free_vars_from(rt, skip, i - 1, acc2)
        }
    }
}

/// The variables that a function defined now can see: for each name the
/// innermost binding, up to the nearest function scope, except the
/// function's own name.
pub open spec fn collect_free_vars(rt: SpecRuntime, skip: Option<Seq<char>>) -> Seq<
    (Seq<char>, u128),
> {
    free_vars_from(rt, skip, rt.scopes.len() as int, Seq::empty())
}

/// The bindings of `env` made in the innermost scope.
pub open spec fn bind_env_from(s: Seq<(Seq<char>, u128)>, env: Seq<(Seq<char>, u128)>) -> Seq<
    (Seq<char>, u128),
>
    decreases env.len(),
{
    if env.len() == 0 {
        s
    } else {
        bind_env_from(put(s, env[0].0, env[0].1), env.drop_first())
    }
}

pub open spec fn bind_env(rt: SpecRuntime, env: Seq<(Seq<char>, u128)>) -> SpecRuntime {
    if rt.scopes.len() > 0 {
        let last = rt.scopes.last();
        SpecRuntime {
            scopes: rt.scopes.update(
                rt.scopes.len() - 1,
                SpecScope { isolate: last.isolate, vars: bind_env_from(last.vars, env) },
            ),
            ..rt
        }
    } else {
        rt
    }
}

// ---------------------------------------------------------------------------
// References inside values
// ---------------------------------------------------------------------------

pub proof fn lemma_unseen_shrinks(dom: Set<u128>, seen: Set<u128>, id: u128)
    requires
        dom.finite(),
        dom.contains(id),
        !seen.contains(id),
    ensures
        dom.difference(seen.insert(id)).len() < dom.difference(seen).len(),
{
    assert(dom.difference(seen.insert(id)) =~= dom.difference(seen).remove(id));
    vstd::set::axiom_set_difference_finite(dom, seen);
    vstd::set::axiom_set_remove_len(dom.difference(seen), id);
}

/// The value with every reference in it replaced by what it refers to; a
/// reference met again on the way down is a cycle.
pub open spec fn deref_seen(rt: SpecRuntime, v: SpecValue, seen: Set<u128>) -> Result<
    SpecValue,
    SpecRuntimeError,
>
    decreases rt.data.dom().difference(seen).len(), v, 0nat,
    when rt.data.dom().finite()
{
    match v {
        SpecValue::List(xs) => match deref_list(rt, xs, seen) {
            Ok(ys) => Ok(SpecValue::List(ys)),
            Err(e) => Err(e),
        },
        SpecValue::Dict(d) => match deref_dict(rt, d, seen) {
            Ok(ys) => Ok(SpecValue::Dict(ys)),
            Err(e) => Err(e),
        },
        SpecValue::Tuple(a, b) => match deref_seen(rt, *a, seen) {
            Ok(x) => match deref_seen(rt, *b, seen) {
                Ok(y) => Ok(SpecValue::Tuple(Box::new(x), Box::new(y))),
                Err(e) => Err(e),
            },
            Err(e) => Err(e),
        },
        SpecValue::Reference(id) => if seen.contains(id) {
            Err(SpecRuntimeError::CircularReference)
        } else if !rt.data.contains_key(id) {
            Err(SpecRuntimeError::UnknownPointer { pointer: id })
        } else {
            proof {
                lemma_unseen_shrinks(rt.data.dom(), seen, id);
            }
            deref_seen(rt, rt.data[id], seen.insert(id))
        },
        _ => Ok(v),
    }
}

pub open spec fn deref_list(rt: SpecRuntime, xs: Seq<SpecValue>, seen: Set<u128>) -> Result<
    Seq<SpecValue>,
    SpecRuntimeError,
>
    decreases rt.data.dom().difference(seen).len(), xs, 0nat,
    when rt.data.dom().finite()
{
    if xs.len() == 0 {
        Ok(Seq::empty())
    } else {
        match deref_seen(rt, xs[0], seen) {
            Ok(y) => match deref_list(rt, xs.drop_first(), seen) {
                Ok(ys) => Ok(seq![y] + ys),
                Err(e) => Err(e),
            },
            Err(e) => Err(e),
        }
    }
}

pub open spec fn deref_dict(
    rt: SpecRuntime,
    d: Seq<(Seq<char>, SpecValue)>,
    seen: Set<u128>,
) -> Result<Seq<(Seq<char>, SpecValue)>, SpecRuntimeError>
    decreases rt.data.dom().difference(seen).len(), d, 0nat,
    when rt.data.dom().finite()
{
    if d.len() == 0 {
        Ok(Seq::empty())
    } else {
        match deref_seen(rt, d[0].1, seen) {
            Ok(y) => match deref_dict(rt, d.drop_first(), seen) {
                Ok(ys) => Ok(seq![(d[0].0, y)] + ys),
                Err(e) => Err(e),
            },
            Err(e) => Err(e),
        }
    }
}

pub open spec fn deref(rt: SpecRuntime, v: SpecValue) -> Result<SpecValue, SpecRuntimeError> {
    deref_seen(rt, v, Set::empty())
}

/// `value[index]`, after the references in `value` are resolved.
pub open spec fn get_from_index(rt: SpecRuntime, value: SpecValue, index: SpecValue) -> Result<
    SpecValue,
    SpecRuntimeError,
> {
    match deref(rt, value) {
        Ok(v) => index_spec(v, index),
        Err(e) => Err(e),
    }
}

// ---------------------------------------------------------------------------
// Modules and functions
// ---------------------------------------------------------------------------

pub open spec fn descend(item: SpecModuleItem, ns: Seq<Seq<char>>, i: int) -> Result<
    SpecModuleItem,
    SpecRuntimeError,
>
    decreases ns.len() - i,
{
    if i < 1 || i >= ns.len() {
        Ok(item)
    } else {
        match item {
            SpecModuleItem::SubModule(sub) => match dict_lookup(sub, ns[i]) {
                Some(x) => descend(x, ns, i + 1),
                None => Err(SpecRuntimeError::ModulePartNotFound { part: ns[i], module: ns[0] }),
            },
            _ => Err(SpecRuntimeError::ModulePartNotFound { part: ns[i], module: ns[0] }),
        }
    }
}

/// The item at a module path.
pub open spec fn load_from_module(
    modules: Seq<(Seq<char>, SpecModuleItem)>,
    ns: Seq<Seq<char>>,
) -> Result<SpecModuleItem, SpecRuntimeError> {
    if ns.len() == 0 {
        Err(SpecRuntimeError::ModuleNotFound { module: Seq::empty() })
    } else {
        match dict_lookup(modules, ns[0]) {
            Some(item) => descend(item, ns, 1),
            None => Err(SpecRuntimeError::ModuleNotFound { module: ns[0] }),
        }
    }
}

/// The item at a module path, also through a `use` of its first part.
pub open spec fn get_module_value(rt: SpecRuntime, ns: Seq<Seq<char>>) -> Result<
    SpecModuleItem,
    SpecRuntimeError,
> {
    match load_from_module(rt.modules, ns) {
        Ok(v) => Ok(v),
        Err(e) => if ns.len() == 0 {
            Err(e)
        } else {
            match dict_lookup(rt.namespace_use, ns[0]) {
                Some(used) => {
                    let rest = if used.len() > 0 && used.last() == ns[0] {
                        ns.drop_first()
                    } else {
                        ns
                    };
                    load_from_module(rt.modules, used + rest)
                },
                None => Err(SpecRuntimeError::ModuleNotFound { module: ns[0] }),
            }
        }
    }
}

/// The function bound to `name` in scope `i - 1` or an outer one.
pub open spec fn scan_fn(rt: SpecRuntime, name: Seq<char>, i: int) -> Option<SpecFunction>
    decreases i,
{
    if i <= 0 || i > rt.scopes.len() {
        None
    } else {
        match dict_lookup(rt.scopes[i - 1].vars, name) {
            Some(id) => if rt.data.contains_key(id) && rt.data[id] is Function {
                Some(rt.data[id]->Function_0)
            } else {
                scan_fn(rt, name, i - 1)
            },
            None => scan_fn(rt, name, i - 1),
        }
    }
}

/// The function that a call names: a variable holding a function in any
/// scope, else a module function.
pub open spec fn get_function(rt: SpecRuntime, name: SpecFnName) -> Result<
    SpecFunction,
    SpecRuntimeError,
> {
    match name {
        SpecFnName::Single(n) => match scan_fn(rt, n, rt.scopes.len() as int) {
            Some(f) => Ok(f),
            None => match get_module_value(rt, seq![n]) {
                Ok(SpecModuleItem::Function(f)) => Ok(f),
                _ => Err(SpecRuntimeError::FunctionNotFound { name: n }),
            },
        },
        SpecFnName::Namespace(ns) => match get_module_value(rt, ns) {
            Ok(SpecModuleItem::Function(f)) => Ok(f),
            Ok(_) => Err(SpecRuntimeError::FunctionNotFound { name: fn_name_text(name) }),
            Err(e) => Err(e),
        },
    }
}

/// The method `name` of the module named after a value's type.
pub open spec fn method_lookup(rt: SpecRuntime, kind: Seq<char>, name: Seq<char>) -> Option<
    SpecFunction,
> {
    match dict_lookup(rt.modules, kind) {
        Some(SpecModuleItem::SubModule(sub)) => match dict_lookup(sub, name) {
            Some(SpecModuleItem::Function(f)) => Some(f),
            _ => None,
        },
        _ => None,
    }
}

/// The named functions of a block, defined before its statements run.
pub open spec fn collect_functions(rt: SpecRuntime, stmts: Seq<SpecStmt>) -> (
    SpecRuntime,
    Result<(), SpecRuntimeError>,
)
    decreases stmts.len(),
{
    if stmts.len() == 0 {
        (rt, Ok(()))
    } else {
        match stmts[0] {
            SpecStmt::FunctionDefine(d) => match d.name {
                Some(n) => {
                    let (rt1, r) = create_var(
                        rt,
                        n,
                        SpecValue::Function(SpecFunction::DScript(d, Seq::empty())),
                    );
                    match r {
                        Ok(_) => collect_functions(rt1, stmts.drop_first()),
                        Err(e) => (rt1, Err(e)),
                    }
                },
                None => collect_functions(rt, stmts.drop_first()),
            },
            _ => collect_functions(rt, stmts.drop_first()),
        }
    }
}

/// A named script function defined as a variable of the innermost scope.
pub open spec fn add_script_function(rt: SpecRuntime, d: SpecFnDefine) -> (
    SpecRuntime,
    Result<(Option<u128>, SpecValue), SpecRuntimeError>,
) {
    match d.name {
        Some(n) => {
            let f = SpecValue::Function(SpecFunction::DScript(d, Seq::empty()));
            let (rt1, r) = create_var(rt, n, f);
            match r {
                Ok(id) => (rt1, Ok((Some(id), f))),
                Err(e) => (rt1, Err(e)),
            }
        },
        None => (rt, Err(SpecRuntimeError::AnonymousFunctionInRoot)),
    }
}

/// A module made reachable under `name`.
pub open spec fn bind_module(
    rt: SpecRuntime,
    name: Seq<char>,
    entries: Seq<(Seq<char>, SpecModuleItem)>,
) -> SpecRuntime {
    SpecRuntime { modules: put(rt.modules, name, SpecModuleItem::SubModule(entries)), ..rt }
}

/// A value stored under a fresh id that no name is bound to.
pub open spec fn create_data(rt: SpecRuntime, v: SpecValue) -> (
    SpecRuntime,
    Result<u128, SpecRuntimeError>,
) {
    if rt.next_id == u128::MAX || rt.data.contains_key(rt.next_id) {
        (rt, Err(SpecRuntimeError::IdSpaceExhausted))
    } else {
        (
            SpecRuntime {
                data: rt.data.insert(rt.next_id, v),
                next_id: (rt.next_id + 1) as u128,
                ..rt
            },
            Ok(rt.next_id),
        )
    }
}

// ---------------------------------------------------------------------------
// Element content and fields
// ---------------------------------------------------------------------------

/// What the value of a block inside an element adds to it: a pair of a name
/// and a value is an attribute; text, a number or an element is content.
pub open spec fn absorb(
    attrs: Seq<(Seq<char>, SpecValue)>,
    content: Seq<SpecContent>,
    v: SpecValue,
) -> (Seq<(Seq<char>, SpecValue)>, Seq<SpecContent>) {
    match v {
        SpecValue::Tuple(k, x) => match *k {
            SpecValue::String(name) => (put(attrs, name, *x), content),
            _ => (attrs, content),
        },
        SpecValue::String(s) => (attrs, content.push(SpecContent::Content(s))),
        SpecValue::Number(n) => (attrs, content.push(SpecContent::Content(int_numeral(n as int)))),
        SpecValue::Element(e) => (attrs, content.push(SpecContent::Children(e))),
        _ => (attrs, content),
    }
}

/// The field `name` of an element value: `name`, `attributes` or `content`.
pub open spec fn field_of(v: SpecValue, f: Seq<char>) -> Result<SpecValue, SpecRuntimeError> {
    match v {
        SpecValue::Element(e) => if f == "name"@ {
            Ok(SpecValue::String(e.name))
        } else if f == "attributes"@ {
            Ok(SpecValue::Dict(e.attributes))
        } else if f == "content"@ {
            Ok(SpecValue::List(content_values(e.content)))
        } else {
            Err(SpecRuntimeError::UnknownAttribute { attr: f, value: kind_name(v) })
        },
        _ => Err(SpecRuntimeError::UnknownAttribute { attr: f, value: kind_name(v) }),
    }
}

/// An element's content as values: children as elements, text as strings.
pub open spec fn content_values(cs: Seq<SpecContent>) -> Seq<SpecValue> {
    Seq::new(
        cs.len(),
        |i: int|
            match cs[i] {
                SpecContent::Children(c) => SpecValue::Element(c),
                SpecContent::Content(t) => SpecValue::String(t),
            },
    )
}


// ---------------------------------------------------------------------------
// Built-in functions
// ---------------------------------------------------------------------------

/// The values as `print` writes them: their texts separated by `, `.
pub open spec fn join_texts(vs: Seq<SpecValue>) -> Seq<char>
    decreases vs.len(),
{
    if vs.len() == 0 {
        Seq::empty()
    } else if vs.len() == 1 {
        value_text(vs[0])
    } else {
        join_texts(vs.drop_last()) + ", "@ + value_text(vs.last())
    }
}

/// The texts of the values, one after the other.
pub open spec fn concat_texts(vs: Seq<SpecValue>) -> Seq<char>
    decreases vs.len(),
{
    if vs.len() == 0 {
        Seq::empty()
    } else {
        concat_texts(vs.drop_last()) + value_text(vs.last())
    }
}

/// The number of bytes that a character takes in UTF-8.
pub open spec fn utf8_width(c: char) -> nat {
    if (c as u32) < 0x80 {
        1
    } else if (c as u32) < 0x800 {
        2
    } else if (c as u32) < 0x10000 {
        3
    } else {
        4
    }
}

/// The number of bytes of a text in UTF-8, which `str::len` reports.
pub open spec fn utf8_len(s: Seq<char>) -> nat
    decreases s.len(),
{
    if s.len() == 0 {
        0
    } else {
        utf8_len(s.drop_last()) + utf8_width(s.last())
    }
}

/// `s` written `n` times.
pub open spec fn repeat_text(s: Seq<char>, n: nat) -> Seq<char>
    decreases n,
{
    if n == 0 {
        Seq::empty()
    } else {
        repeat_text(s, (n - 1) as nat) + s
    }
}

/// The numbers from `x` up to but not including `e`, `step` apart.
pub open spec fn range_from(x: int, e: int, step: int) -> Seq<SpecValue>
    decreases if x < e {
        e - x
    } else {
        0
    },
{
    if step <= 0 || x >= e {
        Seq::empty()
    } else {
        seq![SpecValue::Number(#[verifier::truncate] (x as i64))] + range_from(x + step, e, step)
    }
}

/// `range(n)`, `range(start, end)` and `range(start, end, step)`; negative
/// bounds of the first two forms count as zero, and a step that is not
/// positive gives `none`.
pub open spec fn range_spec(args: Seq<SpecValue>) -> SpecValue {
    if args.len() == 1 {
        match args[0] {
            SpecValue::Number(n) => SpecValue::List(range_from(0, if n < 0 { 0 } else { n as int }, 1)),
            _ => SpecValue::Null,
        }
    } else if args.len() == 2 {
        match (args[0], args[1]) {
            (SpecValue::Number(s), SpecValue::Number(e)) => SpecValue::List(
                range_from(
                    if s < 0 { 0 } else { s as int },
                    if e < 0 { 0 } else { e as int },
                    1,
                ),
            ),
            _ => SpecValue::Null,
        }
    } else if args.len() == 3 {
        match (args[0], args[1], args[2]) {
            (SpecValue::Number(s), SpecValue::Number(e), SpecValue::Number(st)) => if st <= 0 {
                SpecValue::Null
            } else {
                SpecValue::List(range_from(s as int, e as int, st as int))
            },
            _ => SpecValue::Null,
        }
    } else {
        SpecValue::Null
    }
}

pub open spec fn arity_error(need: int, provided: int) -> SpecRuntimeError {
    SpecRuntimeError::IllegalArgumentsNumber { need: need as i64, provided: provided as i64 }
}

pub open spec fn unsupported(expect: Seq<char>, v: SpecValue) -> SpecRuntimeError {
    SpecRuntimeError::UnsupportDataType { expect_type: expect, receive_type: kind_name(v) }
}

/// The text that an argument holds, once its references are resolved.
pub open spec fn text_arg(rt: SpecRuntime, v: SpecValue) -> Result<Seq<char>, SpecRuntimeError> {
    match deref(rt, v) {
        Ok(SpecValue::String(s)) => Ok(s),
        Ok(w) => Err(unsupported("string"@, w)),
        Err(e) => Err(e),
    }
}

/// The largest (or, with `largest` false, the smallest) of the numbers
/// among the values, starting from the far end of the range.
pub open spec fn extreme(vs: Seq<SpecValue>, largest: bool) -> i64
    decreases vs.len(),
{
    if vs.len() == 0 {
        if largest {
            i64::MIN
        } else {
            i64::MAX
        }
    } else {
        let m = extreme(vs.drop_last(), largest);
        match vs.last() {
            SpecValue::Number(n) => if (largest && n > m) || (!largest && n < m) {
                n
            } else {
                m
            },
            _ => m,
        }
    }
}

/// The statements that a text parses to, or the message of its failure.
pub open spec fn parse_outcome(code: Seq<char>) -> Result<Seq<SpecStmt>, Seq<char>> {
    if code.len() + 16 <= usize::MAX {
        parse_script(code)
    } else {
        Err("Parse Error: the text is too long"@)
    }
}

/// A built-in function applied to its arguments; the ones that only compute.
pub open spec fn builtin_pure(rt: SpecRuntime, b: BuiltinFunction, args: Seq<SpecValue>) -> (
    SpecRuntime,
    Result<SpecValue, SpecRuntimeError>,
) {
    match b {
        BuiltinFunction::Print => (
            SpecRuntime { output: rt.output.push(join_texts(args)), ..rt },
            Ok(SpecValue::Null),
        ),
        BuiltinFunction::Println => (
            SpecRuntime { output: rt.output.push(join_texts(args) + "\n"@), ..rt },
            Ok(SpecValue::Null),
        ),
        BuiltinFunction::TypeName => if args.len() == 0 {
            (rt, Err(arity_error(1, 0)))
        } else {
            (rt, Ok(SpecValue::String(kind_name(args[0]))))
        },
        BuiltinFunction::Range => (rt, Ok(range_spec(args))),
        BuiltinFunction::StringJoin => if args.len() == 0 {
            (rt, Err(arity_error(1, 0)))
        } else {
            match text_arg(rt, args[0]) {
                Ok(s) => (rt, Ok(SpecValue::String(s + concat_texts(args.drop_first())))),
                Err(e) => (rt, Err(e)),
            }
        },
        BuiltinFunction::StringLen => if args.len() == 0 {
            (rt, Err(arity_error(1, 0)))
        } else {
            match text_arg(rt, args[0]) {
                Ok(s) => if utf8_len(s) <= i64::MAX {
                    (rt, Ok(SpecValue::Number(utf8_len(s) as i64)))
                } else {
                    (rt, Err(SpecRuntimeError::NumberOverflow))
                },
                Err(e) => (rt, Err(e)),
            }
        },
        BuiltinFunction::StringRepeat => if args.len() < 2 {
            (rt, Err(arity_error(2, args.len() as int)))
        } else {
            match text_arg(rt, args[0]) {
                Ok(s) => {
                    let n: nat = match args[1] {
                        SpecValue::Number(k) => if k < 0 {
                            0
                        } else {
                            k as nat
                        },
                        _ => 1,
                    };
                    (rt, Ok(SpecValue::String(repeat_text(s, n))))
                },
                Err(e) => (rt, Err(e)),
            }
        },
        BuiltinFunction::StringIsEmpty => if args.len() == 0 {
            (rt, Err(arity_error(1, 0)))
        } else {
            match text_arg(rt, args[0]) {
                Ok(s) => (rt, Ok(SpecValue::Boolean(s.len() == 0))),
                Err(e) => (rt, Err(e)),
            }
        },
        BuiltinFunction::StringLowercase => if args.len() == 0 {
            (rt, Err(arity_error(1, 0)))
        } else {
            match text_arg(rt, args[0]) {
                Ok(s) => (rt, Ok(SpecValue::String(std_lowercase(s)))),
                Err(e) => (rt, Err(e)),
            }
        },
        BuiltinFunction::StringUppercase => if args.len() == 0 {
            (rt, Err(arity_error(1, 0)))
        } else {
            match text_arg(rt, args[0]) {
                Ok(s) => (rt, Ok(SpecValue::String(std_uppercase(s)))),
                Err(e) => (rt, Err(e)),
            }
        },
        BuiltinFunction::StringSplit => if args.len() < 2 {
            (rt, Err(arity_error(2, args.len() as int)))
        } else {
            match text_arg(rt, args[0]) {
                Ok(s) => match text_arg(rt, args[1]) {
                    Ok(sep) => {
                        let parts = split_pieces(s, sep);
                        (
                            rt,
                            Ok(
                                SpecValue::List(
                                    Seq::new(parts.len(), |i: int| SpecValue::String(parts[i])),
                                ),
                            ),
                        )
                    },
                    Err(e) => (rt, Err(e)),
                },
                Err(e) => (rt, Err(e)),
            }
        },
        BuiltinFunction::NumberAbs => if args.len() == 0 {
            (rt, Err(arity_error(1, 0)))
        } else {
            match deref(rt, args[0]) {
                Ok(SpecValue::Number(n)) => (
                    rt,
                    if n == i64::MIN {
                        Err(SpecRuntimeError::NumberOverflow)
                    } else {
                        Ok(SpecValue::Number((if n < 0 { -n } else { n as int }) as i64))
                    },
                ),
                Ok(w) => (rt, Err(unsupported("number"@, w))),
                Err(e) => (rt, Err(e)),
            }
        },
        BuiltinFunction::NumberMax => (rt, Ok(SpecValue::Number(extreme(args, true)))),
        BuiltinFunction::NumberMin => (rt, Ok(SpecValue::Number(extreme(args, false)))),
        BuiltinFunction::ListInsert => if args.len() == 0 {
            (rt, Err(arity_error(1, 0)))
        } else {
            match args[0] {
                SpecValue::Reference(id) => match get_ref(rt, id) {
                    Ok(SpecValue::List(xs)) => {
                        let (rt1, r) = set_ref(rt, id, SpecValue::List(xs + args.drop_first()));
                        match r {
                            Ok(_) => (rt1, Ok(SpecValue::Null)),
                            Err(e) => (rt1, Err(e)),
                        }
                    },
                    Ok(_) => (rt, Err(unsupported("reference"@, args[0]))),
                    Err(e) => (rt, Err(e)),
                },
                _ => (rt, Err(unsupported("reference"@, args[0]))),
            }
        },
        BuiltinFunction::Execute => (rt, Ok(SpecValue::Null)),
    }
}

// ---------------------------------------------------------------------------
// Evaluation
// ---------------------------------------------------------------------------

/// The value of an expression, with the state after it.
pub open spec fn eval_expr(rt: SpecRuntime, e: SpecExpr, fuel: nat) -> (
    SpecRuntime,
    Result<SpecValue, SpecRuntimeError>,
)
    decreases 2 * fuel, e, 1nat,
{
    match e {
        SpecExpr::Value(v) => eval_value(rt, v, fuel),
        SpecExpr::Link { this, list } => {
            let (rt1, m) = eval_value(rt, this, fuel);
            match m {
                Err(x) => (rt1, Err(x)),
                Ok(meta) => {
                    let start = match this {
                        SpecAstValue::Variable(n) => match get_var(rt1, n) {
                            Ok((id, _)) => Ok(SpecValue::Reference(id)),
                            Err(x) => Err(x),
                        },
                        _ => Ok(meta),
                    };
                    match start {
                        Err(x) => (rt1, Err(x)),
                        Ok(t) => eval_link(rt1, t, kind_name(meta), list, fuel),
                    }
                },
            }
        },
        SpecExpr::Binary(m, l, r) => {
            let (rt1, a) = eval_expr(rt, *l, fuel);
            match a {
                Err(x) => (rt1, Err(x)),
                Ok(lv) => {
                    let (rt2, b) = eval_expr(rt1, *r, fuel);
                    match b {
                        Err(x) => (rt2, Err(x)),
                        Ok(rv) => (rt2, calc_spec(lv, rv, m)),
                    }
                },
            }
        },
    }
}

/// The expressions' values, from first to last.
pub open spec fn eval_exprs(rt: SpecRuntime, es: Seq<SpecExpr>, fuel: nat) -> (
    SpecRuntime,
    Result<Seq<SpecValue>, SpecRuntimeError>,
)
    decreases 2 * fuel, es, 0nat,
{
    if es.len() == 0 {
        (rt, Ok(Seq::empty()))
    } else {
        let (rt1, a) = eval_expr(rt, es[0], fuel);
        match a {
            Err(x) => (rt1, Err(x)),
            Ok(v) => {
                let (rt2, b) = eval_exprs(rt1, es.drop_first(), fuel);
                match b {
                    Err(x) => (rt2, Err(x)),
                    Ok(vs) => (rt2, Ok(seq![v] + vs)),
                }
            },
        }
    }
}

/// The parts of a chain `value.part...` applied in turn: a field of an
/// element, or a method of the module named after the first value's type,
/// whose result ends the chain.
pub open spec fn eval_link(
    rt: SpecRuntime,
    this: SpecValue,
    kind: Seq<char>,
    parts: Seq<SpecLinkPart>,
    fuel: nat,
) -> (SpecRuntime, Result<SpecValue, SpecRuntimeError>)
    decreases 2 * fuel, parts, 0nat,
{
    if parts.len() == 0 {
        (rt, deref(rt, this))
    } else {
        match parts[0] {
            SpecLinkPart::Field(f) => match deref(rt, this) {
                Err(x) => (rt, Err(x)),
                Ok(t) => match field_of(t, f) {
                    Err(x) => (rt, Err(x)),
                    Ok(t2) => eval_link(rt, t2, kind, parts.drop_first(), fuel),
                },
            },
            SpecLinkPart::Call(c) => {
                let (rt1, a) = eval_exprs(rt, c.arguments, fuel);
                match a {
                    Err(x) => (rt1, Err(x)),
                    Ok(args) => match method_lookup(rt1, kind, fn_name_text(c.name)) {
                        Some(f) => if fuel == 0 {
                            (rt1, Err(SpecRuntimeError::DepthLimitExceeded))
                        } else {
                            let (rt2, r) = apply(rt1, f, seq![this] + args, (fuel - 1) as nat);
                            match r {
                                Err(x) => (rt2, Err(x)),
                                Ok(v) => (rt2, deref(rt2, v)),
                            }
                        },
                        None => (
                            rt1,
                            Err(SpecRuntimeError::FunctionNotFound { name: fn_name_text(c.name) }),
                        ),
                    },
                }
            },
        }
    }
}

/// The entries of a dictionary literal, evaluated in order.
pub open spec fn eval_dict(
    rt: SpecRuntime,
    d: Seq<(Seq<char>, SpecExpr)>,
    acc: Seq<(Seq<char>, SpecValue)>,
    fuel: nat,
) -> (SpecRuntime, Result<Seq<(Seq<char>, SpecValue)>, SpecRuntimeError>)
    decreases 2 * fuel, d, 0nat,
{
    if d.len() == 0 {
        (rt, Ok(acc))
    } else {
        let (rt1, a) = eval_expr(rt, d[0].1, fuel);
        match a {
            Err(x) => (rt1, Err(x)),
            Ok(v) => eval_dict(rt1, d.drop_first(), put(acc, d[0].0, v), fuel),
        }
    }
}

/// The value of a literal, a variable, a call or a function definition.
pub open spec fn eval_value(rt: SpecRuntime, v: SpecAstValue, fuel: nat) -> (
    SpecRuntime,
    Result<SpecValue, SpecRuntimeError>,
)
    decreases 2 * fuel, v, 2nat,
{
    match v {
        SpecAstValue::Null => (rt, Ok(SpecValue::Null)),
        SpecAstValue::String(s) => (rt, Ok(SpecValue::String(s))),
        SpecAstValue::Number(n) => (rt, Ok(SpecValue::Number(n))),
        SpecAstValue::Boolean(b) => (rt, Ok(SpecValue::Boolean(b))),
        SpecAstValue::List(xs) => {
            let (rt1, a) = eval_exprs(rt, xs, fuel);
            match a {
                Err(x) => (rt1, Err(x)),
                Ok(vs) => (rt1, Ok(SpecValue::List(vs))),
            }
        },
        SpecAstValue::Dict(d) => {
            let (rt1, a) = eval_dict(rt, d, Seq::empty(), fuel);
            match a {
                Err(x) => (rt1, Err(x)),
                Ok(ds) => (rt1, Ok(SpecValue::Dict(ds))),
            }
        },
        SpecAstValue::Tuple(a, b) => {
            let (rt1, x) = eval_expr(rt, *a, fuel);
            match x {
                Err(e) => (rt1, Err(e)),
                Ok(av) => {
                    let (rt2, y) = eval_expr(rt1, *b, fuel);
                    match y {
                        Err(e) => (rt2, Err(e)),
                        Ok(bv) => (rt2, Ok(SpecValue::Tuple(Box::new(av), Box::new(bv)))),
                    }
                },
            }
        },
        SpecAstValue::Element(e) => {
            let (rt1, r) = eval_element(rt, e, fuel);
            match r {
                Err(x) => (rt1, Err(x)),
                Ok(el) => (rt1, Ok(SpecValue::Element(el))),
            }
        },
        SpecAstValue::Variable(n) => match get_var(rt, n) {
            Err(x) => (rt, Err(x)),
            Ok((_, val)) => (rt, deref(rt, val)),
        },
        SpecAstValue::VariableIndex(n, i) => match get_var(rt, n) {
            Err(x) => (rt, Err(x)),
            Ok((_, val)) => match deref(rt, val) {
                Err(x) => (rt, Err(x)),
                Ok(base) => {
                    let (rt1, r) = eval_expr(rt, *i, fuel);
                    match r {
                        Err(x) => (rt1, Err(x)),
                        Ok(index) => (rt1, get_from_index(rt1, base, index)),
                    }
                },
            },
        },
        SpecAstValue::FunctionCaller(c) => eval_call(rt, c, fuel),
        SpecAstValue::FunctionDefine(d) => {
            let env = if d.name is None {
                collect_free_vars(rt, d.name)
            } else {
                Seq::empty()
            };
            (rt, Ok(SpecValue::Function(SpecFunction::DScript(d, env))))
        },
        SpecAstValue::Reference(n) => match get_var(rt, n) {
            Err(x) => (rt, Err(x)),
            Ok((id, _)) => (rt, Ok(SpecValue::Reference(id))),
        },
    }
}

/// A call: the arguments, then the function that the name denotes applied
/// to them, one level deeper.
pub open spec fn eval_call(rt: SpecRuntime, c: SpecCall, fuel: nat) -> (
    SpecRuntime,
    Result<SpecValue, SpecRuntimeError>,
)
    decreases 2 * fuel, c, 1nat,
{
    let (rt1, a) = eval_exprs(rt, c.arguments, fuel);
    match a {
        Err(x) => (rt1, Err(x)),
        Ok(args) => match get_function(rt1, c.name) {
            Err(x) => (rt1, Err(x)),
            Ok(f) => if fuel == 0 {
                (rt1, Err(SpecRuntimeError::DepthLimitExceeded))
            } else {
                apply(rt1, f, args, (fuel - 1) as nat)
            },
        },
    }
}

/// The parameters bound to the arguments in the innermost scope.
pub open spec fn bind_params(rt: SpecRuntime, names: Seq<Seq<char>>, args: Seq<SpecValue>) -> (
    SpecRuntime,
    Result<(), SpecRuntimeError>,
)
    decreases names.len(),
{
    if names.len() == 0 || args.len() == 0 {
        (rt, Ok(()))
    } else {
        let (rt1, r) = create_var(rt, names[0], args[0]);
        match r {
            Err(x) => (rt1, Err(x)),
            Ok(_) => bind_params(rt1, names.drop_first(), args.drop_first()),
        }
    }
}

/// A function applied to arguments.
pub open spec fn apply(rt: SpecRuntime, f: SpecFunction, args: Seq<SpecValue>, fuel: nat) -> (
    SpecRuntime,
    Result<SpecValue, SpecRuntimeError>,
)
    decreases 2 * fuel + 1, f, 1nat,
{
    match f {
        SpecFunction::DScript(d, env) => {
            let rt1 = bind_env(enter_scope(rt, true), env);
            let fixed = d.params.len();
            let n = args.len();
            if (d.variadic_param is None && n != fixed) || (d.variadic_param is Some && n < fixed) {
                (leave_scope(rt1), Err(arity_error(fixed as int, n as int)))
            } else {
                let (rt2, p) = bind_params(rt1, d.params, args);
                match p {
                    Err(x) => (rt2, Err(x)),
                    Ok(_) => {
                        let (rt3, q) = match d.variadic_param {
                            Some(var) => create_var(rt2, var, SpecValue::List(args.skip(fixed as int))),
                            None => (rt2, Ok(0u128)),
                        };
                        match q {
                            Err(x) => (rt3, Err(x)),
                            Ok(_) => {
                                let (rt4, r) = exec_scope(rt3, d.inner, fuel);
                                match r {
                                    Err(x) => (rt4, Err(x)),
                                    Ok(v) => (leave_scope(rt4), Ok(v)),
                                }
                            },
                        }
                    },
                }
            }
        },
        SpecFunction::Host(k, need) => if need != -1 && args.len() != need {
            (rt, Err(arity_error(need as int, args.len() as int)))
        } else {
            (rt, (rt.host)(k, args))
        },
        SpecFunction::Rusty(b, need) => if need != -1 && args.len() != need {
            (rt, Err(arity_error(need as int, args.len() as int)))
        } else {
            builtin(rt, b, args, fuel)
        },
    }
}

/// A built-in function applied to arguments; `execute` runs the text it is
/// given in a new scope, one level deeper.
pub open spec fn builtin(rt: SpecRuntime, b: BuiltinFunction, args: Seq<SpecValue>, fuel: nat) -> (
    SpecRuntime,
    Result<SpecValue, SpecRuntimeError>,
)
    decreases 2 * fuel, b, 0nat,
{
    match b {
        BuiltinFunction::Execute => if args.len() == 0 {
            (rt, Err(arity_error(1, 0)))
        } else {
            match args[0] {
                SpecValue::String(code) => match parse_outcome(code) {
                    Err(msg) => (rt, Err(SpecRuntimeError::DynamicParseFailed { err: msg })),
                    Ok(stmts) => if fuel == 0 {
                        (rt, Err(SpecRuntimeError::DepthLimitExceeded))
                    } else {
                        exec_scope(rt, stmts, (fuel - 1) as nat)
                    },
                },
                _ => (rt, Ok(SpecValue::Null)),
            }
        },
        _ => builtin_pure(rt, b, args),
    }
}

/// Statements run in a new scope, which is left when they finish.
pub open spec fn exec_scope(rt: SpecRuntime, stmts: Seq<SpecStmt>, fuel: nat) -> (
    SpecRuntime,
    Result<SpecValue, SpecRuntimeError>,
)
    decreases 2 * fuel, stmts, 2nat,
{
    let (rt1, r) = exec_block(enter_scope(rt, false), stmts, fuel);
    match r {
        Err(x) => (rt1, Err(x)),
        Ok(v) => (leave_scope(rt1), Ok(v)),
    }
}

/// Statements run in the current scope: the named functions first, then the
/// statements in order until one returns.
pub open spec fn exec_block(rt: SpecRuntime, stmts: Seq<SpecStmt>, fuel: nat) -> (
    SpecRuntime,
    Result<SpecValue, SpecRuntimeError>,
)
    decreases 2 * fuel, stmts, 1nat,
{
    let (rt1, r) = collect_functions(rt, stmts);
    match r {
        Err(x) => (rt1, Err(x)),
        Ok(_) => exec_stmts(rt1, stmts, fuel),
    }
}

pub open spec fn exec_stmts(rt: SpecRuntime, stmts: Seq<SpecStmt>, fuel: nat) -> (
    SpecRuntime,
    Result<SpecValue, SpecRuntimeError>,
)
    decreases 2 * fuel, stmts, 0nat,
{
    if stmts.len() == 0 {
        (rt, Ok(SpecValue::Null))
    } else {
        let (rt1, r) = exec_stmt(rt, stmts[0], fuel);
        match r {
            Err(x) => (rt1, Err(x)),
            Ok(Some(v)) => (rt1, Ok(v)),
            Ok(None) => exec_stmts(rt1, stmts.drop_first(), fuel),
        }
    }
}

/// A value that ends a block, when it is not `none`.
pub open spec fn finishing(v: SpecValue) -> Option<SpecValue> {
    if v is Null {
        None
    } else {
        Some(v)
    }
}

/// One statement; `Some` carries the value that ends the block.
pub open spec fn exec_stmt(rt: SpecRuntime, st: SpecStmt, fuel: nat) -> (
    SpecRuntime,
    Result<Option<SpecValue>, SpecRuntimeError>,
)
    decreases 2 * fuel, st, 0nat,
{
    match st {
        SpecStmt::ModuleUse(u) => if u.len() > 0 {
            (SpecRuntime { namespace_use: put(rt.namespace_use, u.last(), u), ..rt }, Ok(None))
        } else {
            (rt, Ok(None))
        },
        SpecStmt::VariableAss { new, name, expr } => {
            let (rt1, a) = eval_expr(rt, expr, fuel);
            match a {
                Err(x) => (rt1, Err(x)),
                Ok(v) => {
                    let (rt2, r) = if new {
                        create_var(rt1, name, v)
                    } else {
                        set_var(rt1, name, v)
                    };
                    match r {
                        Err(x) => (rt2, Err(x)),
                        Ok(_) => (rt2, Ok(None)),
                    }
                },
            }
        },
        SpecStmt::ReturnValue(e) => {
            let (rt1, a) = eval_expr(rt, e, fuel);
            match a {
                Err(x) => (rt1, Err(x)),
                Ok(v) => match deref(rt1, v) {
                    Err(x) => (rt1, Err(x)),
                    Ok(w) => (rt1, Ok(Some(w))),
                },
            }
        },
        SpecStmt::IfStatement(c) => {
            let (rt1, a) = eval_expr(rt, c.condition, fuel);
            match a {
                Err(x) => (rt1, Err(x)),
                Ok(SpecValue::Boolean(b)) => if b {
                    let (rt2, r) = exec_scope(rt1, c.inner, fuel);
                    match r {
                        Err(x) => (rt2, Err(x)),
                        Ok(v) => (rt2, Ok(finishing(v))),
                    }
                } else {
                    match c.otherwise {
                        Some(o) => {
                            let (rt2, r) = exec_scope(rt1, o, fuel);
                            match r {
                                Err(x) => (rt2, Err(x)),
                                Ok(v) => (rt2, Ok(finishing(v))),
                            }
                        },
                        None => (rt1, Ok(None)),
                    }
                },
                Ok(v) => (
                    rt1,
                    Err(SpecRuntimeError::IllegalTypeInConditional { value_type: kind_name(v) }),
                ),
            }
        },
        SpecStmt::LoopStatement(l) => match l.kind {
            SpecLoopKind::Conditional(cond) => while_loop(rt, cond, l.inner, fuel),
            SpecLoopKind::Iter { iter, var } => {
                let (rt1, a) = eval_expr(rt, iter, fuel);
                match a {
                    Err(x) => (rt1, Err(x)),
                    Ok(SpecValue::List(xs)) => for_loop(rt1, var, xs, l.inner, fuel),
                    Ok(_) => (rt1, Ok(None)),
                }
            },
        },
        SpecStmt::LineComment(_) => (rt, Ok(None)),
        SpecStmt::FunctionCall(c) => {
            let (rt1, a) = eval_call(rt, c, fuel);
            match a {
                Err(x) => (rt1, Err(x)),
                Ok(_) => (rt1, Ok(None)),
            }
        },
        SpecStmt::FunctionDefine(d) => if d.name is None {
            (rt, Err(SpecRuntimeError::AnonymousFunctionInRoot))
        } else {
            (rt, Ok(None))
        },
        SpecStmt::CalcExpr(e) => {
            let (rt1, a) = eval_expr(rt, e, fuel);
            match a {
                Err(x) => (rt1, Err(x)),
                Ok(_) => (rt1, Ok(None)),
            }
        },
    }
}

/// `while cond { body }`: each round uses one level.
pub open spec fn while_loop(rt: SpecRuntime, cond: SpecExpr, body: Seq<SpecStmt>, fuel: nat) -> (
    SpecRuntime,
    Result<Option<SpecValue>, SpecRuntimeError>,
)
    decreases 2 * fuel, body, 3nat,
{
    if fuel == 0 {
        (rt, Err(SpecRuntimeError::DepthLimitExceeded))
    } else {
        let f = (fuel - 1) as nat;
        let (rt1, a) = eval_expr(rt, cond, f);
        match a {
            Err(x) => (rt1, Err(x)),
            Ok(c) => if !truthy(c) {
                (rt1, Ok(None))
            } else {
                let (rt2, r) = exec_scope(rt1, body, f);
                match r {
                    Err(x) => (rt2, Err(x)),
                    Ok(v) => if !(v is Null) {
                        (rt2, Ok(Some(v)))
                    } else {
                        while_loop(rt2, cond, body, f)
                    },
                }
            },
        }
    }
}

/// `for var in list { body }`: each item is bound in a scope of its own, and
/// each round uses one level.
pub open spec fn for_loop(
    rt: SpecRuntime,
    var: Seq<char>,
    items: Seq<SpecValue>,
    body: Seq<SpecStmt>,
    fuel: nat,
) -> (SpecRuntime, Result<Option<SpecValue>, SpecRuntimeError>)
    decreases 2 * fuel, body, 3nat,
{
    if items.len() == 0 {
        (rt, Ok(None))
    } else if fuel == 0 {
        (rt, Err(SpecRuntimeError::DepthLimitExceeded))
    } else {
        let f = (fuel - 1) as nat;
        let (rt1, c) = create_var(enter_scope(rt, false), var, items[0]);
        match c {
            Err(x) => (rt1, Err(x)),
            Ok(_) => {
                let (rt2, r) = exec_scope(rt1, body, f);
                match r {
                    Err(x) => (rt2, Err(x)),
                    Ok(v) => {
                        let rt3 = leave_scope(rt2);
                        if !(v is Null) {
                            (rt3, Ok(Some(v)))
                        } else {
                            for_loop(rt3, var, items.drop_first(), body, f)
                        }
                    },
                }
            },
        }
    }
}

/// An element: its attributes, then its content in order.
pub open spec fn eval_element(rt: SpecRuntime, e: SpecAstElement, fuel: nat) -> (
    SpecRuntime,
    Result<SpecElement, SpecRuntimeError>,
)
    decreases 2 * fuel, e, 1nat,
{
    let (rt1, a) = eval_attrs(rt, e.attributes, Seq::empty(), fuel);
    match a {
        Err(x) => (rt1, Err(x)),
        Ok(attrs) => {
            let (rt2, c) = eval_contents(rt1, e.content, attrs, Seq::empty(), fuel);
            match c {
                Err(x) => (rt2, Err(x)),
                Ok((at, ct)) => (rt2, Ok(SpecElement { name: e.name, attributes: at, content: ct })),
            }
        },
    }
}

pub open spec fn eval_attrs(
    rt: SpecRuntime,
    xs: Seq<(Seq<char>, SpecAstValue)>,
    acc: Seq<(Seq<char>, SpecValue)>,
    fuel: nat,
) -> (SpecRuntime, Result<Seq<(Seq<char>, SpecValue)>, SpecRuntimeError>)
    decreases 2 * fuel, xs, 0nat,
{
    if xs.len() == 0 {
        (rt, Ok(acc))
    } else {
        let (rt1, a) = eval_value(rt, xs[0].1, fuel);
        match a {
            Err(x) => (rt1, Err(x)),
            Ok(v) => eval_attrs(rt1, xs.drop_first(), put(acc, xs[0].0, v), fuel),
        }
    }
}

/// The content items of an element in order, with the attributes that
/// blocks inside it add.
pub open spec fn eval_contents(
    rt: SpecRuntime,
    cs: Seq<SpecAstContent>,
    attrs: Seq<(Seq<char>, SpecValue)>,
    content: Seq<SpecContent>,
    fuel: nat,
) -> (SpecRuntime, Result<(Seq<(Seq<char>, SpecValue)>, Seq<SpecContent>), SpecRuntimeError>)
    decreases 2 * fuel, cs, 0nat,
{
    if cs.len() == 0 {
        (rt, Ok((attrs, content)))
    } else {
        let (rt1, a) = eval_content(rt, cs[0], attrs, content, fuel);
        match a {
            Err(x) => (rt1, Err(x)),
            Ok((at, ct)) => eval_contents(rt1, cs.drop_first(), at, ct, fuel),
        }
    }
}

pub open spec fn eval_content(
    rt: SpecRuntime,
    c: SpecAstContent,
    attrs: Seq<(Seq<char>, SpecValue)>,
    content: Seq<SpecContent>,
    fuel: nat,
) -> (SpecRuntime, Result<(Seq<(Seq<char>, SpecValue)>, Seq<SpecContent>), SpecRuntimeError>)
    decreases 2 * fuel, c, 0nat,
{
    match c {
        SpecAstContent::Children(ch) => {
            let (rt1, r) = eval_element(rt, ch, fuel);
            match r {
                Err(x) => (rt1, Err(x)),
                Ok(el) => (rt1, Ok((attrs, content.push(SpecContent::Children(el))))),
            }
        },
        SpecAstContent::Content(t) => (rt, Ok((attrs, content.push(SpecContent::Content(t))))),
        SpecAstContent::Condition(cd) => {
            let (rt1, a) = eval_expr(rt, cd.condition, fuel);
            match a {
                Err(x) => (rt1, Err(x)),
                Ok(SpecValue::Boolean(b)) => {
                    let (rt2, r) = if b {
                        exec_scope(rt1, cd.inner, fuel)
                    } else {
                        match cd.otherwise {
                            Some(o) => exec_scope(rt1, o, fuel),
                            None => (rt1, Ok(SpecValue::Null)),
                        }
                    };
                    match r {
                        Err(x) => (rt2, Err(x)),
                        Ok(v) => (rt2, Ok(absorb(attrs, content, v))),
                    }
                },
                Ok(_) => (rt1, Ok((attrs, content))),
            }
        },
        SpecAstContent::Loop(l) => match l.kind {
            SpecLoopKind::Conditional(cond) => content_while(rt, cond, l.inner, attrs, content, fuel),
            SpecLoopKind::Iter { iter, var } => {
                let (rt1, a) = eval_expr(rt, iter, fuel);
                match a {
                    Err(x) => (rt1, Err(x)),
                    Ok(SpecValue::List(xs)) => content_for(rt1, var, xs, l.inner, attrs, content, fuel),
                    Ok(_) => (rt1, Ok((attrs, content))),
                }
            },
        },
        SpecAstContent::InlineExpr(e) => {
            let (rt1, a) = eval_expr(rt, e, fuel);
            match a {
                Err(x) => (rt1, Err(x)),
                Ok(v) => (rt1, Ok((attrs, content + value_content(v)))),
            }
        },
    }
}

/// A `while` inside an element: each round's value is added to the element.
pub open spec fn content_while(
    rt: SpecRuntime,
    cond: SpecExpr,
    body: Seq<SpecStmt>,
    attrs: Seq<(Seq<char>, SpecValue)>,
    content: Seq<SpecContent>,
    fuel: nat,
) -> (SpecRuntime, Result<(Seq<(Seq<char>, SpecValue)>, Seq<SpecContent>), SpecRuntimeError>)
    decreases 2 * fuel, body, 3nat,
{
    if fuel == 0 {
        (rt, Err(SpecRuntimeError::DepthLimitExceeded))
    } else {
        let f = (fuel - 1) as nat;
        let (rt1, a) = eval_expr(rt, cond, f);
        match a {
            Err(x) => (rt1, Err(x)),
            Ok(c) => if !truthy(c) {
                (rt1, Ok((attrs, content)))
            } else {
                let (rt2, r) = exec_scope(rt1, body, f);
                match r {
                    Err(x) => (rt2, Err(x)),
                    Ok(v) => {
                        let (at, ct) = absorb(attrs, content, v);
                        content_while(rt2, cond, body, at, ct, f)
                    },
                }
            },
        }
    }
}

/// A `for` inside an element: each item is bound in a scope of its own and
/// each round's value is added to the element.
pub open spec fn content_for(
    rt: SpecRuntime,
    var: Seq<char>,
    items: Seq<SpecValue>,
    body: Seq<SpecStmt>,
    attrs: Seq<(Seq<char>, SpecValue)>,
    content: Seq<SpecContent>,
    fuel: nat,
) -> (SpecRuntime, Result<(Seq<(Seq<char>, SpecValue)>, Seq<SpecContent>), SpecRuntimeError>)
    decreases 2 * fuel, body, 3nat,
{
    if items.len() == 0 {
        (rt, Ok((attrs, content)))
    } else if fuel == 0 {
        (rt, Err(SpecRuntimeError::DepthLimitExceeded))
    } else {
        let f = (fuel - 1) as nat;
        let (rt1, c) = create_var(enter_scope(rt, false), var, items[0]);
        match c {
            Err(x) => (rt1, Err(x)),
            Ok(_) => {
                let (rt2, r) = exec_scope(rt1, body, f);
                match r {
                    Err(x) => (rt2, Err(x)),
                    Ok(v) => {
                        let (at, ct) = absorb(attrs, content, v);
                        content_for(leave_scope(rt2), var, items.drop_first(), body, at, ct, f)
                    },
                }
            },
        }
    }
}


/// Statements run in a new function scope, which is left when they finish.
pub open spec fn exec_isolate_scope(rt: SpecRuntime, stmts: Seq<SpecStmt>, fuel: nat) -> (
    SpecRuntime,
    Result<SpecValue, SpecRuntimeError>,
) {
    let (rt1, r) = exec_block(enter_scope(rt, true), stmts, fuel);
    match r {
        Err(x) => (rt1, Err(x)),
        Ok(v) => (leave_scope(rt1), Ok(v)),
    }
}

} // verus!
