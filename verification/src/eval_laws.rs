//! How statements and element content are evaluated, stated over what
//! their parts evaluate to.
use vstd::prelude::*;

use crate::ast::{SpecAstContent, SpecCond, SpecExpr, SpecLoop, SpecLoopKind, SpecStmt};
use crate::error::SpecRuntimeError;
use crate::ops::value_content;
use crate::semantics::{
    bind_params, create_var, eval_content, eval_expr, exec_scope, exec_stmt, exec_stmts, for_loop, while_loop, SpecRuntime,
};
use crate::value::{dict_lookup, key_index, lemma_key_index, lemma_key_index_first, kind_name, truthy, value_text, SpecContent, SpecElement, SpecValue};

verus! {

/// An `if` runs its first block when the condition is true and its `else`
/// block (if any) when it is false; a value that a block gives ends the
/// enclosing block unless it is `none`; a condition that is not a boolean is
/// refused.
pub proof fn law_if_statement(rt: SpecRuntime, c: SpecCond, fuel: nat)
    ensures
        ({
            let (rt1, a) = eval_expr(rt, c.condition, fuel);
            let r = exec_stmt(rt, SpecStmt::IfStatement(c), fuel);
            &&& a == Ok::<SpecValue, SpecRuntimeError>(SpecValue::Boolean(true)) ==> {
                let (rt2, b) = exec_scope(rt1, c.inner, fuel);
                &&& r.0 == rt2
                &&& b matches Ok(v) ==> r.1 == Ok::<Option<SpecValue>, SpecRuntimeError>(
                    if v is Null { None } else { Some(v) },
                )
                &&& b is Err ==> r.1 is Err
            }
            &&& a == Ok::<SpecValue, SpecRuntimeError>(SpecValue::Boolean(false)) && c.otherwise is None
                ==> r == (rt1, Ok::<Option<SpecValue>, SpecRuntimeError>(None))
            &&& a == Ok::<SpecValue, SpecRuntimeError>(SpecValue::Boolean(false)) && c.otherwise is Some
                ==> {
                let (rt2, b) = exec_scope(rt1, c.otherwise->Some_0, fuel);
                &&& r.0 == rt2
                &&& b matches Ok(v) ==> r.1 == Ok::<Option<SpecValue>, SpecRuntimeError>(
                    if v is Null { None } else { Some(v) },
                )
            }
            &&& (a is Ok && !(a->Ok_0 is Boolean)) ==> r == (
                rt1,
                Err::<Option<SpecValue>, SpecRuntimeError>(
                    SpecRuntimeError::IllegalTypeInConditional { value_type: kind_name(a->Ok_0) },
                ),
            )
        }),
{
}

/// A `while` whose condition does not hold runs no round and leaves the
/// state as the condition's evaluation left it.
pub proof fn law_while_false(rt: SpecRuntime, cond: SpecExpr, body: Seq<SpecStmt>, fuel: nat)
    requires
        fuel > 0,
        eval_expr(rt, cond, (fuel - 1) as nat).1 matches Ok(v) && !truthy(v),
    ensures
        while_loop(rt, cond, body, fuel) == (
            eval_expr(rt, cond, (fuel - 1) as nat).0,
            Ok::<Option<SpecValue>, SpecRuntimeError>(None),
        ),
{
}

/// A `for` over an empty list runs no round and changes nothing.
pub proof fn law_for_empty(rt: SpecRuntime, var: Seq<char>, body: Seq<SpecStmt>, fuel: nat)
    ensures
        for_loop(rt, var, Seq::empty(), body, fuel) == (rt, Ok::<Option<SpecValue>, SpecRuntimeError>(None)),
{
}

/// A statement that gives a value ends the statements: those after it do
/// not run.
pub proof fn law_return_stops(rt: SpecRuntime, s: SpecStmt, rest: Seq<SpecStmt>, fuel: nat)
    ensures
        exec_stmt(rt, s, fuel).1 matches Ok(Some(v)) ==> exec_stmts(rt, seq![s] + rest, fuel) == (
            exec_stmt(rt, s, fuel).0,
            Ok::<SpecValue, SpecRuntimeError>(v),
        ),
{
    assert((seq![s] + rest)[0] == s);
}

/// An expression inside an element adds its value as content after the
/// content so far: a string, a number or a boolean as its text, an element
/// as a child; the attributes stay.
pub proof fn law_inline_content(
    rt: SpecRuntime,
    e: SpecExpr,
    attrs: Seq<(Seq<char>, SpecValue)>,
    content: Seq<SpecContent>,
    fuel: nat,
)
    ensures
        ({
            let (rt1, a) = eval_expr(rt, e, fuel);
            let r = eval_content(rt, SpecAstContent::InlineExpr(e), attrs, content, fuel);
            &&& r.0 == rt1
            &&& a matches Ok(SpecValue::String(s)) ==> r.1 == Ok::<
                (Seq<(Seq<char>, SpecValue)>, Seq<SpecContent>),
                SpecRuntimeError,
            >((attrs, content.push(SpecContent::Content(s))))
            &&& a matches Ok(SpecValue::Number(k)) ==> r.1 == Ok::<
                (Seq<(Seq<char>, SpecValue)>, Seq<SpecContent>),
                SpecRuntimeError,
            >((attrs, content.push(SpecContent::Content(value_text(SpecValue::Number(k))))))
            &&& a matches Ok(SpecValue::Element(x)) ==> r.1 == Ok::<
                (Seq<(Seq<char>, SpecValue)>, Seq<SpecContent>),
                SpecRuntimeError,
            >((attrs, content.push(SpecContent::Children(x))))
        }),
{
    let (rt1, a) = eval_expr(rt, e, fuel);
    if let Ok(v) = a {
        if v is String || v is Number {
            assert(content + value_content(v) =~= content.push(SpecContent::Content(value_text(v))));
        }
        if let SpecValue::Element(x) = v {
            assert(content + value_content(v) =~= content.push(SpecContent::Children(x)));
        }
    }
}

/// An `if` inside an element: when its condition is true and its block
/// gives a string, the string is added as text after the content so far;
/// when the condition is false and there is no `else`, nothing is added.
pub proof fn law_condition_content(
    rt: SpecRuntime,
    cd: SpecCond,
    attrs: Seq<(Seq<char>, SpecValue)>,
    content: Seq<SpecContent>,
    fuel: nat,
)
    ensures
        ({
            let (rt1, a) = eval_expr(rt, cd.condition, fuel);
            let r = eval_content(rt, SpecAstContent::Condition(cd), attrs, content, fuel);
            &&& a == Ok::<SpecValue, SpecRuntimeError>(SpecValue::Boolean(true)) ==> {
                let (rt2, b) = exec_scope(rt1, cd.inner, fuel);
                b matches Ok(SpecValue::String(s)) ==> r == (
                    rt2,
                    Ok::<(Seq<(Seq<char>, SpecValue)>, Seq<SpecContent>), SpecRuntimeError>(
                        (attrs, content.push(SpecContent::Content(s))),
                    ),
                )
            }
            &&& a == Ok::<SpecValue, SpecRuntimeError>(SpecValue::Boolean(false)) && cd.otherwise is None
                ==> r == (
                rt1,
                Ok::<(Seq<(Seq<char>, SpecValue)>, Seq<SpecContent>), SpecRuntimeError>(
                    (attrs, content),
                ),
            )
        }),
{
}

// ---------------------------------------------------------------------------
// Parameters
// ---------------------------------------------------------------------------

proof fn lemma_lookup_push_keeps(vars: Seq<(Seq<char>, u128)>, e: (Seq<char>, u128), k: Seq<char>)
    requires
        dict_lookup(vars, k) is Some,
    ensures
        dict_lookup(vars.push(e), k) == dict_lookup(vars, k),
{
    lemma_key_index(vars, k);
    let i = key_index(vars, k)->Some_0;
    assert forall|j: int| 0 <= j < i implies vars.push(e)[j].0 != k by {
        assert(vars.push(e)[j] == vars[j]);
    }
    assert(vars.push(e)[i] == vars[i]);
    lemma_key_index_first(vars.push(e), k, i);
}

/// Creating a variable keeps what the innermost scope already binds and
/// the values already stored.
proof fn lemma_create_keeps(rt: SpecRuntime, n: Seq<char>, a: SpecValue, k: Seq<char>, id: u128)
    requires
        create_var(rt, n, a).1 is Ok,
        dict_lookup(rt.scopes.last().vars, k) == Some(id),
        rt.data.contains_key(id),
    ensures
        ({
            let rt1 = create_var(rt, n, a).0;
            &&& rt1.scopes.len() == rt.scopes.len()
            &&& dict_lookup(rt1.scopes.last().vars, k) == Some(id)
            &&& rt1.data.contains_key(id)
            &&& rt1.data[id] == rt.data[id]
        }),
{
    let rt1 = create_var(rt, n, a).0;
    let new_id = create_var(rt, n, a).1->Ok_0;
    lemma_lookup_push_keeps(rt.scopes.last().vars, (n, new_id), k);
    assert(new_id != id);
}

/// Binding parameters keeps what the innermost scope already binds and the
/// values already stored.
proof fn lemma_bind_keeps(rt: SpecRuntime, names: Seq<Seq<char>>, args: Seq<SpecValue>, k: Seq<char>, id: u128)
    requires
        bind_params(rt, names, args).1 is Ok,
        rt.scopes.len() > 0,
        dict_lookup(rt.scopes.last().vars, k) == Some(id),
        rt.data.contains_key(id),
    ensures
        ({
            let rt2 = bind_params(rt, names, args).0;
            &&& rt2.scopes.len() == rt.scopes.len()
            &&& dict_lookup(rt2.scopes.last().vars, k) == Some(id)
            &&& rt2.data.contains_key(id)
            &&& rt2.data[id] == rt.data[id]
        }),
    decreases names.len(),
{
    if names.len() > 0 && args.len() > 0 {
        lemma_create_keeps(rt, names[0], args[0], k, id);
        let rt1 = create_var(rt, names[0], args[0]).0;
        lemma_bind_keeps(rt1, names.drop_first(), args.drop_first(), k, id);
    }
}

proof fn lemma_param_bound(rt: SpecRuntime, names: Seq<Seq<char>>, args: Seq<SpecValue>, j: int)
    requires
        bind_params(rt, names, args).1 is Ok,
        rt.scopes.len() > 0,
        0 <= j < names.len(),
        j < args.len(),
    ensures
        ({
            let rt2 = bind_params(rt, names, args).0;
            &&& rt2.scopes.len() == rt.scopes.len()
            &&& dict_lookup(rt2.scopes.last().vars, names[j]) matches Some(id) && rt2.data.contains_key(
                id,
            ) && rt2.data[id] == args[j]
        }),
    decreases names.len(),
{
    let rt1 = create_var(rt, names[0], args[0]).0;
    let id0 = create_var(rt, names[0], args[0]).1->Ok_0;
    if j == 0 {
        crate::laws::law_get_after_create(rt, names[0], args[0]);
        let last = rt.scopes.last();
        let vars1 = last.vars.push((names[0], id0));
        lemma_key_index(last.vars, names[0]);
        assert forall|i: int| 0 <= i < vars1.len() - 1 implies vars1[i].0 != names[0] by {
            assert(vars1[i] == last.vars[i]);
        }
        lemma_key_index_first(vars1, names[0], vars1.len() - 1);
        assert(rt1.scopes.last().vars == vars1);
        lemma_bind_keeps(rt1, names.drop_first(), args.drop_first(), names[0], id0);
    } else {
        lemma_param_bound(rt1, names.drop_first(), args.drop_first(), j - 1);
    }
}

/// When parameters are bound to arguments, each parameter names, in the
/// innermost scope, a variable holding the argument at its own position.
pub proof fn law_params_bound_in_order(rt: SpecRuntime, names: Seq<Seq<char>>, args: Seq<SpecValue>)
    requires
        bind_params(rt, names, args).1 is Ok,
        rt.scopes.len() > 0,
        names.len() == args.len(),
    ensures
        forall|j: int| 0 <= j < names.len() ==> {
            let rt2 = bind_params(rt, names, args).0;
            dict_lookup(rt2.scopes.last().vars, #[trigger] names[j]) matches Some(id)
                && rt2.data.contains_key(id) && rt2.data[id] == args[j]
        },
{
    assert forall|j: int| 0 <= j < names.len() implies {
        let rt2 = bind_params(rt, names, args).0;
        dict_lookup(rt2.scopes.last().vars, #[trigger] names[j]) matches Some(id)
            && rt2.data.contains_key(id) && rt2.data[id] == args[j]
    } by {
        lemma_param_bound(rt, names, args, j);
    }
}

} // verus!
