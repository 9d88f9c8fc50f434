//! Scopes are balanced: every evaluation that succeeds leaves as many
//! scopes open as it found, so the variables a block creates go with it.
use vstd::prelude::*;

use crate::ast::{SpecAstContent, SpecAstElement, SpecAstValue, SpecCall, SpecExpr, SpecLinkPart,
    SpecLoopKind, SpecStmt};
use crate::semantics::{
    absorb, apply, bind_env, bind_params, builtin, builtin_pure, collect_functions, content_for,
    content_while, create_var, deref, enter_scope, eval_attrs, eval_call, eval_content,
    eval_contents, eval_dict, eval_element, eval_expr, eval_exprs, eval_link, eval_value,
    exec_block, exec_isolate_scope, exec_scope, exec_stmt, exec_stmts, field_of, for_loop,
    get_function, get_var, leave_scope, rebind_scope, method_lookup, parse_outcome, put, set_var, while_loop,
    SpecRuntime,
};
use crate::value::{kind_name, BuiltinFunction, SpecFunction, SpecValue};

verus! {

/// `b` has as many open scopes as `a`.
pub open spec fn same_depth(a: SpecRuntime, b: SpecRuntime) -> bool {
    b.scopes.len() == a.scopes.len()
}

proof fn depth_create_var(rt: SpecRuntime, name: Seq<char>, v: SpecValue)
    ensures
        same_depth(rt, create_var(rt, name, v).0),
{
}

proof fn lemma_rebind_scope_in_range(rt: SpecRuntime, name: Seq<char>, i: int)
    ensures
        rebind_scope(rt, name, i) matches Some(j) ==> 0 <= j < i <= rt.scopes.len(),
    decreases i,
{
    if 0 < i <= rt.scopes.len() {
        lemma_rebind_scope_in_range(rt, name, i - 1);
    }
}

proof fn depth_set_var(rt: SpecRuntime, name: Seq<char>, v: SpecValue)
    ensures
        same_depth(rt, set_var(rt, name, v).0),
{
    lemma_rebind_scope_in_range(rt, name, rt.scopes.len() as int);
}

proof fn depth_collect_functions(rt: SpecRuntime, stmts: Seq<SpecStmt>)
    ensures
        same_depth(rt, collect_functions(rt, stmts).0),
    decreases stmts.len(),
{
    if stmts.len() > 0 {
        match stmts[0] {
            SpecStmt::FunctionDefine(d) => match d.name {
                Some(n) => {
                    let f = SpecValue::Function(SpecFunction::DScript(d, Seq::empty()));
                    depth_create_var(rt, n, f);
                    depth_collect_functions(create_var(rt, n, f).0, stmts.drop_first());
                },
                None => depth_collect_functions(rt, stmts.drop_first()),
            },
            _ => depth_collect_functions(rt, stmts.drop_first()),
        }
    }
}

proof fn depth_bind_params(rt: SpecRuntime, names: Seq<Seq<char>>, args: Seq<SpecValue>)
    ensures
        same_depth(rt, bind_params(rt, names, args).0),
    decreases names.len(),
{
    if names.len() > 0 && args.len() > 0 {
        depth_create_var(rt, names[0], args[0]);
        depth_bind_params(create_var(rt, names[0], args[0]).0, names.drop_first(), args.drop_first());
    }
}

proof fn depth_builtin_pure(rt: SpecRuntime, b: BuiltinFunction, args: Seq<SpecValue>)
    ensures
        builtin_pure(rt, b, args).0.scopes == rt.scopes,
{
}

proof fn depth_expr(rt: SpecRuntime, e: SpecExpr, fuel: nat)
    ensures
        eval_expr(rt, e, fuel).1 is Ok ==> same_depth(rt, eval_expr(rt, e, fuel).0),
    decreases 2 * fuel, e, 1nat,
{
    match e {
        SpecExpr::Value(v) => depth_value(rt, v, fuel),
        SpecExpr::Link { this, list } => {
            depth_value(rt, this, fuel);
            let (rt1, m) = eval_value(rt, this, fuel);
            if let Ok(meta) = m {
                let start = match this {
                    SpecAstValue::Variable(n) => match get_var(rt1, n) {
                        Ok((id, _)) => Ok(SpecValue::Reference(id)),
                        Err(x) => Err(x),
                    },
                    _ => Ok(meta),
                };
                if let Ok(t) = start {
                    depth_link(rt1, t, kind_name(meta), list, fuel);
                }
            }
        },
        SpecExpr::Binary(m, l, r) => {
            depth_expr(rt, *l, fuel);
            let (rt1, a) = eval_expr(rt, *l, fuel);
            if a is Ok {
                depth_expr(rt1, *r, fuel);
            }
        },
    }
}

proof fn depth_exprs(rt: SpecRuntime, es: Seq<SpecExpr>, fuel: nat)
    ensures
        eval_exprs(rt, es, fuel).1 is Ok ==> same_depth(rt, eval_exprs(rt, es, fuel).0),
    decreases 2 * fuel, es, 0nat,
{
    if es.len() > 0 {
        depth_expr(rt, es[0], fuel);
        let (rt1, a) = eval_expr(rt, es[0], fuel);
        if a is Ok {
            depth_exprs(rt1, es.drop_first(), fuel);
        }
    }
}

proof fn depth_link(
    rt: SpecRuntime,
    this: SpecValue,
    kind: Seq<char>,
    parts: Seq<SpecLinkPart>,
    fuel: nat,
)
    ensures
        eval_link(rt, this, kind, parts, fuel).1 is Ok ==> same_depth(
            rt,
            eval_link(rt, this, kind, parts, fuel).0,
        ),
    decreases 2 * fuel, parts, 0nat,
{
    if parts.len() > 0 {
        match parts[0] {
            SpecLinkPart::Field(f) => match deref(rt, this) {
                Ok(t) => match field_of(t, f) {
                    Ok(t2) => depth_link(rt, t2, kind, parts.drop_first(), fuel),
                    Err(_) => {},
                },
                Err(_) => {},
            },
            SpecLinkPart::Call(c) => {
                depth_exprs(rt, c.arguments, fuel);
                let (rt1, a) = eval_exprs(rt, c.arguments, fuel);
                if let Ok(args) = a {
                    if let Some(f) = method_lookup(rt1, kind, crate::ast::fn_name_text(c.name)) {
                        if fuel > 0 {
                            depth_apply(rt1, f, seq![this] + args, (fuel - 1) as nat);
                        }
                    }
                }
            },
        }
    }
}

proof fn depth_dict(
    rt: SpecRuntime,
    d: Seq<(Seq<char>, SpecExpr)>,
    acc: Seq<(Seq<char>, SpecValue)>,
    fuel: nat,
)
    ensures
        eval_dict(rt, d, acc, fuel).1 is Ok ==> same_depth(rt, eval_dict(rt, d, acc, fuel).0),
    decreases 2 * fuel, d, 0nat,
{
    if d.len() > 0 {
        depth_expr(rt, d[0].1, fuel);
        let (rt1, a) = eval_expr(rt, d[0].1, fuel);
        if let Ok(v) = a {
            depth_dict(rt1, d.drop_first(), put(acc, d[0].0, v), fuel);
        }
    }
}

proof fn depth_value(rt: SpecRuntime, v: SpecAstValue, fuel: nat)
    ensures
        eval_value(rt, v, fuel).1 is Ok ==> same_depth(rt, eval_value(rt, v, fuel).0),
    decreases 2 * fuel, v, 2nat,
{
    match v {
        SpecAstValue::List(xs) => depth_exprs(rt, xs, fuel),
        SpecAstValue::Dict(d) => depth_dict(rt, d, Seq::empty(), fuel),
        SpecAstValue::Tuple(a, b) => {
            depth_expr(rt, *a, fuel);
            let (rt1, x) = eval_expr(rt, *a, fuel);
            if x is Ok {
                depth_expr(rt1, *b, fuel);
            }
        },
        SpecAstValue::Element(e) => depth_element(rt, e, fuel),
        SpecAstValue::VariableIndex(n, i) => depth_expr(rt, *i, fuel),
        SpecAstValue::FunctionCaller(c) => depth_call(rt, c, fuel),
        _ => {},
    }
}

proof fn depth_call(rt: SpecRuntime, c: SpecCall, fuel: nat)
    ensures
        eval_call(rt, c, fuel).1 is Ok ==> same_depth(rt, eval_call(rt, c, fuel).0),
    decreases 2 * fuel, c, 1nat,
{
    depth_exprs(rt, c.arguments, fuel);
    let (rt1, a) = eval_exprs(rt, c.arguments, fuel);
    if let Ok(args) = a {
        if let Ok(f) = get_function(rt1, c.name) {
            if fuel > 0 {
                depth_apply(rt1, f, args, (fuel - 1) as nat);
            }
        }
    }
}

proof fn depth_apply(rt: SpecRuntime, f: SpecFunction, args: Seq<SpecValue>, fuel: nat)
    ensures
        apply(rt, f, args, fuel).1 is Ok ==> same_depth(rt, apply(rt, f, args, fuel).0),
    decreases 2 * fuel + 1, f, 1nat,
{
    match f {
        SpecFunction::DScript(d, env) => {
            let rt1 = bind_env(enter_scope(rt, true), env);
            assert(rt1.scopes.len() == rt.scopes.len() + 1);
            depth_bind_params(rt1, d.params, args);
            let (rt2, p) = bind_params(rt1, d.params, args);
            let fixed = d.params.len();
            match d.variadic_param {
                Some(var) => depth_create_var(rt2, var, SpecValue::List(args.skip(fixed as int))),
                None => {},
            }
            let (rt3, q) = match d.variadic_param {
                Some(var) => create_var(rt2, var, SpecValue::List(args.skip(fixed as int))),
                None => (rt2, Ok(0u128)),
            };
            depth_scope(rt3, d.inner, fuel);
        },
        SpecFunction::Rusty(b, need) => depth_builtin(rt, b, args, fuel),
        SpecFunction::Host(..) => {},
    }
}

proof fn depth_builtin(rt: SpecRuntime, b: BuiltinFunction, args: Seq<SpecValue>, fuel: nat)
    ensures
        builtin(rt, b, args, fuel).1 is Ok ==> same_depth(rt, builtin(rt, b, args, fuel).0),
    decreases 2 * fuel, b, 0nat,
{
    match b {
        BuiltinFunction::Execute => if args.len() > 0 {
            if let SpecValue::String(code) = args[0] {
                if let Ok(stmts) = parse_outcome(code) {
                    if fuel > 0 {
                        depth_scope(rt, stmts, (fuel - 1) as nat);
                    }
                }
            }
        },
        _ => depth_builtin_pure(rt, b, args),
    }
}

proof fn depth_scope(rt: SpecRuntime, stmts: Seq<SpecStmt>, fuel: nat)
    ensures
        exec_scope(rt, stmts, fuel).1 is Ok ==> same_depth(rt, exec_scope(rt, stmts, fuel).0),
    decreases 2 * fuel, stmts, 2nat,
{
    depth_block(enter_scope(rt, false), stmts, fuel);
}

proof fn depth_block(rt: SpecRuntime, stmts: Seq<SpecStmt>, fuel: nat)
    ensures
        exec_block(rt, stmts, fuel).1 is Ok ==> same_depth(rt, exec_block(rt, stmts, fuel).0),
    decreases 2 * fuel, stmts, 1nat,
{
    depth_collect_functions(rt, stmts);
    let (rt1, r) = collect_functions(rt, stmts);
    if r is Ok {
        depth_stmts(rt1, stmts, fuel);
    }
}

proof fn depth_stmts(rt: SpecRuntime, stmts: Seq<SpecStmt>, fuel: nat)
    ensures
        exec_stmts(rt, stmts, fuel).1 is Ok ==> same_depth(rt, exec_stmts(rt, stmts, fuel).0),
    decreases 2 * fuel, stmts, 0nat,
{
    if stmts.len() > 0 {
        depth_stmt(rt, stmts[0], fuel);
        let (rt1, r) = exec_stmt(rt, stmts[0], fuel);
        if r == Ok::<Option<SpecValue>, crate::error::SpecRuntimeError>(None) {
            depth_stmts(rt1, stmts.drop_first(), fuel);
        }
    }
}

proof fn depth_stmt(rt: SpecRuntime, st: SpecStmt, fuel: nat)
    ensures
        exec_stmt(rt, st, fuel).1 is Ok ==> same_depth(rt, exec_stmt(rt, st, fuel).0),
    decreases 2 * fuel, st, 0nat,
{
    match st {
        SpecStmt::VariableAss { new, name, expr } => {
            depth_expr(rt, expr, fuel);
            let (rt1, a) = eval_expr(rt, expr, fuel);
            if let Ok(v) = a {
                depth_create_var(rt1, name, v);
                depth_set_var(rt1, name, v);
            }
        },
        SpecStmt::ReturnValue(e) => depth_expr(rt, e, fuel),
        SpecStmt::IfStatement(c) => {
            depth_expr(rt, c.condition, fuel);
            let (rt1, a) = eval_expr(rt, c.condition, fuel);
            depth_scope(rt1, c.inner, fuel);
            match c.otherwise {
                Some(o) => depth_scope(rt1, o, fuel),
                None => {},
            }
        },
        SpecStmt::LoopStatement(l) => match l.kind {
            SpecLoopKind::Conditional(cond) => depth_while(rt, cond, l.inner, fuel),
            SpecLoopKind::Iter { iter, var } => {
                depth_expr(rt, iter, fuel);
                let (rt1, a) = eval_expr(rt, iter, fuel);
                if let Ok(SpecValue::List(xs)) = a {
                    depth_for(rt1, var, xs, l.inner, fuel);
                }
            },
        },
        SpecStmt::FunctionCall(c) => depth_call(rt, c, fuel),
        SpecStmt::CalcExpr(e) => depth_expr(rt, e, fuel),
        _ => {},
    }
}

proof fn depth_while(rt: SpecRuntime, cond: SpecExpr, body: Seq<SpecStmt>, fuel: nat)
    ensures
        while_loop(rt, cond, body, fuel).1 is Ok ==> same_depth(
            rt,
            while_loop(rt, cond, body, fuel).0,
        ),
    decreases 2 * fuel, body, 3nat,
{
    if fuel > 0 {
        let f = (fuel - 1) as nat;
        depth_expr(rt, cond, f);
        let (rt1, a) = eval_expr(rt, cond, f);
        depth_scope(rt1, body, f);
        let (rt2, r) = exec_scope(rt1, body, f);
        depth_while(rt2, cond, body, f);
    }
}

proof fn depth_for(
    rt: SpecRuntime,
    var: Seq<char>,
    items: Seq<SpecValue>,
    body: Seq<SpecStmt>,
    fuel: nat,
)
    ensures
        for_loop(rt, var, items, body, fuel).1 is Ok ==> same_depth(
            rt,
            for_loop(rt, var, items, body, fuel).0,
        ),
    decreases 2 * fuel, body, 3nat,
{
    if items.len() > 0 && fuel > 0 {
        let f = (fuel - 1) as nat;
        depth_create_var(enter_scope(rt, false), var, items[0]);
        let (rt1, c) = create_var(enter_scope(rt, false), var, items[0]);
        depth_scope(rt1, body, f);
        let (rt2, r) = exec_scope(rt1, body, f);
        depth_for(leave_scope(rt2), var, items.drop_first(), body, f);
    }
}

proof fn depth_element(rt: SpecRuntime, e: SpecAstElement, fuel: nat)
    ensures
        eval_element(rt, e, fuel).1 is Ok ==> same_depth(rt, eval_element(rt, e, fuel).0),
    decreases 2 * fuel, e, 1nat,
{
    depth_attrs(rt, e.attributes, Seq::empty(), fuel);
    let (rt1, a) = eval_attrs(rt, e.attributes, Seq::empty(), fuel);
    if let Ok(attrs) = a {
        depth_contents(rt1, e.content, attrs, Seq::empty(), fuel);
    }
}

proof fn depth_attrs(
    rt: SpecRuntime,
    xs: Seq<(Seq<char>, SpecAstValue)>,
    acc: Seq<(Seq<char>, SpecValue)>,
    fuel: nat,
)
    ensures
        eval_attrs(rt, xs, acc, fuel).1 is Ok ==> same_depth(rt, eval_attrs(rt, xs, acc, fuel).0),
    decreases 2 * fuel, xs, 0nat,
{
    if xs.len() > 0 {
        depth_value(rt, xs[0].1, fuel);
        let (rt1, a) = eval_value(rt, xs[0].1, fuel);
        if let Ok(v) = a {
            depth_attrs(rt1, xs.drop_first(), put(acc, xs[0].0, v), fuel);
        }
    }
}

proof fn depth_contents(
    rt: SpecRuntime,
    cs: Seq<SpecAstContent>,
    attrs: Seq<(Seq<char>, SpecValue)>,
    content: Seq<crate::value::SpecContent>,
    fuel: nat,
)
    ensures
        eval_contents(rt, cs, attrs, content, fuel).1 is Ok ==> same_depth(
            rt,
            eval_contents(rt, cs, attrs, content, fuel).0,
        ),
    decreases 2 * fuel, cs, 0nat,
{
    if cs.len() > 0 {
        depth_content(rt, cs[0], attrs, content, fuel);
        let (rt1, a) = eval_content(rt, cs[0], attrs, content, fuel);
        if let Ok((at, ct)) = a {
            depth_contents(rt1, cs.drop_first(), at, ct, fuel);
        }
    }
}

proof fn depth_content(
    rt: SpecRuntime,
    c: SpecAstContent,
    attrs: Seq<(Seq<char>, SpecValue)>,
    content: Seq<crate::value::SpecContent>,
    fuel: nat,
)
    ensures
        eval_content(rt, c, attrs, content, fuel).1 is Ok ==> same_depth(
            rt,
            eval_content(rt, c, attrs, content, fuel).0,
        ),
    decreases 2 * fuel, c, 0nat,
{
    match c {
        SpecAstContent::Children(ch) => depth_element(rt, ch, fuel),
        SpecAstContent::Condition(cd) => {
            depth_expr(rt, cd.condition, fuel);
            let (rt1, a) = eval_expr(rt, cd.condition, fuel);
            depth_scope(rt1, cd.inner, fuel);
            match cd.otherwise {
                Some(o) => depth_scope(rt1, o, fuel),
                None => {},
            }
        },
        SpecAstContent::Loop(l) => match l.kind {
            SpecLoopKind::Conditional(cond) => depth_content_while(
                rt,
                cond,
                l.inner,
                attrs,
                content,
                fuel,
            ),
            SpecLoopKind::Iter { iter, var } => {
                depth_expr(rt, iter, fuel);
                let (rt1, a) = eval_expr(rt, iter, fuel);
                if let Ok(SpecValue::List(xs)) = a {
                    depth_content_for(rt1, var, xs, l.inner, attrs, content, fuel);
                }
            },
        },
        SpecAstContent::InlineExpr(e) => depth_expr(rt, e, fuel),
        _ => {},
    }
}

proof fn depth_content_while(
    rt: SpecRuntime,
    cond: SpecExpr,
    body: Seq<SpecStmt>,
    attrs: Seq<(Seq<char>, SpecValue)>,
    content: Seq<crate::value::SpecContent>,
    fuel: nat,
)
    ensures
        content_while(rt, cond, body, attrs, content, fuel).1 is Ok ==> same_depth(
            rt,
            content_while(rt, cond, body, attrs, content, fuel).0,
        ),
    decreases 2 * fuel, body, 3nat,
{
    if fuel > 0 {
        let f = (fuel - 1) as nat;
        depth_expr(rt, cond, f);
        let (rt1, a) = eval_expr(rt, cond, f);
        depth_scope(rt1, body, f);
        let (rt2, r) = exec_scope(rt1, body, f);
        if let Ok(v) = r {
            let (at, ct) = absorb(attrs, content, v);
            depth_content_while(rt2, cond, body, at, ct, f);
        }
    }
}

proof fn depth_content_for(
    rt: SpecRuntime,
    var: Seq<char>,
    items: Seq<SpecValue>,
    body: Seq<SpecStmt>,
    attrs: Seq<(Seq<char>, SpecValue)>,
    content: Seq<crate::value::SpecContent>,
    fuel: nat,
)
    ensures
        content_for(rt, var, items, body, attrs, content, fuel).1 is Ok ==> same_depth(
            rt,
            content_for(rt, var, items, body, attrs, content, fuel).0,
        ),
    decreases 2 * fuel, body, 3nat,
{
    if items.len() > 0 && fuel > 0 {
        let f = (fuel - 1) as nat;
        depth_create_var(enter_scope(rt, false), var, items[0]);
        let (rt1, c) = create_var(enter_scope(rt, false), var, items[0]);
        depth_scope(rt1, body, f);
        let (rt2, r) = exec_scope(rt1, body, f);
        if let Ok(v) = r {
            let (at, ct) = absorb(attrs, content, v);
            depth_content_for(leave_scope(rt2), var, items.drop_first(), body, at, ct, f);
        }
    }
}

/// Statements run in a scope of their own leave, when they succeed, as many
/// scopes open as they found: the scope and the variables created in it
/// are gone.
pub proof fn law_scope_balanced(rt: SpecRuntime, stmts: Seq<SpecStmt>, fuel: nat)
    ensures
        exec_scope(rt, stmts, fuel).1 is Ok ==> same_depth(rt, exec_scope(rt, stmts, fuel).0),
        exec_isolate_scope(rt, stmts, fuel).1 is Ok ==> same_depth(
            rt,
            exec_isolate_scope(rt, stmts, fuel).0,
        ),
{
    depth_scope(rt, stmts, fuel);
    depth_block(enter_scope(rt, true), stmts, fuel);
}

/// A whole script run in the current scope keeps, when it succeeds, the
/// scopes it started with open and no more.
pub proof fn law_block_balanced(rt: SpecRuntime, stmts: Seq<SpecStmt>, fuel: nat)
    ensures
        exec_block(rt, stmts, fuel).1 is Ok ==> same_depth(rt, exec_block(rt, stmts, fuel).0),
{
    depth_block(rt, stmts, fuel);
}

} // verus!
