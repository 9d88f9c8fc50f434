//! The evaluation of scripts: each function computes what the definition of
//! the same name in the model gives, from the state before to the state
//! after.
use std::rc::Rc;

use vstd::prelude::*;

use crate::ast::{
    ast_content_view, ast_contents_view, ast_element_view, ast_value_view, attrs_ast_view,
    call_view, define_view, dict_exprs_view, expr_view, exprs_view, lemma_ast_contents_view,
    lemma_attrs_ast_view, lemma_dict_exprs_view, lemma_exprs_view, lemma_link_parts_view,
    lemma_stmts_view, link_part_view, link_parts_view, name_view, stmt_view, stmts_view,
    strings_view, AstElement, AstElementContentType, AstValue, CalcExpr, CalculateMark,
    DioAstStatement, DioscriptAst, FunctionCall, FunctionDefine, LinkExprPart, LoopExecuteType,
    ConditionalStatement, LinkExpr, LoopStatement, cond_view, loop_view, SpecAstContent, SpecExpr,
    SpecLinkPart, SpecLoopKind, SpecStmt,
};
use crate::error::{ParseError, RuntimeError, SpecRuntimeError};
use crate::ops::{push_value_content, value_content};
use crate::parser::parse_script;
use crate::host::HostFunctions;
use crate::runtime::{uses_view, Runtime};
use crate::semantics::{
    absorb, apply, bind_params, builtin, content_values, content_for, content_while, deref,
    eval_attrs, eval_call, eval_content, eval_contents, eval_dict, eval_element, eval_expr,
    eval_exprs, eval_link, eval_value, exec_block, exec_isolate_scope, exec_scope, exec_stmt, exec_stmts, field_of,
    finishing, for_loop, parse_outcome, put, while_loop, SpecRuntime,
};
use crate::text::{copy_string, i64_to_string, str_eq};
use crate::value::{
    contents_view, copy_element, copy_value, dict_view, element_view, env_view, function_view,
    kind_name, lemma_contents_view, lemma_contents_view_push, lemma_dict_view,
    lemma_dict_view_push, lemma_values_view, lemma_values_view_push, lit, result_view,
    share_define, value_view, values_view, BuiltinFunction, Element, ElementContentType,
    FunctionType, SpecContent, SpecElement, SpecFunction, SpecValue, Value,
};

verus! {

broadcast use vstd::string::group_string_axioms;

/// Binds `k` to `v` among the entries of a dictionary or attribute list.
pub fn put_value(d: &mut Vec<(String, Value)>, k: &str, v: Value)
    ensures
        dict_view(final(d)@) == put(dict_view(old(d)@), k@, v@),
{
    let ghost dv = dict_view(d@);
    proof {
        lemma_dict_view(d@);
    }
    match crate::value::find_key(d, k) {
        Some(i) => {
            proof {
                crate::value::lemma_key_index_first(dv, k@, i as int);
            }
            let key = copy_string(&d[i].0);
            let ghost vv = v@;
            d.set(i, (key, v));
            proof {
                lemma_dict_view(d@);
                assert(dict_view(d@) =~= dv.update(i as int, (k@, vv)));
            }
        },
        None => {
            proof {
                crate::value::lemma_key_index_absent(dv, k@);
            }
            let key = String::from_str(k);
            proof {
                lemma_dict_view_push(d@, key, v);
            }
            d.push((key, v));
        },
    }
}

/// What the value of a block inside an element adds to it.
fn absorb_exec(attrs: &mut Vec<(String, Value)>, content: &mut Vec<ElementContentType>, v: Value)
    ensures
        (dict_view(final(attrs)@), contents_view(final(content)@)) == absorb(
            dict_view(old(attrs)@),
            contents_view(old(content)@),
            v@,
        ),
{
    match v {
        Value::Tuple((k, x)) => {
            let ghost kv = value_view(*k);
            let ghost xv = value_view(*x);
            assert(v@ == SpecValue::Tuple(Box::new(kv), Box::new(xv)));
            match *k {
                Value::String(name) => {
                    assert(kv == SpecValue::String(name@));
                    put_value(attrs, name.as_str(), *x);
                },
                _ => {},
            }
        },
        Value::String(s) => {
            let c = ElementContentType::Content(s);
            proof {
                lemma_contents_view_push(content@, c);
            }
            content.push(c);
        },
        Value::Number(n) => {
            let c = ElementContentType::Content(i64_to_string(n));
            proof {
                lemma_contents_view_push(content@, c);
            }
            content.push(c);
        },
        Value::Element(e) => {
            let c = ElementContentType::Children(e);
            proof {
                lemma_contents_view_push(content@, c);
            }
            content.push(c);
        },
        _ => {},
    }
}

/// A field of an element value.
fn field_of_exec(v: &Value, f: &String) -> (r: Result<Value, RuntimeError>)
    ensures
        result_view(r) == field_of(v@, f@),
{
    proof {
        reveal_strlit("name");
        reveal_strlit("attributes");
        reveal_strlit("content");
    }
    match v {
        Value::Element(e) => if str_eq(f.as_str(), "name") {
            assert(v@ == SpecValue::Element(element_view(*e)));
            assert(element_view(*e).name == e.name@);
            Ok(Value::String(copy_string(&e.name)))
        } else if str_eq(f.as_str(), "attributes") {
            assert(v@ == SpecValue::Element(element_view(*e)));
            assert(element_view(*e).attributes == dict_view(e.attributes@));
            Ok(Value::Dict(crate::value::copy_dict(&e.attributes)))
        } else if str_eq(f.as_str(), "content") {
            assert(v@ == SpecValue::Element(element_view(*e)));
            assert(element_view(*e).content == contents_view(e.content@));
            let mut out: Vec<Value> = Vec::new();
            let mut i: usize = 0;
            let ghost cv = contents_view(e.content@);
            proof {
                lemma_contents_view(e.content@);
            }
            while i < e.content.len()
                invariant
                    i <= e.content@.len(),
                    cv == contents_view(e.content@),
                    cv.len() == e.content@.len(),
                    forall|m: int| 0 <= m < e.content@.len() ==> #[trigger] cv[m] == crate::value::content_view(e.content@[m]),
                    values_view(out@) == content_values(cv.take(i as int)),
                decreases e.content@.len() - i,
            {
                let x = match &e.content[i] {
                    ElementContentType::Children(c) => Value::Element(copy_element(c)),
                    ElementContentType::Content(t) => Value::String(copy_string(t)),
                };
                proof {
                    lemma_values_view_push(out@, x);
                }
                out.push(x);
                i = i + 1;
                assert(values_view(out@) =~= content_values(cv.take(i as int)));
            }
            assert(cv.take(i as int) =~= cv);
            Ok(Value::List(out))
        } else {
            Err(RuntimeError::UnknownAttribute { attr: copy_string(f), value: v.value_name() })
        },
        _ => Err(RuntimeError::UnknownAttribute { attr: copy_string(f), value: v.value_name() }),
    }
}

/// Binds `k` to a module path among the `use`d paths.
fn put_use(d: &mut Vec<(String, Vec<String>)>, k: &str, v: Vec<String>)
    ensures
        uses_view(final(d)@) == put(uses_view(old(d)@), k@, strings_view(v@)),
{
    let ghost dv = uses_view(d@);
    match crate::value::find_key(d, k) {
        Some(i) => {
            proof {
                crate::value::lemma_key_index_first(dv, k@, i as int);
            }
            let key = copy_string(&d[i].0);
            let ghost sv = strings_view(v@);
            d.set(i, (key, v));
            assert(uses_view(d@) =~= dv.update(i as int, (k@, sv)));
        },
        None => {
            proof {
                crate::value::lemma_key_index_absent(dv, k@);
            }
            let ghost sv = strings_view(v@);
            d.push((String::from_str(k), v));
            assert(uses_view(d@) =~= dv.push((k@, sv)));
        },
    }
}


// ---------------------------------------------------------------------------
// Results in the model
// ---------------------------------------------------------------------------

pub open spec fn opt_result(r: Result<Option<Value>, RuntimeError>) -> Result<
    Option<SpecValue>,
    SpecRuntimeError,
> {
    match r {
        Ok(Some(v)) => Ok(Some(v@)),
        Ok(None) => Ok(None),
        Err(e) => Err(e@),
    }
}

pub open spec fn element_result(r: Result<Element, RuntimeError>) -> Result<
    SpecElement,
    SpecRuntimeError,
> {
    match r {
        Ok(e) => Ok(e@),
        Err(e) => Err(e@),
    }
}

pub open spec fn parts_result(r: Result<(Vec<(String, Value)>, Vec<ElementContentType>), RuntimeError>) -> Result<
    (Seq<(Seq<char>, SpecValue)>, Seq<SpecContent>),
    SpecRuntimeError,
> {
    match r {
        Ok((a, c)) => Ok((dict_view(a@), contents_view(c@))),
        Err(e) => Err(e@),
    }
}

/// The outcome of a list of expressions whose first ones gave `done`.
pub open spec fn then_values(
    done: Seq<SpecValue>,
    o: (SpecRuntime, Result<Seq<SpecValue>, SpecRuntimeError>),
) -> (SpecRuntime, Result<Seq<SpecValue>, SpecRuntimeError>) {
    (
        o.0,
        match o.1 {
            Ok(vs) => Ok(done + vs),
            Err(e) => Err(e),
        },
    )
}

/// The model of a chain expression.
pub open spec fn link_view(l: LinkExpr) -> SpecExpr {
    SpecExpr::Link { this: ast_value_view(l.this), list: link_parts_view(l.list@) }
}

/// The greatest depth of evaluation that the runtime allows.
pub const MAX_DEPTH: u64 = 18446744073709551615;

impl<H: HostFunctions> Runtime<H> {
    /// The value of an expression.
    pub fn calculate_in(&mut self, e: &CalcExpr, fuel: u64) -> (r: Result<Value, RuntimeError>)
        ensures
            (final(self)@, result_view(r)) == eval_expr(old(self)@, e@, fuel as nat),
            old(self).wf() ==> final(self).wf(),
        decreases 2 * fuel, e@, 1nat,
    {
        match e {
            CalcExpr::Value(v) => {
                assert(e@ == SpecExpr::Value(v@));
                assert(decreases_to!(e@ => e@->Value_0));
                self.value_in(v, fuel)
            },
            CalcExpr::LinkExpr(l) => {
                assert(e@ == SpecExpr::Link {
                    this: ast_value_view(l.this),
                    list: link_parts_view(l.list@),
                });
                self.link_expr_in(l, fuel)
            },
            _ => {
                let (m, l, r) = split_binary(e);
                assert(decreases_to!(e@ => e@->Binary_1));
                assert(decreases_to!(e@ => e@->Binary_2));
                let lv = match self.calculate_in(l, fuel) {
                    Ok(v) => v,
                    Err(x) => {
                        return Err(x);
                    },
                };
                let rv = match self.calculate_in(r, fuel) {
                    Ok(v) => v,
                    Err(x) => {
                        return Err(x);
                    },
                };
                lv.calc(&rv, m)
            },
        }
    }

    /// A chain `value.part...`: the value, then its parts in turn; a
    /// variable is passed on as a reference to it.
    pub fn link_expr_in(&mut self, l: &LinkExpr, fuel: u64) -> (r: Result<Value, RuntimeError>)
        ensures
            (final(self)@, result_view(r)) == eval_expr(old(self)@, link_view(*l), fuel as nat),
            old(self).wf() ==> final(self).wf(),
        decreases 2 * fuel, link_view(*l), 0nat,
    {
        let ghost e = link_view(*l);
        assert(decreases_to!(e => e->this));
        assert(decreases_to!(e => e->list));
        let meta = match self.value_in(&l.this, fuel) {
            Ok(m) => m,
            Err(x) => {
                return Err(x);
            },
        };
        let start = match &l.this {
            AstValue::Variable(n) => match self.get_var(n.as_str()) {
                Ok((id, _)) => Value::Reference(id),
                Err(x) => {
                    return Err(x);
                },
            },
            _ => copy_value(&meta),
        };
        let kind = meta.value_name();
        self.link_in(start, &kind, &l.list, fuel)
    }

    /// The values of expressions, from first to last.
    pub fn calculate_all_in(&mut self, es: &Vec<CalcExpr>, fuel: u64) -> (r: Result<
        Vec<Value>,
        RuntimeError,
    >)
        ensures
            (final(self)@, crate::runtime::values_result(r)) == eval_exprs(
                old(self)@,
                exprs_view(es@),
                fuel as nat,
            ),
            old(self).wf() ==> final(self).wf(),
        decreases 2 * fuel, exprs_view(es@), 0nat,
    {
        let ghost ev = exprs_view(es@);
        proof {
            lemma_exprs_view(es@);
            assert(ev.skip(0) =~= ev);
            let o = eval_exprs(self@, ev, fuel as nat);
            match o.1 {
                Ok(vs) => {
                    assert(Seq::<SpecValue>::empty() + vs =~= vs);
                },
                Err(_) => {},
            }
        }
        let mut out: Vec<Value> = Vec::new();
        assert(values_view(out@) =~= Seq::<SpecValue>::empty());
        let mut i: usize = 0;
        while i < es.len()
            invariant
                i <= es@.len(),
                ev == exprs_view(es@),
                ev.len() == es@.len(),
                forall|m: int| 0 <= m < es@.len() ==> #[trigger] ev[m] == expr_view(es@[m]),
                then_values(values_view(out@), eval_exprs(self@, ev.skip(i as int), fuel as nat))
                    == eval_exprs(old(self)@, ev, fuel as nat),
                old(self).wf() ==> self.wf(),
            decreases es@.len() - i,
        {
            let ghost rest = ev.skip(i as int);
            let ghost s0 = self@;
            assert(rest[0] == expr_view(es@[i as int]));
            assert(rest.drop_first() =~= ev.skip(i + 1));
            assert(decreases_to!(ev => ev[i as int]));
            match self.calculate_in(&es[i], fuel) {
                Ok(v) => {
                    let ghost vv = v@;
                    let ghost before = values_view(out@);
                    proof {
                        lemma_values_view_push(out@, v);
                    }
                    out.push(v);
                    proof {
                        let o = eval_exprs(self@, ev.skip(i + 1), fuel as nat);
                        match o.1 {
                            Ok(vs) => {
                                assert(values_view(out@) + vs =~= before + (seq![vv] + vs));
                            },
                            Err(_) => {},
                        }
                    }
                },
                Err(x) => {
                    return Err(x);
                },
            }
            i = i + 1;
        }
        proof {
            assert(ev.skip(i as int) =~= Seq::<SpecExpr>::empty());
            assert(values_view(out@) + Seq::<SpecValue>::empty() =~= values_view(out@));
        }
        Ok(out)
    }

    /// The parts of a chain applied in turn to `this`.
    pub fn link_in(&mut self, this: Value, kind: &String, parts: &Vec<LinkExprPart>, fuel: u64) -> (r: Result<
        Value,
        RuntimeError,
    >)
        ensures
            (final(self)@, result_view(r)) == eval_link(
                old(self)@,
                this@,
                kind@,
                link_parts_view(parts@),
                fuel as nat,
            ),
            old(self).wf() ==> final(self).wf(),
        decreases 2 * fuel, link_parts_view(parts@), 0nat,
    {
        let ghost pv = link_parts_view(parts@);
        proof {
            lemma_link_parts_view(parts@);
            assert(pv.skip(0) =~= pv);
        }
        let mut cur = this;
        let mut i: usize = 0;
        while i < parts.len()
            invariant
                i <= parts@.len(),
                pv == link_parts_view(parts@),
                pv.len() == parts@.len(),
                forall|m: int| 0 <= m < parts@.len() ==> #[trigger] pv[m] == link_part_view(parts@[m]),
                eval_link(self@, cur@, kind@, pv.skip(i as int), fuel as nat) == eval_link(
                    old(self)@,
                    this@,
                    kind@,
                    pv,
                    fuel as nat,
                ),
                old(self).wf() ==> self.wf(),
            decreases parts@.len() - i,
        {
            let ghost rest = pv.skip(i as int);
            assert(rest[0] == link_part_view(parts@[i as int]));
            assert(rest.drop_first() =~= pv.skip(i + 1));
            match &parts[i] {
                LinkExprPart::Field(f) => {
                    let t = match self.deref_value(&cur) {
                        Ok(t) => t,
                        Err(x) => {
                            return Err(x);
                        },
                    };
                    cur = match field_of_exec(&t, f) {
                        Ok(t2) => t2,
                        Err(x) => {
                            return Err(x);
                        },
                    };
                },
                LinkExprPart::FunctionCall(c) => {
                    assert(pv[i as int] == SpecLinkPart::Call(call_view(*c)));
                    assert(decreases_to!(pv => pv[i as int]));
                    assert(decreases_to!(pv[i as int] => call_view(*c)));
                    assert(decreases_to!(call_view(*c) => call_view(*c).arguments));
                    let args = match self.calculate_all_in(&c.arguments, fuel) {
                        Ok(a) => a,
                        Err(x) => {
                            return Err(x);
                        },
                    };
                    let name = c.name.as_single();
                    match self.method_lookup(kind.as_str(), name.as_str()) {
                        Some(f) => {
                            if fuel == 0 {
                                return Err(RuntimeError::DepthLimitExceeded);
                            }
                            let mut all: Vec<Value> = Vec::new();
                            let ghost av = values_view(args@);
                            let ghost cv = cur@;
                            all.push(cur);
                            let mut args = args;
                            proof {
                                lemma_values_view(all@);
                                lemma_values_view(args@);
                            }
                            let mut k: usize = 0;
                            let n = args.len();
                            while k < n
                                invariant
                                    k <= n,
                                    n == av.len(),
                                    n == args@.len(),
                                    av == values_view(args@),
                                    values_view(all@) == seq![cv] + av.take(k as int),
                                decreases n - k,
                            {
                                let x = copy_value(&args[k]);
                                proof {
                                    lemma_values_view(args@);
                                    lemma_values_view_push(all@, x);
                                }
                                all.push(x);
                                k = k + 1;
                                assert(values_view(all@) =~= seq![cv] + av.take(k as int));
                            }
                            assert(av.take(k as int) =~= av);
                            let v = match self.apply_in(f, all, fuel - 1) {
                                Ok(v) => v,
                                Err(x) => {
                                    return Err(x);
                                },
                            };
                            return self.deref_value(&v);
                        },
                        None => {
                            return Err(RuntimeError::FunctionNotFound { name });
                        },
                    }
                },
            }
            i = i + 1;
        }
        assert(pv.skip(i as int) =~= Seq::<SpecLinkPart>::empty());
        self.deref_value(&cur)
    }
}

/// The operator and the operands of a binary expression.
fn split_binary(e: &CalcExpr) -> (r: (CalculateMark, &CalcExpr, &CalcExpr))
    requires
        e@ is Binary,
    ensures
        e@ == SpecExpr::Binary(r.0, Box::new(r.1@), Box::new(r.2@)),
{
    match e {
        CalcExpr::Add(l, r) => (CalculateMark::Plus, l, r),
        CalcExpr::Sub(l, r) => (CalculateMark::Minus, l, r),
        CalcExpr::Mul(l, r) => (CalculateMark::Multiply, l, r),
        CalcExpr::Div(l, r) => (CalculateMark::Divide, l, r),
        CalcExpr::Mod(l, r) => (CalculateMark::Mod, l, r),
        CalcExpr::Eq(l, r) => (CalculateMark::Equal, l, r),
        CalcExpr::Ne(l, r) => (CalculateMark::NotEqual, l, r),
        CalcExpr::Gt(l, r) => (CalculateMark::Large, l, r),
        CalcExpr::Lt(l, r) => (CalculateMark::Small, l, r),
        CalcExpr::Ge(l, r) => (CalculateMark::LargeOrEqual, l, r),
        CalcExpr::Le(l, r) => (CalculateMark::SmallOrEqual, l, r),
        CalcExpr::And(l, r) => (CalculateMark::And, l, r),
        CalcExpr::Or(l, r) => (CalculateMark::Or, l, r),
        _ => {
            assert(false);
            (CalculateMark::NoOp, e, e)
        },
    }
}

impl<H: HostFunctions> Runtime<H> {
    /// The entries of a dictionary literal, evaluated in order.
    pub fn dict_in(&mut self, d: &Vec<(String, CalcExpr)>, fuel: u64) -> (r: Result<
        Vec<(String, Value)>,
        RuntimeError,
    >)
        ensures
            (final(self)@, crate::runtime::dict_result(r)) == eval_dict(
                old(self)@,
                dict_exprs_view(d@),
                Seq::empty(),
                fuel as nat,
            ),
            old(self).wf() ==> final(self).wf(),
        decreases 2 * fuel, dict_exprs_view(d@), 0nat,
    {
        let ghost dv = dict_exprs_view(d@);
        proof {
            lemma_dict_exprs_view(d@);
            assert(dv.skip(0) =~= dv);
        }
        let mut acc: Vec<(String, Value)> = Vec::new();
        assert(dict_view(acc@) =~= Seq::<(Seq<char>, SpecValue)>::empty());
        let mut i: usize = 0;
        while i < d.len()
            invariant
                i <= d@.len(),
                dv == dict_exprs_view(d@),
                dv.len() == d@.len(),
                forall|m: int| 0 <= m < d@.len() ==> #[trigger] dv[m] == (d@[m].0@, expr_view(d@[m].1)),
                eval_dict(self@, dv.skip(i as int), dict_view(acc@), fuel as nat) == eval_dict(
                    old(self)@,
                    dv,
                    Seq::empty(),
                    fuel as nat,
                ),
                old(self).wf() ==> self.wf(),
            decreases d@.len() - i,
        {
            let ghost rest = dv.skip(i as int);
            assert(rest[0] == (d@[i as int].0@, expr_view(d@[i as int].1)));
            assert(rest.drop_first() =~= dv.skip(i + 1));
            assert(decreases_to!(dv => dv[i as int]));
            match self.calculate_in(&d[i].1, fuel) {
                Ok(v) => {
                    put_value(&mut acc, d[i].0.as_str(), v);
                },
                Err(x) => {
                    return Err(x);
                },
            }
            i = i + 1;
        }
        assert(dv.skip(i as int) =~= Seq::<(Seq<char>, SpecExpr)>::empty());
        Ok(acc)
    }

    /// The value of a literal, a variable, a call or a function definition.
    pub fn value_in(&mut self, v: &AstValue, fuel: u64) -> (r: Result<Value, RuntimeError>)
        ensures
            (final(self)@, result_view(r)) == eval_value(old(self)@, v@, fuel as nat),
            old(self).wf() ==> final(self).wf(),
        decreases 2 * fuel, v@, 2nat,
    {
        match v {
            AstValue::Null => Ok(Value::Null),
            AstValue::String(s) => Ok(Value::String(copy_string(s))),
            AstValue::Number(n) => Ok(Value::Number(*n)),
            AstValue::Boolean(b) => Ok(Value::Boolean(*b)),
            AstValue::List(xs) => match {
                assert(v@ == crate::ast::SpecAstValue::List(exprs_view(xs@)));
                assert(decreases_to!(v@ => v@->List_0));
                self.calculate_all_in(xs, fuel)
            } {
                Ok(vs) => Ok(Value::List(vs)),
                Err(x) => Err(x),
            },
            AstValue::Dict(d) => match {
                assert(v@ == crate::ast::SpecAstValue::Dict(dict_exprs_view(d@)));
                assert(decreases_to!(v@ => v@->Dict_0));
                self.dict_in(d, fuel)
            } {
                Ok(ds) => Ok(Value::Dict(ds)),
                Err(x) => Err(x),
            },
            AstValue::Tuple((a, b)) => {
                assert(v@ == crate::ast::SpecAstValue::Tuple(Box::new(expr_view(**a)), Box::new(expr_view(**b))));
                assert(decreases_to!(v@ => v@->Tuple_0));
                assert(decreases_to!(v@ => v@->Tuple_1));
                let av = match self.calculate_in(a, fuel) {
                    Ok(x) => x,
                    Err(x) => {
                        return Err(x);
                    },
                };
                let bv = match self.calculate_in(b, fuel) {
                    Ok(x) => x,
                    Err(x) => {
                        return Err(x);
                    },
                };
                Ok(Value::Tuple((Box::new(av), Box::new(bv))))
            },
            AstValue::Element(e) => match {
                assert(v@ == crate::ast::SpecAstValue::Element(ast_element_view(*e)));
                assert(decreases_to!(v@ => v@->Element_0));
                self.element_in(e, fuel)
            } {
                Ok(el) => Ok(Value::Element(el)),
                Err(x) => Err(x),
            },
            AstValue::Variable(n) => match self.get_var(n.as_str()) {
                Ok((_, val)) => self.deref_value(&val),
                Err(x) => Err(x),
            },
            AstValue::VariableIndex((n, i)) => {
                assert(v@ == crate::ast::SpecAstValue::VariableIndex(n@, Box::new(expr_view(**i))));
                assert(decreases_to!(v@ => v@->VariableIndex_1));
                let base = match self.get_var(n.as_str()) {
                    Ok((_, val)) => match self.deref_value(&val) {
                        Ok(b) => b,
                        Err(x) => {
                            return Err(x);
                        },
                    },
                    Err(x) => {
                        return Err(x);
                    },
                };
                let index = match self.calculate_in(i, fuel) {
                    Ok(x) => x,
                    Err(x) => {
                        return Err(x);
                    },
                };
                self.get_from_index(&base, &index)
            },
            AstValue::FunctionCaller(c) => {
                assert(v@ == crate::ast::SpecAstValue::FunctionCaller(call_view(*c)));
                assert(decreases_to!(v@ => v@->FunctionCaller_0));
                self.call_in(c, fuel)
            },
            AstValue::FunctionDefine(d) => {
                let env = if d.name.is_none() {
                    self.collect_free_vars(d)
                } else {
                    let e: Vec<(String, u128)> = Vec::new();
                    assert(env_view(e@) =~= Seq::<(Seq<char>, u128)>::empty());
                    e
                };
                Ok(Value::Function(FunctionType::DScript((share_define(d), env))))
            },
            AstValue::Reference(n) => match self.get_var(n.as_str()) {
                Ok((id, _)) => Ok(Value::Reference(id)),
                Err(x) => Err(x),
            },
        }
    }

    /// A call: the arguments, then the function the name denotes.
    pub fn call_in(&mut self, c: &FunctionCall, fuel: u64) -> (r: Result<Value, RuntimeError>)
        ensures
            (final(self)@, result_view(r)) == eval_call(old(self)@, call_view(*c), fuel as nat),
            old(self).wf() ==> final(self).wf(),
        decreases 2 * fuel, call_view(*c), 1nat,
    {
        assert(call_view(*c).arguments == exprs_view(c.arguments@));
        assert(decreases_to!(call_view(*c) => call_view(*c).arguments));
        let args = match self.calculate_all_in(&c.arguments, fuel) {
            Ok(a) => a,
            Err(x) => {
                return Err(x);
            },
        };
        let f = match self.get_function(&c.name) {
            Ok(f) => f,
            Err(x) => {
                return Err(x);
            },
        };
        if fuel == 0 {
            return Err(RuntimeError::DepthLimitExceeded);
        }
        self.apply_in(f, args, fuel - 1)
    }

    /// The parameters bound to the arguments in the innermost scope.
    fn bind_params(&mut self, names: &Vec<String>, args: &Vec<Value>) -> (r: Result<(), RuntimeError>)
        ensures
            (final(self)@, crate::runtime::unit_result(r)) == bind_params(
                old(self)@,
                strings_view(names@),
                values_view(args@),
            ),
            old(self).wf() ==> final(self).wf(),
    {
        let ghost nv = strings_view(names@);
        let ghost av = values_view(args@);
        proof {
            lemma_values_view(args@);
            assert(nv.skip(0) =~= nv);
            assert(av.skip(0) =~= av);
        }
        let mut k: usize = 0;
        while k < names.len() && k < args.len()
            invariant
                k <= names@.len(),
                k <= args@.len(),
                nv == strings_view(names@),
                av == values_view(args@),
                av.len() == args@.len(),
                forall|m: int| 0 <= m < args@.len() ==> #[trigger] av[m] == value_view(args@[m]),
                bind_params(self@, nv.skip(k as int), av.skip(k as int)) == bind_params(
                    old(self)@,
                    nv,
                    av,
                ),
                old(self).wf() ==> self.wf(),
            decreases names@.len() - k,
        {
            assert(nv.skip(k as int)[0] == names@[k as int]@);
            assert(av.skip(k as int)[0] == value_view(args@[k as int]));
            assert(nv.skip(k as int).drop_first() =~= nv.skip(k + 1));
            assert(av.skip(k as int).drop_first() =~= av.skip(k + 1));
            match self.create_var(names[k].as_str(), copy_value(&args[k])) {
                Ok(_) => {},
                Err(x) => {
                    return Err(x);
                },
            }
            k = k + 1;
        }
        Ok(())
    }

    /// A function applied to arguments.
    pub fn apply_in(&mut self, f: FunctionType, args: Vec<Value>, fuel: u64) -> (r: Result<
        Value,
        RuntimeError,
    >)
        ensures
            (final(self)@, result_view(r)) == apply(
                old(self)@,
                function_view(f),
                values_view(args@),
                fuel as nat,
            ),
            old(self).wf() ==> final(self).wf(),
        decreases 2 * fuel + 1, function_view(f), 1nat,
    {
        proof {
            lemma_values_view(args@);
        }
        match f {
            FunctionType::DScript((d, env)) => {
                self.enter_scope(true);
                self.bind_env(&env);
                let fixed = d.params.len();
                let n = args.len();
                if (d.variadic_param.is_none() && n != fixed) || (d.variadic_param.is_some() && n
                    < fixed) {
                    self.leave_scope();
                    return Err(
                        RuntimeError::IllegalArgumentsNumber {
                            need: fixed as i64,
                            provided: n as i64,
                        },
                    );
                }
                match self.bind_params(&d.params, &args) {
                    Ok(_) => {},
                    Err(x) => {
                        return Err(x);
                    },
                }
                match &d.variadic_param {
                    Some(var) => {
                        let mut rest: Vec<Value> = Vec::new();
                        let mut k: usize = fixed;
                        let ghost av = values_view(args@);
                        assert(values_view(rest@) =~= av.subrange(fixed as int, fixed as int));
                        while k < n
                            invariant
                                fixed <= k <= n,
                                n == args@.len(),
                                av == values_view(args@),
                                av.len() == args@.len(),
                                forall|m: int| 0 <= m < args@.len() ==> #[trigger] av[m] == value_view(args@[m]),
                                values_view(rest@) == av.subrange(fixed as int, k as int),
                            decreases n - k,
                        {
                            let x = copy_value(&args[k]);
                            proof {
                                lemma_values_view_push(rest@, x);
                            }
                            rest.push(x);
                            k = k + 1;
                            assert(values_view(rest@) =~= av.subrange(fixed as int, k as int));
                        }
                        assert(av.subrange(fixed as int, k as int) =~= av.skip(fixed as int));
                        match self.create_var(var.as_str(), Value::List(rest)) {
                            Ok(_) => {},
                            Err(x) => {
                                return Err(x);
                            },
                        }
                    },
                    None => {},
                }
                let v = match self.scope_in(&d.inner, fuel) {
                    Ok(v) => v,
                    Err(x) => {
                        return Err(x);
                    },
                };
                self.leave_scope();
                Ok(v)
            },
            FunctionType::Host((k, need)) => {
                if need != -1 && (args.len() as i128) != (need as i128) {
                    return Err(
                        RuntimeError::IllegalArgumentsNumber {
                            need: need as i64,
                            provided: args.len() as i64,
                        },
                    );
                }
                self.host.call(k, args)
            },
            FunctionType::Rusty((b, need)) => {
                if need != -1 && (args.len() as i128) != (need as i128) {
                    return Err(
                        RuntimeError::IllegalArgumentsNumber {
                            need: need as i64,
                            provided: args.len() as i64,
                        },
                    );
                }
                self.builtin_in(b, args, fuel)
            },
        }
    }

    /// A built-in function applied to arguments.
    pub fn builtin_in(&mut self, b: BuiltinFunction, args: Vec<Value>, fuel: u64) -> (r: Result<
        Value,
        RuntimeError,
    >)
        ensures
            (final(self)@, result_view(r)) == builtin(old(self)@, b, values_view(args@), fuel as nat),
            old(self).wf() ==> final(self).wf(),
        decreases 2 * fuel, b, 0nat,
    {
        proof {
            lemma_values_view(args@);
        }
        match b {
            BuiltinFunction::Execute => {
                if args.len() == 0 {
                    return Err(RuntimeError::IllegalArgumentsNumber { need: 1, provided: 0 });
                }
                match &args[0] {
                    Value::String(code) => match DioscriptAst::from_string(code.as_str()) {
                        Ok(ast) => {
                            if fuel == 0 {
                                return Err(RuntimeError::DepthLimitExceeded);
                            }
                            self.scope_in(&ast.stats, fuel - 1)
                        },
                        Err(ParseError::ParseFailure { text }) => Err(
                            RuntimeError::DynamicParseFailed { err: text },
                        ),
                        Err(ParseError::UnMatchContent { content }) => Err(
                            RuntimeError::DynamicParseFailed { err: content },
                        ),
                    },
                    _ => Ok(Value::Null),
                }
            },
            _ => self.call_builtin(b, args),
        }
    }

    /// Statements run in a new scope, which is left when they finish.
    pub fn scope_in(&mut self, stmts: &Vec<DioAstStatement>, fuel: u64) -> (r: Result<
        Value,
        RuntimeError,
    >)
        ensures
            (final(self)@, result_view(r)) == exec_scope(old(self)@, stmts_view(stmts@), fuel as nat),
            old(self).wf() ==> final(self).wf(),
        decreases 2 * fuel, stmts_view(stmts@), 2nat,
    {
        self.enter_scope(false);
        let v = match self.block_in(stmts, fuel) {
            Ok(v) => v,
            Err(x) => {
                return Err(x);
            },
        };
        self.leave_scope();
        Ok(v)
    }

    /// Statements run in the current scope, the named functions first.
    pub fn block_in(&mut self, stmts: &Vec<DioAstStatement>, fuel: u64) -> (r: Result<
        Value,
        RuntimeError,
    >)
        ensures
            (final(self)@, result_view(r)) == exec_block(old(self)@, stmts_view(stmts@), fuel as nat),
            old(self).wf() ==> final(self).wf(),
        decreases 2 * fuel, stmts_view(stmts@), 1nat,
    {
        match self.collect_functions(stmts) {
            Ok(_) => {},
            Err(x) => {
                return Err(x);
            },
        }
        self.stmts_in(stmts, fuel)
    }

    /// The statements in order, until one ends the block.
    pub fn stmts_in(&mut self, stmts: &Vec<DioAstStatement>, fuel: u64) -> (r: Result<
        Value,
        RuntimeError,
    >)
        ensures
            (final(self)@, result_view(r)) == exec_stmts(old(self)@, stmts_view(stmts@), fuel as nat),
            old(self).wf() ==> final(self).wf(),
        decreases 2 * fuel, stmts_view(stmts@), 0nat,
    {
        let ghost sv = stmts_view(stmts@);
        proof {
            lemma_stmts_view(stmts@);
            assert(sv.skip(0) =~= sv);
        }
        let mut i: usize = 0;
        while i < stmts.len()
            invariant
                i <= stmts@.len(),
                sv == stmts_view(stmts@),
                sv.len() == stmts@.len(),
                forall|m: int| 0 <= m < stmts@.len() ==> #[trigger] sv[m] == stmt_view(stmts@[m]),
                exec_stmts(self@, sv.skip(i as int), fuel as nat) == exec_stmts(
                    old(self)@,
                    sv,
                    fuel as nat,
                ),
                old(self).wf() ==> self.wf(),
            decreases stmts@.len() - i,
        {
            let ghost rest = sv.skip(i as int);
            assert(rest[0] == stmt_view(stmts@[i as int]));
            assert(rest.drop_first() =~= sv.skip(i + 1));
            assert(decreases_to!(sv => sv[i as int]));
            match self.stmt_in(&stmts[i], fuel) {
                Ok(Some(v)) => {
                    return Ok(v);
                },
                Ok(None) => {},
                Err(x) => {
                    return Err(x);
                },
            }
            i = i + 1;
        }
        assert(sv.skip(i as int) =~= Seq::<SpecStmt>::empty());
        Ok(Value::Null)
    }
}

impl<H: HostFunctions> Runtime<H> {
    /// One statement; `Some` carries the value that ends the block.
    pub fn stmt_in(&mut self, st: &DioAstStatement, fuel: u64) -> (r: Result<
        Option<Value>,
        RuntimeError,
    >)
        ensures
            (final(self)@, opt_result(r)) == exec_stmt(old(self)@, stmt_view(*st), fuel as nat),
            old(self).wf() ==> final(self).wf(),
        decreases 2 * fuel, stmt_view(*st), 0nat,
    {
        match st {
            DioAstStatement::ModuleUse(u) => {
                let n = u.0.len();
                if n > 0 {
                    let key = copy_string(&u.0[n - 1]);
                    let path = crate::runtime::copy_strings(&u.0);
                    assert(strings_view(u.0@).last() == u.0@[n - 1]@);
                    let ghost before = self@;
                    put_use(&mut self.namespace_use, key.as_str(), path);
                    assert(self@.namespace_use == put(
                        before.namespace_use,
                        strings_view(u.0@).last(),
                        strings_view(u.0@),
                    ));
                }
                Ok(None)
            },
            DioAstStatement::VariableAss(var) => {
                assert(decreases_to!(stmt_view(*st) => stmt_view(*st)->expr));
                let v = match self.calculate_in(&var.expr, fuel) {
                    Ok(v) => v,
                    Err(x) => {
                        return Err(x);
                    },
                };
                let r = if var.new {
                    self.create_var(var.name.as_str(), v)
                } else {
                    self.set_var(var.name.as_str(), v)
                };
                match r {
                    Ok(_) => Ok(None),
                    Err(x) => Err(x),
                }
            },
            DioAstStatement::ReturnValue(e) => {
                assert(decreases_to!(stmt_view(*st) => stmt_view(*st)->ReturnValue_0));
                let v = match self.calculate_in(e, fuel) {
                    Ok(v) => v,
                    Err(x) => {
                        return Err(x);
                    },
                };
                match self.deref_value(&v) {
                    Ok(w) => Ok(Some(w)),
                    Err(x) => Err(x),
                }
            },
            DioAstStatement::IfStatement(c) => {
                assert(decreases_to!(stmt_view(*st) => stmt_view(*st)->IfStatement_0));
                self.if_in(c, fuel)
            },
            DioAstStatement::LoopStatement(l) => {
                assert(decreases_to!(stmt_view(*st) => stmt_view(*st)->LoopStatement_0));
                self.loop_in(l, fuel)
            },
            DioAstStatement::LineComment(_) => Ok(None),
            DioAstStatement::FunctionCall(c) => {
                assert(decreases_to!(stmt_view(*st) => stmt_view(*st)->FunctionCall_0));
                match self.call_in(c, fuel) {
                    Ok(_) => Ok(None),
                    Err(x) => Err(x),
                }
            },
            DioAstStatement::FunctionDefine(d) => if d.name.is_none() {
                Err(RuntimeError::AnonymousFunctionInRoot)
            } else {
                Ok(None)
            },
            DioAstStatement::CalcExpr(e) => {
                assert(decreases_to!(stmt_view(*st) => stmt_view(*st)->CalcExpr_0));
                match self.calculate_in(e, fuel) {
                    Ok(_) => Ok(None),
                    Err(x) => Err(x),
                }
            },
        }
    }

    /// `if cond { inner } else { otherwise }` as a statement.
    fn if_in(&mut self, c: &ConditionalStatement, fuel: u64) -> (r: Result<
        Option<Value>,
        RuntimeError,
    >)
        ensures
            (final(self)@, opt_result(r)) == exec_stmt(
                old(self)@,
                SpecStmt::IfStatement(cond_view(*c)),
                fuel as nat,
            ),
            old(self).wf() ==> final(self).wf(),
        decreases 2 * fuel, cond_view(*c), 0nat,
    {
        let ghost cv = cond_view(*c);
        assert(decreases_to!(cv => cv.condition));
        assert(decreases_to!(cv => cv.inner));
        assert(decreases_to!(cv => cv.otherwise));
        let v = match self.calculate_in(&c.condition, fuel) {
            Ok(v) => v,
            Err(x) => {
                return Err(x);
            },
        };
        match v {
            Value::Boolean(b) => {
                let r = if b {
                    self.scope_in(&c.inner, fuel)
                } else {
                    match &c.otherwise {
                        Some(o) => {
                            assert(cv.otherwise == Some(stmts_view(o@)));
                            assert(decreases_to!(cv.otherwise => cv.otherwise->Some_0));
                            self.scope_in(o, fuel)
                        },
                        None => {
                            return Ok(None);
                        },
                    }
                };
                match r {
                    Ok(w) => if w.as_none() {
                        Ok(None)
                    } else {
                        Ok(Some(w))
                    },
                    Err(x) => Err(x),
                }
            },
            _ => Err(RuntimeError::IllegalTypeInConditional { value_type: v.value_name() }),
        }
    }

    /// A loop statement.
    fn loop_in(&mut self, l: &LoopStatement, fuel: u64) -> (r: Result<Option<Value>, RuntimeError>)
        ensures
            (final(self)@, opt_result(r)) == exec_stmt(
                old(self)@,
                SpecStmt::LoopStatement(loop_view(*l)),
                fuel as nat,
            ),
            old(self).wf() ==> final(self).wf(),
        decreases 2 * fuel, loop_view(*l), 0nat,
    {
        let ghost lv = loop_view(*l);
        assert(decreases_to!(lv => lv.inner));
        assert(decreases_to!(lv => lv.kind));
        match &l.execute_type {
            LoopExecuteType::Conditional(cond) => {
                assert(lv.kind == SpecLoopKind::Conditional(cond@));
                self.while_in(cond, &l.inner, fuel)
            },
            LoopExecuteType::Iter { iter, var } => {
                assert(lv.kind == SpecLoopKind::Iter { iter: iter@, var: var@ });
                assert(decreases_to!(lv.kind => lv.kind->iter));
                let it = match self.calculate_in(iter, fuel) {
                    Ok(v) => v,
                    Err(x) => {
                        return Err(x);
                    },
                };
                match it {
                    Value::List(xs) => self.for_in(var, xs, &l.inner, fuel),
                    _ => Ok(None),
                }
            },
        }
    }

    /// `while cond { body }`, one level per round.
    pub fn while_in(&mut self, cond: &CalcExpr, body: &Vec<DioAstStatement>, fuel: u64) -> (r: Result<
        Option<Value>,
        RuntimeError,
    >)
        ensures
            (final(self)@, opt_result(r)) == while_loop(
                old(self)@,
                cond@,
                stmts_view(body@),
                fuel as nat,
            ),
            old(self).wf() ==> final(self).wf(),
        decreases 2 * fuel, stmts_view(body@), 3nat,
    {
        let mut f = fuel;
        loop
            invariant
                f <= fuel,
                while_loop(self@, cond@, stmts_view(body@), f as nat) == while_loop(
                    old(self)@,
                    cond@,
                    stmts_view(body@),
                    fuel as nat,
                ),
                old(self).wf() ==> self.wf(),
            decreases f,
        {
            if f == 0 {
                return Err(RuntimeError::DepthLimitExceeded);
            }
            f = f - 1;
            let c = match self.calculate_in(cond, f) {
                Ok(c) => c,
                Err(x) => {
                    return Err(x);
                },
            };
            if !c.to_boolean_data() {
                return Ok(None);
            }
            let v = match self.scope_in(body, f) {
                Ok(v) => v,
                Err(x) => {
                    return Err(x);
                },
            };
            if !v.as_none() {
                return Ok(Some(v));
            }
        }
    }

    /// `for var in list { body }`, each item bound in a scope of its own.
    pub fn for_in(&mut self, var: &String, items: Vec<Value>, body: &Vec<DioAstStatement>, fuel: u64) -> (r: Result<
        Option<Value>,
        RuntimeError,
    >)
        ensures
            (final(self)@, opt_result(r)) == for_loop(
                old(self)@,
                var@,
                values_view(items@),
                stmts_view(body@),
                fuel as nat,
            ),
            old(self).wf() ==> final(self).wf(),
        decreases 2 * fuel, stmts_view(body@), 3nat,
    {
        let ghost iv = values_view(items@);
        proof {
            lemma_values_view(items@);
            assert(iv.skip(0) =~= iv);
        }
        let mut f = fuel;
        let mut i: usize = 0;
        loop
            invariant
                f <= fuel,
                i <= items@.len(),
                iv == values_view(items@),
                iv.len() == items@.len(),
                forall|m: int| 0 <= m < items@.len() ==> #[trigger] iv[m] == value_view(items@[m]),
                for_loop(self@, var@, iv.skip(i as int), stmts_view(body@), f as nat) == for_loop(
                    old(self)@,
                    var@,
                    iv,
                    stmts_view(body@),
                    fuel as nat,
                ),
                old(self).wf() ==> self.wf(),
            decreases items@.len() - i,
        {
            if i >= items.len() {
                return Ok(None);
            }
            if f == 0 {
                return Err(RuntimeError::DepthLimitExceeded);
            }
            f = f - 1;
            assert(iv.skip(i as int)[0] == value_view(items@[i as int]));
            assert(iv.skip(i as int).drop_first() =~= iv.skip(i + 1));
            self.enter_scope(false);
            match self.create_var(var.as_str(), copy_value(&items[i])) {
                Ok(_) => {},
                Err(x) => {
                    return Err(x);
                },
            }
            let v = match self.scope_in(body, f) {
                Ok(v) => v,
                Err(x) => {
                    return Err(x);
                },
            };
            self.leave_scope();
            if !v.as_none() {
                return Ok(Some(v));
            }
            i = i + 1;
        }
    }

    /// An element: its attributes, then its content in order.
    pub fn element_in(&mut self, e: &AstElement, fuel: u64) -> (r: Result<Element, RuntimeError>)
        ensures
            (final(self)@, element_result(r)) == eval_element(
                old(self)@,
                ast_element_view(*e),
                fuel as nat,
            ),
            old(self).wf() ==> final(self).wf(),
        decreases 2 * fuel, ast_element_view(*e), 1nat,
    {
        assert(ast_element_view(*e).attributes == attrs_ast_view(e.attributes@));
        assert(ast_element_view(*e).content == ast_contents_view(e.content@));
        assert(decreases_to!(ast_element_view(*e) => ast_element_view(*e).attributes));
        assert(decreases_to!(ast_element_view(*e) => ast_element_view(*e).content));
        let attrs = match self.attrs_in(&e.attributes, fuel) {
            Ok(a) => a,
            Err(x) => {
                return Err(x);
            },
        };
        let content: Vec<ElementContentType> = Vec::new();
        assert(contents_view(content@) =~= Seq::<SpecContent>::empty());
        match self.contents_in(&e.content, attrs, content, fuel) {
            Ok((at, ct)) => Ok(Element { name: copy_string(&e.name), attributes: at, content: ct }),
            Err(x) => Err(x),
        }
    }

    /// The attribute values of an element, in order.
    pub fn attrs_in(&mut self, xs: &Vec<(String, AstValue)>, fuel: u64) -> (r: Result<
        Vec<(String, Value)>,
        RuntimeError,
    >)
        ensures
            (final(self)@, crate::runtime::dict_result(r)) == eval_attrs(
                old(self)@,
                attrs_ast_view(xs@),
                Seq::empty(),
                fuel as nat,
            ),
            old(self).wf() ==> final(self).wf(),
        decreases 2 * fuel, attrs_ast_view(xs@), 0nat,
    {
        let ghost xv = attrs_ast_view(xs@);
        proof {
            lemma_attrs_ast_view(xs@);
            assert(xv.skip(0) =~= xv);
        }
        let mut acc: Vec<(String, Value)> = Vec::new();
        assert(dict_view(acc@) =~= Seq::<(Seq<char>, SpecValue)>::empty());
        let mut i: usize = 0;
        while i < xs.len()
            invariant
                i <= xs@.len(),
                xv == attrs_ast_view(xs@),
                xv.len() == xs@.len(),
                forall|m: int| 0 <= m < xs@.len() ==> #[trigger] xv[m] == (xs@[m].0@, ast_value_view(xs@[m].1)),
                eval_attrs(self@, xv.skip(i as int), dict_view(acc@), fuel as nat) == eval_attrs(
                    old(self)@,
                    xv,
                    Seq::empty(),
                    fuel as nat,
                ),
                old(self).wf() ==> self.wf(),
            decreases xs@.len() - i,
        {
            let ghost rest = xv.skip(i as int);
            assert(rest[0] == (xs@[i as int].0@, ast_value_view(xs@[i as int].1)));
            assert(rest.drop_first() =~= xv.skip(i + 1));
            assert(decreases_to!(xv => xv[i as int]));
            match self.value_in(&xs[i].1, fuel) {
                Ok(v) => {
                    put_value(&mut acc, xs[i].0.as_str(), v);
                },
                Err(x) => {
                    return Err(x);
                },
            }
            i = i + 1;
        }
        assert(xv.skip(i as int) =~= Seq::<(Seq<char>, crate::ast::SpecAstValue)>::empty());
        Ok(acc)
    }

    /// The content items of an element in order.
    pub fn contents_in(
        &mut self,
        cs: &Vec<AstElementContentType>,
        attrs: Vec<(String, Value)>,
        content: Vec<ElementContentType>,
        fuel: u64,
    ) -> (r: Result<(Vec<(String, Value)>, Vec<ElementContentType>), RuntimeError>)
        ensures
            (final(self)@, parts_result(r)) == eval_contents(
                old(self)@,
                ast_contents_view(cs@),
                dict_view(attrs@),
                contents_view(content@),
                fuel as nat,
            ),
            old(self).wf() ==> final(self).wf(),
        decreases 2 * fuel, ast_contents_view(cs@), 0nat,
    {
        let ghost cv = ast_contents_view(cs@);
        proof {
            lemma_ast_contents_view(cs@);
            assert(cv.skip(0) =~= cv);
        }
        let mut at = attrs;
        let mut ct = content;
        let mut i: usize = 0;
        while i < cs.len()
            invariant
                i <= cs@.len(),
                cv == ast_contents_view(cs@),
                cv.len() == cs@.len(),
                forall|m: int| 0 <= m < cs@.len() ==> #[trigger] cv[m] == ast_content_view(cs@[m]),
                eval_contents(self@, cv.skip(i as int), dict_view(at@), contents_view(ct@), fuel as nat)
                    == eval_contents(
                    old(self)@,
                    cv,
                    dict_view(attrs@),
                    contents_view(content@),
                    fuel as nat,
                ),
                old(self).wf() ==> self.wf(),
            decreases cs@.len() - i,
        {
            let ghost rest = cv.skip(i as int);
            assert(rest[0] == ast_content_view(cs@[i as int]));
            assert(rest.drop_first() =~= cv.skip(i + 1));
            assert(decreases_to!(cv => cv[i as int]));
            match self.content_in(&cs[i], at, ct, fuel) {
                Ok((a, c)) => {
                    at = a;
                    ct = c;
                },
                Err(x) => {
                    return Err(x);
                },
            }
            i = i + 1;
        }
        assert(cv.skip(i as int) =~= Seq::<SpecAstContent>::empty());
        Ok((at, ct))
    }

    /// One content item of an element.
    pub fn content_in(
        &mut self,
        c: &AstElementContentType,
        attrs: Vec<(String, Value)>,
        content: Vec<ElementContentType>,
        fuel: u64,
    ) -> (r: Result<(Vec<(String, Value)>, Vec<ElementContentType>), RuntimeError>)
        ensures
            (final(self)@, parts_result(r)) == eval_content(
                old(self)@,
                ast_content_view(*c),
                dict_view(attrs@),
                contents_view(content@),
                fuel as nat,
            ),
            old(self).wf() ==> final(self).wf(),
        decreases 2 * fuel, ast_content_view(*c), 1nat,
    {
        let mut attrs = attrs;
        let mut content = content;
        let ghost cv = ast_content_view(*c);
        match c {
            AstElementContentType::Children(ch) => {
                assert(decreases_to!(cv => cv->Children_0));
                match self.element_in(ch, fuel) {
                    Ok(el) => {
                        let x = ElementContentType::Children(el);
                        proof {
                            lemma_contents_view_push(content@, x);
                        }
                        content.push(x);
                        Ok((attrs, content))
                    },
                    Err(x) => Err(x),
                }
            },
            AstElementContentType::Content(t) => {
                let x = ElementContentType::Content(copy_string(t));
                proof {
                    lemma_contents_view_push(content@, x);
                }
                content.push(x);
                Ok((attrs, content))
            },
            AstElementContentType::Condition(cd) => {
                assert(decreases_to!(cv => cv->Condition_0));
                self.content_cond_in(cd, attrs, content, fuel)
            },
            AstElementContentType::Loop(l) => {
                assert(decreases_to!(cv => cv->Loop_0));
                self.content_loop_in(l, attrs, content, fuel)
            },
            AstElementContentType::InlineExpr(e) => {
                assert(decreases_to!(cv => cv->InlineExpr_0));
                match self.calculate_in(e, fuel) {
                    Ok(v) => {
                        push_value_content(&mut content, &v);
                        Ok((attrs, content))
                    },
                    Err(x) => Err(x),
                }
            },
        }
    }

    /// An `if` inside an element.
    fn content_cond_in(
        &mut self,
        cd: &ConditionalStatement,
        attrs: Vec<(String, Value)>,
        content: Vec<ElementContentType>,
        fuel: u64,
    ) -> (r: Result<(Vec<(String, Value)>, Vec<ElementContentType>), RuntimeError>)
        ensures
            (final(self)@, parts_result(r)) == eval_content(
                old(self)@,
                SpecAstContent::Condition(cond_view(*cd)),
                dict_view(attrs@),
                contents_view(content@),
                fuel as nat,
            ),
            old(self).wf() ==> final(self).wf(),
        decreases 2 * fuel, cond_view(*cd), 0nat,
    {
        let mut attrs = attrs;
        let mut content = content;
        let ghost cv = cond_view(*cd);
        assert(decreases_to!(cv => cv.condition));
        assert(decreases_to!(cv => cv.inner));
        assert(decreases_to!(cv => cv.otherwise));
        let v = match self.calculate_in(&cd.condition, fuel) {
            Ok(v) => v,
            Err(x) => {
                return Err(x);
            },
        };
        match v {
            Value::Boolean(b) => {
                let r = if b {
                    self.scope_in(&cd.inner, fuel)
                } else {
                    match &cd.otherwise {
                        Some(o) => {
                            assert(cv.otherwise == Some(stmts_view(o@)));
                            assert(decreases_to!(cv.otherwise => cv.otherwise->Some_0));
                            self.scope_in(o, fuel)
                        },
                        None => Ok(Value::Null),
                    }
                };
                match r {
                    Ok(w) => {
                        absorb_exec(&mut attrs, &mut content, w);
                        Ok((attrs, content))
                    },
                    Err(x) => Err(x),
                }
            },
            _ => Ok((attrs, content)),
        }
    }

    /// A loop inside an element.
    fn content_loop_in(
        &mut self,
        l: &LoopStatement,
        attrs: Vec<(String, Value)>,
        content: Vec<ElementContentType>,
        fuel: u64,
    ) -> (r: Result<(Vec<(String, Value)>, Vec<ElementContentType>), RuntimeError>)
        ensures
            (final(self)@, parts_result(r)) == eval_content(
                old(self)@,
                SpecAstContent::Loop(loop_view(*l)),
                dict_view(attrs@),
                contents_view(content@),
                fuel as nat,
            ),
            old(self).wf() ==> final(self).wf(),
        decreases 2 * fuel, loop_view(*l), 0nat,
    {
        let ghost lv = loop_view(*l);
        assert(decreases_to!(lv => lv.inner));
        assert(decreases_to!(lv => lv.kind));
        match &l.execute_type {
            LoopExecuteType::Conditional(cond) => {
                assert(lv.kind == SpecLoopKind::Conditional(cond@));
                self.content_while_in(cond, &l.inner, attrs, content, fuel)
            },
            LoopExecuteType::Iter { iter, var } => {
                assert(lv.kind == SpecLoopKind::Iter { iter: iter@, var: var@ });
                assert(decreases_to!(lv.kind => lv.kind->iter));
                let it = match self.calculate_in(iter, fuel) {
                    Ok(v) => v,
                    Err(x) => {
                        return Err(x);
                    },
                };
                match it {
                    Value::List(xs) => self.content_for_in(var, xs, &l.inner, attrs, content, fuel),
                    _ => Ok((attrs, content)),
                }
            },
        }
    }

    /// A `while` inside an element.
    pub fn content_while_in(
        &mut self,
        cond: &CalcExpr,
        body: &Vec<DioAstStatement>,
        attrs: Vec<(String, Value)>,
        content: Vec<ElementContentType>,
        fuel: u64,
    ) -> (r: Result<(Vec<(String, Value)>, Vec<ElementContentType>), RuntimeError>)
        ensures
            (final(self)@, parts_result(r)) == content_while(
                old(self)@,
                cond@,
                stmts_view(body@),
                dict_view(attrs@),
                contents_view(content@),
                fuel as nat,
            ),
            old(self).wf() ==> final(self).wf(),
        decreases 2 * fuel, stmts_view(body@), 3nat,
    {
        let mut at = attrs;
        let mut ct = content;
        let mut f = fuel;
        loop
            invariant
                f <= fuel,
                content_while(self@, cond@, stmts_view(body@), dict_view(at@), contents_view(ct@), f as nat)
                    == content_while(
                    old(self)@,
                    cond@,
                    stmts_view(body@),
                    dict_view(attrs@),
                    contents_view(content@),
                    fuel as nat,
                ),
                old(self).wf() ==> self.wf(),
            decreases f,
        {
            if f == 0 {
                return Err(RuntimeError::DepthLimitExceeded);
            }
            f = f - 1;
            let c = match self.calculate_in(cond, f) {
                Ok(c) => c,
                Err(x) => {
                    return Err(x);
                },
            };
            if !c.to_boolean_data() {
                return Ok((at, ct));
            }
            let v = match self.scope_in(body, f) {
                Ok(v) => v,
                Err(x) => {
                    return Err(x);
                },
            };
            absorb_exec(&mut at, &mut ct, v);
        }
    }

    /// A `for` inside an element.
    pub fn content_for_in(
        &mut self,
        var: &String,
        items: Vec<Value>,
        body: &Vec<DioAstStatement>,
        attrs: Vec<(String, Value)>,
        content: Vec<ElementContentType>,
        fuel: u64,
    ) -> (r: Result<(Vec<(String, Value)>, Vec<ElementContentType>), RuntimeError>)
        ensures
            (final(self)@, parts_result(r)) == content_for(
                old(self)@,
                var@,
                values_view(items@),
                stmts_view(body@),
                dict_view(attrs@),
                contents_view(content@),
                fuel as nat,
            ),
            old(self).wf() ==> final(self).wf(),
        decreases 2 * fuel, stmts_view(body@), 3nat,
    {
        let ghost iv = values_view(items@);
        proof {
            lemma_values_view(items@);
            assert(iv.skip(0) =~= iv);
        }
        let mut at = attrs;
        let mut ct = content;
        let mut f = fuel;
        let mut i: usize = 0;
        loop
            invariant
                f <= fuel,
                i <= items@.len(),
                iv == values_view(items@),
                iv.len() == items@.len(),
                forall|m: int| 0 <= m < items@.len() ==> #[trigger] iv[m] == value_view(items@[m]),
                content_for(
                    self@,
                    var@,
                    iv.skip(i as int),
                    stmts_view(body@),
                    dict_view(at@),
                    contents_view(ct@),
                    f as nat,
                ) == content_for(
                    old(self)@,
                    var@,
                    iv,
                    stmts_view(body@),
                    dict_view(attrs@),
                    contents_view(content@),
                    fuel as nat,
                ),
                old(self).wf() ==> self.wf(),
            decreases items@.len() - i,
        {
            if i >= items.len() {
                return Ok((at, ct));
            }
            if f == 0 {
                return Err(RuntimeError::DepthLimitExceeded);
            }
            f = f - 1;
            assert(iv.skip(i as int)[0] == value_view(items@[i as int]));
            assert(iv.skip(i as int).drop_first() =~= iv.skip(i + 1));
            self.enter_scope(false);
            match self.create_var(var.as_str(), copy_value(&items[i])) {
                Ok(_) => {},
                Err(x) => {
                    return Err(x);
                },
            }
            let v = match self.scope_in(body, f) {
                Ok(v) => v,
                Err(x) => {
                    return Err(x);
                },
            };
            absorb_exec(&mut at, &mut ct, v);
            self.leave_scope();
            i = i + 1;
        }
    }
}


// ---------------------------------------------------------------------------
// The runtime's interface, at the greatest depth
// ---------------------------------------------------------------------------

impl<H: HostFunctions> Runtime<H> {
    /// The value of an expression.
    pub fn execute_calculate(&mut self, expr: &CalcExpr) -> (r: Result<Value, RuntimeError>)
        ensures
            (final(self)@, result_view(r)) == eval_expr(old(self)@, expr@, MAX_DEPTH as nat),
            old(self).wf() ==> final(self).wf(),
    {
        self.calculate_in(expr, MAX_DEPTH)
    }

    /// The value of a literal, a variable, a call or a definition.
    pub fn to_value(&mut self, value: &AstValue) -> (r: Result<Value, RuntimeError>)
        ensures
            (final(self)@, result_view(r)) == eval_value(old(self)@, value@, MAX_DEPTH as nat),
            old(self).wf() ==> final(self).wf(),
    {
        self.value_in(value, MAX_DEPTH)
    }

    /// A chain `value.part...`.
    pub fn execute_link_expr(&mut self, v: &LinkExpr) -> (r: Result<Value, RuntimeError>)
        ensures
            (final(self)@, result_view(r)) == eval_expr(old(self)@, link_view(*v), MAX_DEPTH as nat),
            old(self).wf() ==> final(self).wf(),
    {
        self.link_expr_in(v, MAX_DEPTH)
    }

    /// A call.
    pub fn execute_function(&mut self, caller: &FunctionCall) -> (r: Result<Value, RuntimeError>)
        ensures
            (final(self)@, result_view(r)) == eval_call(old(self)@, call_view(*caller), MAX_DEPTH as nat),
            old(self).wf() ==> final(self).wf(),
    {
        self.call_in(caller, MAX_DEPTH)
    }

    /// A function applied to arguments.
    pub fn execute_function_by_ft(&mut self, func: FunctionType, par: Vec<Value>) -> (r: Result<
        Value,
        RuntimeError,
    >)
        ensures
            (final(self)@, result_view(r)) == apply(
                old(self)@,
                function_view(func),
                values_view(par@),
                MAX_DEPTH as nat,
            ),
            old(self).wf() ==> final(self).wf(),
    {
        self.apply_in(func, par, MAX_DEPTH)
    }

    /// Statements in a new scope.
    pub fn execute_scope(&mut self, statements: &Vec<DioAstStatement>) -> (r: Result<
        Value,
        RuntimeError,
    >)
        ensures
            (final(self)@, result_view(r)) == exec_scope(
                old(self)@,
                stmts_view(statements@),
                MAX_DEPTH as nat,
            ),
            old(self).wf() ==> final(self).wf(),
    {
        self.scope_in(statements, MAX_DEPTH)
    }

    /// Statements in a new function scope, which sees no variable outside it.
    pub fn execute_isolate_scope(&mut self, statements: &Vec<DioAstStatement>) -> (r: Result<
        Value,
        RuntimeError,
    >)
        ensures
            (final(self)@, result_view(r)) == exec_isolate_scope(
                old(self)@,
                stmts_view(statements@),
                MAX_DEPTH as nat,
            ),
            old(self).wf() ==> final(self).wf(),
    {
        self.enter_scope(true);
        let v = match self.block_in(statements, MAX_DEPTH) {
            Ok(v) => v,
            Err(x) => {
                return Err(x);
            },
        };
        self.leave_scope();
        Ok(v)
    }

    /// Statements in the current scope.
    pub fn execute_scope_without_new_scope(&mut self, statements: &Vec<DioAstStatement>) -> (r: Result<
        Value,
        RuntimeError,
    >)
        ensures
            (final(self)@, result_view(r)) == exec_block(
                old(self)@,
                stmts_view(statements@),
                MAX_DEPTH as nat,
            ),
            old(self).wf() ==> final(self).wf(),
    {
        self.block_in(statements, MAX_DEPTH)
    }

    /// An element.
    pub fn to_element(&mut self, element: &AstElement) -> (r: Result<Element, RuntimeError>)
        ensures
            (final(self)@, element_result(r)) == eval_element(
                old(self)@,
                ast_element_view(*element),
                MAX_DEPTH as nat,
            ),
            old(self).wf() ==> final(self).wf(),
    {
        self.element_in(element, MAX_DEPTH)
    }

    /// The content that a value adds to an element.
    pub fn ast_element_value_to_content(result: Value) -> (r: Vec<ElementContentType>)
        ensures
            contents_view(r@) == value_content(result@),
    {
        let mut out: Vec<ElementContentType> = Vec::new();
        assert(contents_view(out@) =~= Seq::<SpecContent>::empty());
        push_value_content(&mut out, &result);
        assert(Seq::<SpecContent>::empty() + value_content(result@) =~= value_content(result@));
        out
    }
}

} // verus!
