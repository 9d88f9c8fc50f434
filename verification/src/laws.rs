//! Properties that hold across the operations of the runtime's store and of
//! the parser.
use vstd::prelude::*;

use crate::error::SpecRuntimeError;
use crate::semantics::{
    collect_functions, deref, eval_expr, eval_value, exec_block, exec_stmt, exec_stmts, create_var, enter_scope, find_var, find_var_from, follow_ref, get_ref, get_var, leave_scope,
    set_ref, set_var, SpecRuntime,
};
use crate::ast::{SpecAstElement, SpecAstValue, SpecExpr, SpecStmt};
use crate::chars::{is_digit, skip, CharClass};
use crate::grammar::{
    attr_insert, build_element, define, digits_value, distinct_names, element, number,
    split_params, ElementItem,
};
use crate::text::{digit_char, int_numeral, nat_numeral};
use crate::value::{
    dict_lookup, key_index, lemma_key_index, lemma_key_index_first, value_text, SpecValue,
};

verus! {

/// Every stored value lives under an id below the next fresh id.
pub open spec fn ids_below_next(rt: SpecRuntime) -> bool {
    forall|id: u128| #[trigger] rt.data.contains_key(id) ==> id < rt.next_id
}

/// Leaving a scope just entered gives back the state before it.
pub proof fn law_leave_undoes_enter(rt: SpecRuntime, isolate: bool)
    ensures
        leave_scope(enter_scope(rt, isolate)) == rt,
{
    assert(enter_scope(rt, isolate).scopes.drop_last() =~= rt.scopes);
}

/// A variable just created is found under its name, with its id and the
/// value it was created with.
pub proof fn law_get_after_create(rt: SpecRuntime, name: Seq<char>, v: SpecValue)
    ensures
        create_var(rt, name, v).1 matches Ok(id) ==> get_var(create_var(rt, name, v).0, name)
            == Ok::<(u128, SpecValue), SpecRuntimeError>((id, v)),
{
    let (rt2, r) = create_var(rt, name, v);
    if let Ok(id) = r {
        let n = rt.scopes.len();
        let last = rt.scopes.last();
        let vars = last.vars.push((name, id));
        lemma_key_index(last.vars, name);
        assert(key_index(last.vars, name) is None);
        assert forall|j: int| 0 <= j < vars.len() - 1 implies vars[j].0 != name by {
            assert(vars[j] == last.vars[j]);
        }
        lemma_key_index_first(vars, name, vars.len() - 1);
        assert(rt2.scopes[n - 1].vars == vars);
        assert(dict_lookup(rt2.scopes[n - 1].vars, name) == Some(id));
        assert(rt2.data.contains_key(id));
        assert(find_var_from(rt2, name, n as int) == Some(id));
        assert(find_var(rt2, name) == Some(id));
    }
}

/// Creating a variable uses an id that nothing held and keeps every stored
/// value, on every runtime; it keeps ids below the next fresh id where they
/// were; a refused creation changes nothing.
pub proof fn law_create_fresh(rt: SpecRuntime, name: Seq<char>, v: SpecValue)
    ensures
        create_var(rt, name, v).1 matches Ok(id) ==> {
            let rt2 = create_var(rt, name, v).0;
            &&& !rt.data.contains_key(id)
            &&& rt2.data == rt.data.insert(id, v)
            &&& (ids_below_next(rt) ==> ids_below_next(rt2))
        },
        create_var(rt, name, v).1 is Err ==> create_var(rt, name, v).0 == rt,
{
}

/// A value written under an id is what reading that id gives.
pub proof fn law_get_ref_after_set_ref(rt: SpecRuntime, id: u128, v: SpecValue)
    ensures
        set_ref(rt, id, v).1 is Ok ==> get_ref(set_ref(rt, id, v).0, id) == Ok::<
            SpecValue,
            SpecRuntimeError,
        >(v),
        set_ref(rt, id, v).1 is Err <==> get_ref(rt, id) is Err,
{
}

/// Writing a plain value at the end of a chain of references keeps the
/// chain: it still ends there.
proof fn lemma_follow_ref_after_write(
    rt: SpecRuntime,
    id: u128,
    hops: nat,
    t: u128,
    v: SpecValue,
)
    requires
        follow_ref(rt, id, hops) == Ok::<u128, SpecRuntimeError>(t),
        !(v is Reference),
    ensures
        follow_ref(SpecRuntime { data: rt.data.insert(t, v), ..rt }, id, hops) == Ok::<
            u128,
            SpecRuntimeError,
        >(t),
    decreases 36 - hops,
{
    let rt2 = SpecRuntime { data: rt.data.insert(t, v), ..rt };
    if id != t {
        if let SpecValue::Reference(next) = rt.data[id] {
            if hops + 1 <= 35 {
                lemma_follow_ref_after_write(rt, next, hops + 1, t, v);
            }
        }
    }
}

/// Assigning a plain value to a variable: the name still denotes the same
/// variable, whose chain of references now ends at the assigned value.
pub proof fn law_get_after_set(rt: SpecRuntime, name: Seq<char>, v: SpecValue)
    requires
        !(v is Reference),
    ensures
        set_var(rt, name, v).1 matches Ok(t) ==> {
            let rt2 = set_var(rt, name, v).0;
            &&& get_var(rt2, name) matches Ok((id2, _))
            &&& get_var(rt, name) matches Ok((id, _))
            &&& id2 == id
            &&& follow_ref(rt2, id, 0) == Ok::<u128, SpecRuntimeError>(t)
            &&& rt2.data[t] == v
        },
{
    let (rt2, r) = set_var(rt, name, v);
    if let Ok(t) = r {
        let (cur, _) = get_var(rt, name)->Ok_0;
        assert(follow_ref(rt, cur, 0) == Ok::<u128, SpecRuntimeError>(t));
        crate::semantics::lemma_follow_ref_found(rt, cur, 0);
        assert(rt.data.contains_key(t));
        assert(rt2.data.dom() =~= rt.data.dom());
        lemma_find_var_same_dom(rt, rt2, name, rt.scopes.len() as int);
        lemma_follow_ref_after_write(rt, cur, 0, t, v);
    }
}

/// The lookup of a name depends on the scopes and on which ids hold data.
proof fn lemma_find_var_same_dom(rt: SpecRuntime, rt2: SpecRuntime, name: Seq<char>, i: int)
    requires
        rt2.scopes == rt.scopes,
        rt2.data.dom() == rt.data.dom(),
    ensures
        find_var_from(rt2, name, i) == find_var_from(rt, name, i),
    decreases i,
{
    if 0 < i <= rt.scopes.len() {
        let sc = rt.scopes[i - 1];
        match dict_lookup(sc.vars, name) {
            Some(id) => {
                assert(rt2.data.contains_key(id) == rt.data.contains_key(id));
            },
            None => {},
        }
        lemma_find_var_same_dom(rt, rt2, name, i - 1);
    }
}

/// The names of an element's attributes, in order.
pub open spec fn attr_names(e: SpecAstElement) -> Seq<Seq<char>> {
    Seq::new(e.attributes.len(), |i: int| e.attributes[i].0)
}

proof fn lemma_split_params_distinct(ps: Seq<(Seq<char>, bool)>)
    ensures
        split_params(ps) matches Some(sp) ==> distinct_names(sp.names) && (sp.variadic matches Some(
            v,
        ) ==> !sp.names.contains(v)),
{
    let all = Seq::new(ps.len(), |i: int| ps[i].0);
    if let Some(sp) = split_params(ps) {
        if sp.variadic is Some {
            assert(sp.names == all.drop_last());
            let v = sp.variadic->Some_0;
            assert(v == all[all.len() - 1]);
            if sp.names.contains(v) {
                let k = choose|k: int| 0 <= k < sp.names.len() && sp.names[k] == v;
                assert(all[k] == all[all.len() - 1]);
            }
        }
    }
}

/// A function definition that the parser accepts names each parameter
/// once, and its collecting parameter differs from the others.
pub proof fn law_parsed_params_distinct(s: Seq<char>, p: int)
    ensures
        define(s, p) matches Some((d, q)) ==> distinct_names(d.params) && (d.variadic_param matches Some(
            v,
        ) ==> !d.params.contains(v)),
{
    if define(s, p) is Some {
        let b = if crate::grammar::var_name(s, crate::grammar::ws(s, p + 2)) is Some {
            crate::grammar::ws(s, crate::grammar::var_name(s, crate::grammar::ws(s, p + 2))->Some_0.1)
        } else {
            crate::grammar::ws(s, p + 2)
        };
        let (ps, c) = crate::grammar::params_list(s, b + 1);
        lemma_split_params_distinct(ps);
    }
}

proof fn lemma_build_element_distinct(name: Seq<char>, items: Seq<ElementItem>)
    ensures
        build_element(name, items) matches Some(e) ==> distinct_names(attr_names(e)),
    decreases items.len(),
{
    if items.len() > 0 {
        lemma_build_element_distinct(name, items.drop_last());
        if let Some(e0) = build_element(name, items.drop_last()) {
            if let ElementItem::Attribute(k, v) = items.last() {
                lemma_key_index(e0.attributes, k);
                if let Some(a) = attr_insert(e0.attributes, k, v) {
                    let e = build_element(name, items)->Some_0;
                    assert(e.attributes == a);
                    let ns = attr_names(e);
                    let ns0 = attr_names(e0);
                    assert forall|i: int, j: int| 0 <= i < j < ns.len() implies ns[i] != ns[j] by {
                        if j < ns.len() - 1 {
                            assert(ns[i] == ns0[i] && ns[j] == ns0[j]);
                        } else {
                            assert(ns[j] == k);
                            assert(ns[i] == e0.attributes[i].0);
                        }
                    }
                }
            }
        }
    }
}

/// An element that the parser accepts names each attribute once.
pub proof fn law_parsed_attributes_distinct(s: Seq<char>, p: int)
    ensures
        element(s, p) matches Some((e, q)) ==> distinct_names(attr_names(e)),
{
    if let Some((name, q)) = crate::grammar::word(s, p, crate::chars::CharClass::Alnum) {
        let a = crate::grammar::mws(s, q);
        let (items, r0) = crate::grammar::element_items(s, a + 1, Seq::empty());
        lemma_build_element_distinct(name, items);
    }
}

proof fn lemma_digit_char(d: int)
    requires
        0 <= d < 10,
    ensures
        is_digit(digit_char(d)),
        (digit_char(d) as u32) - ('0' as u32) == d,
{
}

proof fn lemma_numeral_digits(m: nat)
    ensures
        nat_numeral(m).len() >= 1,
        forall|i: int| 0 <= i < nat_numeral(m).len() ==> is_digit(#[trigger] nat_numeral(m)[i]),
        digits_value(nat_numeral(m)) == m,
    decreases m,
{
    if m < 10 {
        lemma_digit_char(m as int);
        let t = nat_numeral(m);
        assert(t.drop_last() =~= Seq::<char>::empty());
        assert(digits_value(t) == digits_value(t.drop_last()) * 10 + ((t.last() as u32) - ('0' as u32)) as nat);
    } else {
        let x = nat_numeral(m / 10);
        let c = digit_char((m % 10) as int);
        lemma_numeral_digits(m / 10);
        lemma_digit_char((m % 10) as int);
        assert(nat_numeral(m) == x.push(c));
        assert(x.push(c).drop_last() =~= x);
        let t = x.push(c);
        assert(digits_value(t) == digits_value(t.drop_last()) * 10 + ((t.last() as u32) - ('0' as u32)) as nat);
        assert(digits_value(t) == (m / 10) * 10 + (m % 10));
        assert((m / 10) * 10 + m % 10 == m) by (nonlinear_arith);
    }
}

proof fn lemma_skip_digits(s: Seq<char>, p: int)
    requires
        0 <= p <= s.len(),
        forall|i: int| p <= i < s.len() ==> is_digit(#[trigger] s[i]),
    ensures
        skip(s, p, CharClass::Digit) == s.len(),
    decreases s.len() - p,
{
    if p < s.len() {
        lemma_skip_digits(s, p + 1);
    }
}

/// The text a number prints as is read back as that number: the number
/// literal at the start of `value_text` of a number is the number itself,
/// and it spans the whole text.
pub proof fn law_number_text_reads_back(n: i64)
    ensures
        number(value_text(SpecValue::Number(n)), 0) == Some(
            (n, value_text(SpecValue::Number(n)).len() as int),
        ),
{
    let s = value_text(SpecValue::Number(n));
    assert(s == int_numeral(n as int));
    if n >= 0 {
        let t = nat_numeral(n as nat);
        lemma_numeral_digits(n as nat);
        assert(s == t);
        assert(is_digit(s[0]));
        lemma_skip_digits(s, 0);
        assert(s.subrange(0, s.len() as int) =~= t);
    } else {
        let m = (-(n as int)) as nat;
        let t = nat_numeral(m);
        lemma_numeral_digits(m);
        assert(s == seq!['-'] + t);
        assert forall|i: int| 1 <= i < s.len() implies is_digit(#[trigger] s[i]) by {
            assert(s[i] == t[i - 1]);
        }
        lemma_skip_digits(s, 1);
        assert(s.subrange(1, s.len() as int) =~= t);
    }
}

/// The value a literal of a number, a string or a boolean denotes.
pub open spec fn literal_value(lit: SpecAstValue) -> SpecValue {
    match lit {
        SpecAstValue::Number(n) => SpecValue::Number(n),
        SpecAstValue::String(t) => SpecValue::String(t),
        SpecAstValue::Boolean(b) => SpecValue::Boolean(b),
        _ => SpecValue::Null,
    }
}

/// The script `let name = lit; return name;`.
pub open spec fn let_then_return(name: Seq<char>, lit: SpecAstValue) -> Seq<SpecStmt> {
    seq![
        SpecStmt::VariableAss { new: true, name, expr: SpecExpr::Value(lit) },
        SpecStmt::ReturnValue(SpecExpr::Value(SpecAstValue::Variable(name))),
    ]
}

/// A script that defines a variable and returns it gives back the value it
/// stored, whenever the definition is accepted.
pub proof fn law_script_reads_back_let(rt: SpecRuntime, name: Seq<char>, lit: SpecAstValue, fuel: nat)
    requires
        rt.data.dom().finite(),
        lit is Number || lit is String || lit is Boolean,
        create_var(rt, name, literal_value(lit)).1 is Ok,
    ensures
        exec_block(rt, let_then_return(name, lit), fuel).1 == Ok::<SpecValue, SpecRuntimeError>(
            literal_value(lit),
        ),
{
    let stmts = let_then_return(name, lit);
    let v = literal_value(lit);
    assert(stmts.drop_first().drop_first() =~= Seq::<SpecStmt>::empty());
    assert(collect_functions(rt, stmts.drop_first().drop_first()) == (rt, Ok::<(), SpecRuntimeError>(())));
    assert(collect_functions(rt, stmts.drop_first()) == (rt, Ok::<(), SpecRuntimeError>(())));
    assert(collect_functions(rt, stmts) == (rt, Ok::<(), SpecRuntimeError>(())));
    assert(eval_value(rt, lit, fuel) == (rt, Ok::<SpecValue, SpecRuntimeError>(v)));
    assert(eval_expr(rt, SpecExpr::Value(lit), fuel) == (rt, Ok::<SpecValue, SpecRuntimeError>(v)));
    let (rt2, r) = create_var(rt, name, v);
    let id = r->Ok_0;
    law_get_after_create(rt, name, v);
    assert(get_var(rt2, name) == Ok::<(u128, SpecValue), SpecRuntimeError>((id, v)));
    assert(rt2.data.dom() =~= rt.data.dom().insert(id));
    assert(deref(rt2, v) == Ok::<SpecValue, SpecRuntimeError>(v));
    assert(exec_stmt(rt, stmts[0], fuel) == (rt2, Ok::<Option<SpecValue>, SpecRuntimeError>(None)));
    let rest = stmts.drop_first();
    let var = SpecAstValue::Variable(name);
    assert(eval_value(rt2, var, fuel) == (rt2, Ok::<SpecValue, SpecRuntimeError>(v)));
    assert(eval_expr(rt2, SpecExpr::Value(var), fuel) == (rt2, Ok::<SpecValue, SpecRuntimeError>(v)));
    assert(exec_stmt(rt2, rest[0], fuel) == (rt2, Ok::<Option<SpecValue>, SpecRuntimeError>(Some(v))));
    assert(exec_stmts(rt2, rest, fuel) == (rt2, Ok::<SpecValue, SpecRuntimeError>(v)));
    assert(exec_stmts(rt, stmts, fuel) == (rt2, Ok::<SpecValue, SpecRuntimeError>(v)));
}

} // verus!
