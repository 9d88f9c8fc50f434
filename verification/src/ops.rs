//! Operators, indexing, equality and HTML rendering of values.
use vstd::prelude::*;

use crate::ast::CalculateMark;
use crate::error::{RuntimeError, SpecRuntimeError};
use crate::text::{append, i64_to_string, int_numeral, push_str, str_eq, string_of_char};
use crate::value::{
    contents_view, copy_value, dict_lookup, dict_view, element_view, find_key, kind_name,
    lemma_contents_view, lemma_dict_view, result_view, lemma_key_index, lemma_values_view, lit, same_kind,
    same_kind_exec, value_text, value_view, values_view, BuiltinFunction, Element,
    ElementContentType, FunctionType, SpecContent, SpecElement, SpecFunction, SpecValue, Value,
};

verus! {

broadcast use vstd::string::group_string_axioms;

// ---------------------------------------------------------------------------
// Equality
// ---------------------------------------------------------------------------

/// Equality of values as the `==` operator sees it: structural, with
/// dictionaries and attribute lists compared as maps, built-ins equal when
/// they are the same built-in, and script functions never equal.
pub open spec fn value_eq(a: SpecValue, b: SpecValue) -> bool
    decreases a,
{
    match a {
        SpecValue::Null => b is Null,
        SpecValue::String(x) => b matches SpecValue::String(y) && x == y,
        SpecValue::Number(x) => b matches SpecValue::Number(y) && x == y,
        SpecValue::Boolean(x) => b matches SpecValue::Boolean(y) && x == y,
        SpecValue::List(xs) => match b {
            SpecValue::List(ys) => values_eq(xs, ys),
            _ => false,
        },
        SpecValue::Dict(xs) => match b {
            SpecValue::Dict(ys) => xs.len() == ys.len() && dict_sub(xs, ys),
            _ => false,
        },
        SpecValue::Tuple(x1, x2) => match b {
            SpecValue::Tuple(y1, y2) => value_eq(*x1, *y1) && value_eq(*x2, *y2),
            _ => false,
        },
        SpecValue::Element(e) => match b {
            SpecValue::Element(f) => element_eq(e, f),
            _ => false,
        },
        SpecValue::Function(f) => match b {
            SpecValue::Function(g) => function_eq(f, g),
            _ => false,
        },
        SpecValue::Reference(x) => b matches SpecValue::Reference(y) && x == y,
    }
}

pub open spec fn function_eq(f: SpecFunction, g: SpecFunction) -> bool {
    match (f, g) {
        (SpecFunction::Rusty(b1, n1), SpecFunction::Rusty(b2, n2)) => b1 == b2 && n1 == n2,
        _ => false,
    }
}

/// Element-wise equality of two lists.
pub open spec fn values_eq(xs: Seq<SpecValue>, ys: Seq<SpecValue>) -> bool
    decreases xs,
{
    xs.len() == ys.len() && (xs.len() == 0 || (value_eq(xs[0], ys[0]) && values_eq(
        xs.drop_first(),
        ys.drop_first(),
    )))
}

/// Every entry of `xs` is found in `ys` with an equal value.
pub open spec fn dict_sub(xs: Seq<(Seq<char>, SpecValue)>, ys: Seq<(Seq<char>, SpecValue)>) -> bool
    decreases xs,
{
    xs.len() == 0 || ((match dict_lookup(ys, xs[0].0) {
        Some(v) => value_eq(xs[0].1, v),
        None => false,
    }) && dict_sub(xs.drop_first(), ys))
}

pub open spec fn element_eq(e: SpecElement, f: SpecElement) -> bool
    decreases e,
{
    e.name == f.name && e.attributes.len() == f.attributes.len() && dict_sub(
        e.attributes,
        f.attributes,
    ) && contents_eq(e.content, f.content)
}

pub open spec fn contents_eq(xs: Seq<SpecContent>, ys: Seq<SpecContent>) -> bool
    decreases xs,
{
    xs.len() == ys.len() && (xs.len() == 0 || ((match (xs[0], ys[0]) {
        (SpecContent::Children(a), SpecContent::Children(b)) => element_eq(a, b),
        (SpecContent::Content(a), SpecContent::Content(b)) => a == b,
        _ => false,
    }) && contents_eq(xs.drop_first(), ys.drop_first())))
}

/// One entry of a dictionary is matched in another.
pub open spec fn entry_found(x: (Seq<char>, SpecValue), ys: Seq<(Seq<char>, SpecValue)>) -> bool {
    match dict_lookup(ys, x.0) {
        Some(v) => value_eq(x.1, v),
        None => false,
    }
}

pub open spec fn content_eq(x: SpecContent, y: SpecContent) -> bool {
    match (x, y) {
        (SpecContent::Children(a), SpecContent::Children(b)) => element_eq(a, b),
        (SpecContent::Content(a), SpecContent::Content(b)) => a == b,
        _ => false,
    }
}

proof fn lemma_values_eq(xs: Seq<SpecValue>, ys: Seq<SpecValue>)
    ensures
        values_eq(xs, ys) <==> (xs.len() == ys.len() && forall|i: int|
            0 <= i < xs.len() ==> value_eq(#[trigger] xs[i], ys[i])),
    decreases xs.len(),
{
    if xs.len() > 0 && xs.len() == ys.len() {
        lemma_values_eq(xs.drop_first(), ys.drop_first());
        if values_eq(xs, ys) {
            assert forall|i: int| 0 <= i < xs.len() implies value_eq(#[trigger] xs[i], ys[i]) by {
                if i > 0 {
                    assert(xs.drop_first()[i - 1] == xs[i]);
                    assert(ys.drop_first()[i - 1] == ys[i]);
                }
            }
        }
        if forall|i: int| 0 <= i < xs.len() ==> value_eq(#[trigger] xs[i], ys[i]) {
            assert forall|i: int| 0 <= i < xs.drop_first().len() implies value_eq(
                #[trigger] xs.drop_first()[i],
                ys.drop_first()[i],
            ) by {
                assert(xs.drop_first()[i] == xs[i + 1]);
            }
            assert(value_eq(xs[0], ys[0]));
        }
    }
}

proof fn lemma_dict_sub(xs: Seq<(Seq<char>, SpecValue)>, ys: Seq<(Seq<char>, SpecValue)>)
    ensures
        dict_sub(xs, ys) <==> forall|i: int| 0 <= i < xs.len() ==> entry_found(#[trigger] xs[i], ys),
    decreases xs.len(),
{
    if xs.len() > 0 {
        lemma_dict_sub(xs.drop_first(), ys);
        if dict_sub(xs, ys) {
            assert forall|i: int| 0 <= i < xs.len() implies entry_found(#[trigger] xs[i], ys) by {
                if i > 0 {
                    assert(xs.drop_first()[i - 1] == xs[i]);
                }
            }
        }
        if forall|i: int| 0 <= i < xs.len() ==> entry_found(#[trigger] xs[i], ys) {
            assert forall|i: int| 0 <= i < xs.drop_first().len() implies entry_found(
                #[trigger] xs.drop_first()[i],
                ys,
            ) by {
                assert(xs.drop_first()[i] == xs[i + 1]);
            }
            assert(entry_found(xs[0], ys));
        }
    }
}

proof fn lemma_contents_eq(xs: Seq<SpecContent>, ys: Seq<SpecContent>)
    ensures
        contents_eq(xs, ys) <==> (xs.len() == ys.len() && forall|i: int|
            0 <= i < xs.len() ==> content_eq(#[trigger] xs[i], ys[i])),
    decreases xs.len(),
{
    if xs.len() > 0 && xs.len() == ys.len() {
        lemma_contents_eq(xs.drop_first(), ys.drop_first());
        if contents_eq(xs, ys) {
            assert forall|i: int| 0 <= i < xs.len() implies content_eq(#[trigger] xs[i], ys[i]) by {
                if i > 0 {
                    assert(xs.drop_first()[i - 1] == xs[i]);
                    assert(ys.drop_first()[i - 1] == ys[i]);
                }
            }
        }
        if forall|i: int| 0 <= i < xs.len() ==> content_eq(#[trigger] xs[i], ys[i]) {
            assert forall|i: int| 0 <= i < xs.drop_first().len() implies content_eq(
                #[trigger] xs.drop_first()[i],
                ys.drop_first()[i],
            ) by {
                assert(xs.drop_first()[i] == xs[i + 1]);
            }
            assert(content_eq(xs[0], ys[0]));
        }
    }
}

/// The value stored under `k` in a dictionary, found by its position.
pub proof fn lemma_dict_lookup_at(d: Seq<(String, Value)>, k: Seq<char>, i: int)
    requires
        0 <= i < d.len(),
        d[i].0@ == k,
        forall|j: int| 0 <= j < i ==> d[j].0@ != k,
    ensures
        dict_lookup(dict_view(d), k) == Some(value_view(d[i].1)),
{
    lemma_dict_view(d);
    lemma_key_index(dict_view(d), k);
    let dv = dict_view(d);
    match crate::value::key_index(dv, k) {
        Some(m) => {
            if m < i {
                assert(dv[m].0 == d[m].0@);
            } else if m > i {
                assert(dv[i].0 == k);
            }
        },
        None => {
            assert(dv[i].0 == k);
        },
    }
}

/// No entry of the dictionary has key `k`.
pub proof fn lemma_dict_lookup_none(d: Seq<(String, Value)>, k: Seq<char>)
    requires
        forall|j: int| 0 <= j < d.len() ==> d[j].0@ != k,
    ensures
        dict_lookup(dict_view(d), k) is None,
{
    lemma_dict_view(d);
    lemma_key_index(dict_view(d), k);
    if crate::value::key_index(dict_view(d), k) is Some {
        let m = crate::value::key_index(dict_view(d), k)->0;
        assert(dict_view(d)[m].0 == d[m].0@);
    }
}

/// Equality of two values as the `==` operator sees it.
pub fn value_equal(a: &Value, b: &Value) -> (r: bool)
    ensures
        r == value_eq(a@, b@),
    decreases a,
{
    match a {
        Value::Null => matches!(b, Value::Null),
        Value::String(x) => match b {
            Value::String(y) => str_eq(x.as_str(), y.as_str()),
            _ => false,
        },
        Value::Number(x) => match b {
            Value::Number(y) => *x == *y,
            _ => false,
        },
        Value::Boolean(x) => match b {
            Value::Boolean(y) => *x == *y,
            _ => false,
        },
        Value::List(xs) => match b {
            Value::List(ys) => lists_equal(xs, ys),
            _ => false,
        },
        Value::Dict(xs) => match b {
            Value::Dict(ys) => {
                proof {
                    lemma_dict_view(xs@);
                    lemma_dict_view(ys@);
                }
                xs.len() == ys.len() && dict_included(xs, ys)
            },
            _ => false,
        },
        Value::Tuple((x1, x2)) => match b {
            Value::Tuple((y1, y2)) => value_equal(x1, y1) && value_equal(x2, y2),
            _ => false,
        },
        Value::Element(e) => match b {
            Value::Element(f) => elements_equal(e, f),
            _ => false,
        },
        Value::Function(f) => match b {
            Value::Function(g) => match (f, g) {
                (FunctionType::Rusty((b1, n1)), FunctionType::Rusty((b2, n2))) => *b1 == *b2 && *n1
                    == *n2,
                _ => false,
            },
            _ => false,
        },
        Value::Reference(x) => match b {
            Value::Reference(y) => *x == *y,
            _ => false,
        },
    }
}

fn lists_equal(xs: &Vec<Value>, ys: &Vec<Value>) -> (r: bool)
    ensures
        r == values_eq(values_view(xs@), values_view(ys@)),
    decreases xs,
{
    proof {
        lemma_values_view(xs@);
        lemma_values_view(ys@);
        lemma_values_eq(values_view(xs@), values_view(ys@));
    }
    if xs.len() != ys.len() {
        return false;
    }
    let mut i: usize = 0;
    while i < xs.len()
        invariant
            i <= xs@.len(),
            xs@.len() == ys@.len(),
            values_view(xs@).len() == xs@.len(),
            values_view(ys@).len() == ys@.len(),
            forall|j: int| 0 <= j < xs@.len() ==> #[trigger] values_view(xs@)[j] == value_view(xs@[j]),
            forall|j: int| 0 <= j < ys@.len() ==> #[trigger] values_view(ys@)[j] == value_view(ys@[j]),
            forall|j: int| 0 <= j < i ==> value_eq(#[trigger] values_view(xs@)[j], values_view(ys@)[j]),
        decreases xs@.len() - i,
    {
        assert(decreases_to!(xs => xs@[i as int]));
        if !value_equal(&xs[i], &ys[i]) {
            assert(!value_eq(values_view(xs@)[i as int], values_view(ys@)[i as int]));
            proof {
                lemma_values_eq(values_view(xs@), values_view(ys@));
            }
            return false;
        }
        i = i + 1;
    }
    true
}

fn dict_included(xs: &Vec<(String, Value)>, ys: &Vec<(String, Value)>) -> (r: bool)
    ensures
        r == dict_sub(dict_view(xs@), dict_view(ys@)),
    decreases xs,
{
    proof {
        lemma_dict_view(xs@);
        lemma_dict_sub(dict_view(xs@), dict_view(ys@));
    }
    let mut i: usize = 0;
    while i < xs.len()
        invariant
            i <= xs@.len(),
            dict_view(xs@).len() == xs@.len(),
            forall|j: int|
                0 <= j < xs@.len() ==> #[trigger] dict_view(xs@)[j] == (
                    xs@[j].0@,
                    value_view(xs@[j].1),
                ),
            forall|j: int| 0 <= j < i ==> entry_found(#[trigger] dict_view(xs@)[j], dict_view(ys@)),
        decreases xs@.len() - i,
    {
        assert(decreases_to!(xs => xs@[i as int].1));
        let found = find_key(ys, xs[i].0.as_str());
        match found {
            Some(k) => {
                proof {
                    lemma_dict_lookup_at(ys@, xs@[i as int].0@, k as int);
                }
                if !value_equal(&xs[i].1, &ys[k].1) {
                    assert(!entry_found(dict_view(xs@)[i as int], dict_view(ys@)));
                    proof {
                        lemma_dict_sub(dict_view(xs@), dict_view(ys@));
                    }
                    return false;
                }
            },
            None => {
                proof {
                    lemma_dict_lookup_none(ys@, xs@[i as int].0@);
                }
                assert(!entry_found(dict_view(xs@)[i as int], dict_view(ys@)));
                proof {
                    lemma_dict_sub(dict_view(xs@), dict_view(ys@));
                }
                return false;
            },
        }
        i = i + 1;
    }
    true
}

fn elements_equal(e: &Element, f: &Element) -> (r: bool)
    ensures
        r == element_eq(e@, f@),
    decreases e,
{
    proof {
        lemma_dict_view(e.attributes@);
        lemma_dict_view(f.attributes@);
    }
    str_eq(e.name.as_str(), f.name.as_str()) && e.attributes.len() == f.attributes.len()
        && dict_included(&e.attributes, &f.attributes) && contents_equal(&e.content, &f.content)
}

fn contents_equal(xs: &Vec<ElementContentType>, ys: &Vec<ElementContentType>) -> (r: bool)
    ensures
        r == contents_eq(contents_view(xs@), contents_view(ys@)),
    decreases xs,
{
    proof {
        lemma_contents_view(xs@);
        lemma_contents_view(ys@);
        lemma_contents_eq(contents_view(xs@), contents_view(ys@));
    }
    if xs.len() != ys.len() {
        return false;
    }
    let mut i: usize = 0;
    while i < xs.len()
        invariant
            i <= xs@.len(),
            xs@.len() == ys@.len(),
            contents_view(xs@).len() == xs@.len(),
            contents_view(ys@).len() == ys@.len(),
            forall|j: int|
                0 <= j < xs@.len() ==> #[trigger] contents_view(xs@)[j]
                    == crate::value::content_view(xs@[j]),
            forall|j: int|
                0 <= j < ys@.len() ==> #[trigger] contents_view(ys@)[j]
                    == crate::value::content_view(ys@[j]),
            forall|j: int|
                0 <= j < i ==> content_eq(#[trigger] contents_view(xs@)[j], contents_view(ys@)[j]),
        decreases xs@.len() - i,
    {
        assert(decreases_to!(xs => xs@[i as int]));
        let same = match (&xs[i], &ys[i]) {
            (ElementContentType::Children(a), ElementContentType::Children(b)) => elements_equal(
                a,
                b,
            ),
            (ElementContentType::Content(a), ElementContentType::Content(b)) => str_eq(
                a.as_str(),
                b.as_str(),
            ),
            _ => false,
        };
        if !same {
            assert(!content_eq(contents_view(xs@)[i as int], contents_view(ys@)[i as int]));
            proof {
                lemma_contents_eq(contents_view(xs@), contents_view(ys@));
            }
            return false;
        }
        i = i + 1;
    }
    true
}

// ---------------------------------------------------------------------------
// Arithmetic
// ---------------------------------------------------------------------------

pub open spec fn abs_int(a: int) -> int {
    if a < 0 {
        -a
    } else {
        a
    }
}

/// Integer division rounding toward zero.
pub open spec fn trunc_div(a: int, b: int) -> int {
    if (a >= 0) == (b > 0) {
        abs_int(a) / abs_int(b)
    } else {
        -(abs_int(a) / abs_int(b))
    }
}

/// The remainder of `trunc_div`, with the sign of the dividend.
pub open spec fn trunc_rem(a: int, b: int) -> int {
    if a >= 0 {
        abs_int(a) % abs_int(b)
    } else {
        -(abs_int(a) % abs_int(b))
    }
}

pub open spec fn fits_i64(x: int) -> bool {
    i64::MIN <= x <= i64::MAX
}

/// An integer result, or the overflow error when it does not fit.
pub open spec fn checked(x: int) -> Result<SpecValue, SpecRuntimeError> {
    if fits_i64(x) {
        Ok(SpecValue::Number(x as i64))
    } else {
        Err(SpecRuntimeError::NumberOverflow)
    }
}

pub open spec fn illegal(op: Seq<char>, v: SpecValue) -> Result<SpecValue, SpecRuntimeError> {
    Err(SpecRuntimeError::IllegalOperatorForType { operator: op, value_type: kind_name(v) })
}

/// The result of `l op r`. Both operands must have the same type, except that
/// a number added to a string is joined to it as text (`"a" + 1`; the other
/// order is refused like any two types).
pub open spec fn calc_spec(l: SpecValue, r: SpecValue, m: CalculateMark) -> Result<
    SpecValue,
    SpecRuntimeError,
> {
    match (m, l, r) {
        (CalculateMark::Plus, SpecValue::String(a), SpecValue::Number(b)) => Ok(
            SpecValue::String(a + int_numeral(b as int)),
        ),
        _ => if !same_kind(l, r) {
            Err(SpecRuntimeError::CompareDiffType { a: kind_name(l), b: kind_name(r) })
        } else {
            match (m, l, r) {
                (CalculateMark::Plus, SpecValue::String(a), SpecValue::String(b)) => Ok(
                    SpecValue::String(a + b),
                ),
                (CalculateMark::Plus, SpecValue::Number(a), SpecValue::Number(b)) => checked(a + b),
                (CalculateMark::Plus, _, _) => illegal("+"@, l),
                (CalculateMark::Minus, SpecValue::Number(a), SpecValue::Number(b)) => checked(a - b),
                (CalculateMark::Minus, _, _) => illegal("+"@, l),
                (CalculateMark::Multiply, SpecValue::Number(a), SpecValue::Number(b)) => checked(
                    a * b,
                ),
                (CalculateMark::Multiply, _, _) => illegal("+"@, l),
                (CalculateMark::Divide, SpecValue::Number(a), SpecValue::Number(b)) => if b == 0 {
                    Err(SpecRuntimeError::DivisionByZero)
                } else {
                    checked(trunc_div(a as int, b as int))
                },
                (CalculateMark::Divide, _, _) => illegal("+"@, l),
                (CalculateMark::Mod, SpecValue::Number(a), SpecValue::Number(b)) => if b == 0 {
                    Err(SpecRuntimeError::DivisionByZero)
                } else {
                    checked(trunc_rem(a as int, b as int))
                },
                (CalculateMark::Mod, _, _) => illegal("%"@, l),
                (CalculateMark::Equal, _, _) => if comparable(l) {
                    Ok(SpecValue::Boolean(value_eq(l, r)))
                } else {
                    illegal("=="@, l)
                },
                (CalculateMark::NotEqual, _, _) => if comparable(l) {
                    Ok(SpecValue::Boolean(!value_eq(l, r)))
                } else {
                    illegal("!="@, l)
                },
                (CalculateMark::Large, SpecValue::Number(a), SpecValue::Number(b)) => Ok(
                    SpecValue::Boolean(a > b),
                ),
                (CalculateMark::Large, _, _) => illegal(">"@, l),
                (CalculateMark::Small, SpecValue::Number(a), SpecValue::Number(b)) => Ok(
                    SpecValue::Boolean(a < b),
                ),
                (CalculateMark::Small, _, _) => illegal("<"@, l),
                (CalculateMark::LargeOrEqual, SpecValue::Number(a), SpecValue::Number(b)) => Ok(
                    SpecValue::Boolean(a >= b),
                ),
                (CalculateMark::LargeOrEqual, _, _) => illegal(">="@, l),
                (CalculateMark::SmallOrEqual, SpecValue::Number(a), SpecValue::Number(b)) => Ok(
                    SpecValue::Boolean(a <= b),
                ),
                (CalculateMark::SmallOrEqual, _, _) => illegal("<="@, l),
                (CalculateMark::And, SpecValue::Boolean(a), SpecValue::Boolean(b)) => Ok(
                    SpecValue::Boolean(a && b),
                ),
                (CalculateMark::And, _, _) => illegal("&&"@, l),
                (CalculateMark::Or, SpecValue::Boolean(a), SpecValue::Boolean(b)) => Ok(
                    SpecValue::Boolean(a || b),
                ),
                (CalculateMark::Or, _, _) => illegal("||"@, l),
                (CalculateMark::NoOp, _, _) => illegal("None"@, r),
            }
        },
    }
}

/// The types that `==` and `!=` accept.
pub open spec fn comparable(v: SpecValue) -> bool {
    match v {
        SpecValue::String(_) | SpecValue::Number(_) | SpecValue::Boolean(_) | SpecValue::List(_)
        | SpecValue::Dict(_) | SpecValue::Tuple(_, _) | SpecValue::Element(_) => true,
        _ => false,
    }
}

fn illegal_exec(op: &str, v: &Value) -> (r: Result<Value, RuntimeError>)
    ensures
        result_view(r) == illegal(op@, v@),
{
    Err(RuntimeError::IllegalOperatorForType { operator: lit(op), value_type: v.value_name() })
}

fn checked_exec(x: Option<i64>) -> (r: Result<Value, RuntimeError>)
    ensures
        result_view(r) == (match x {
            Some(n) => Ok(SpecValue::Number(n)),
            None => Err(SpecRuntimeError::NumberOverflow),
        }),
{
    match x {
        Some(n) => Ok(Value::Number(n)),
        None => Err(RuntimeError::NumberOverflow),
    }
}

fn magnitude(a: i64) -> (r: u64)
    ensures
        r as int == abs_int(a as int),
{
    if a >= 0 {
        a as u64
    } else if a == i64::MIN {
        9223372036854775808u64
    } else {
        (-a) as u64
    }
}

/// `a / b` rounded toward zero, or `None` when it does not fit.
pub fn div_trunc(a: i64, b: i64) -> (r: Option<i64>)
    requires
        b != 0,
    ensures
        r matches Some(q) ==> q as int == trunc_div(a as int, b as int),
        r is None <==> !fits_i64(trunc_div(a as int, b as int)),
{
    let ua = magnitude(a);
    let ub = magnitude(b);
    let q = ua / ub;
    assert(q <= ua) by (nonlinear_arith)
        requires
            ub >= 1,
            q == ua / ub,
    ;
    if (a >= 0) == (b > 0) {
        if q <= 9223372036854775807u64 {
            Some(q as i64)
        } else {
            None
        }
    } else {
        if q == 9223372036854775808u64 {
            Some(i64::MIN)
        } else {
            Some(-(q as i64))
        }
    }
}

/// The remainder of `div_trunc`.
pub fn rem_trunc(a: i64, b: i64) -> (r: i64)
    requires
        b != 0,
    ensures
        r as int == trunc_rem(a as int, b as int),
{
    let ua = magnitude(a);
    let ub = magnitude(b);
    let m = ua % ub;
    assert(m < ub);
    assert(m <= 9223372036854775807u64);
    if a >= 0 {
        m as i64
    } else {
        -(m as i64)
    }
}

fn comparable_exec(v: &Value) -> (r: bool)
    ensures
        r == comparable(v@),
{
    match v {
        Value::String(_) | Value::Number(_) | Value::Boolean(_) | Value::List(_) | Value::Dict(_)
        | Value::Tuple(_) | Value::Element(_) => true,
        _ => false,
    }
}

impl Value {
    /// `self op o`: arithmetic on numbers, `+` on strings (and a string
    /// plus a number), comparison of numbers, logic on booleans,
    /// and `==`/`!=` on values of one type.
    pub fn calc(&self, o: &Value, s: CalculateMark) -> (r: Result<Value, RuntimeError>)
        ensures
            result_view(r) == calc_spec(self@, o@, s),
    {
        match (s, self, o) {
            (CalculateMark::Plus, Value::String(a), Value::Number(b)) => {
                let mut t = copy_string_exec(a);
                let n = i64_to_string(*b);
                append(&mut t, &n);
                return Ok(Value::String(t));
            },
            _ => {},
        }
        if !same_kind_exec(self, o) {
            return Err(
                RuntimeError::CompareDiffType { a: self.value_name(), b: o.value_name() },
            );
        }
        match s {
            CalculateMark::Plus => match (self, o) {
                (Value::String(a), Value::String(b)) => {
                    let mut t = copy_string_exec(a);
                    append(&mut t, b);
                    Ok(Value::String(t))
                },
                (Value::Number(a), Value::Number(b)) => checked_exec(a.checked_add(*b)),
                _ => illegal_exec("+", self),
            },
            CalculateMark::Minus => match (self, o) {
                (Value::Number(a), Value::Number(b)) => checked_exec(a.checked_sub(*b)),
                _ => illegal_exec("+", self),
            },
            CalculateMark::Multiply => match (self, o) {
                (Value::Number(a), Value::Number(b)) => checked_exec(a.checked_mul(*b)),
                _ => illegal_exec("+", self),
            },
            CalculateMark::Divide => match (self, o) {
                (Value::Number(a), Value::Number(b)) => {
                    if *b == 0 {
                        Err(RuntimeError::DivisionByZero)
                    } else {
                        checked_exec(div_trunc(*a, *b))
                    }
                },
                _ => illegal_exec("+", self),
            },
            CalculateMark::Mod => match (self, o) {
                (Value::Number(a), Value::Number(b)) => {
                    if *b == 0 {
                        Err(RuntimeError::DivisionByZero)
                    } else {
                        Ok(Value::Number(rem_trunc(*a, *b)))
                    }
                },
                _ => illegal_exec("%", self),
            },
            CalculateMark::Equal => {
                if comparable_exec(self) {
                    Ok(Value::Boolean(value_equal(self, o)))
                } else {
                    illegal_exec("==", self)
                }
            },
            CalculateMark::NotEqual => {
                if comparable_exec(self) {
                    Ok(Value::Boolean(!value_equal(self, o)))
                } else {
                    illegal_exec("!=", self)
                }
            },
            CalculateMark::Large => match (self, o) {
                (Value::Number(a), Value::Number(b)) => Ok(Value::Boolean(*a > *b)),
                _ => illegal_exec(">", self),
            },
            CalculateMark::Small => match (self, o) {
                (Value::Number(a), Value::Number(b)) => Ok(Value::Boolean(*a < *b)),
                _ => illegal_exec("<", self),
            },
            CalculateMark::LargeOrEqual => match (self, o) {
                (Value::Number(a), Value::Number(b)) => Ok(Value::Boolean(*a >= *b)),
                _ => illegal_exec(">=", self),
            },
            CalculateMark::SmallOrEqual => match (self, o) {
                (Value::Number(a), Value::Number(b)) => Ok(Value::Boolean(*a <= *b)),
                _ => illegal_exec("<=", self),
            },
            CalculateMark::And => match (self, o) {
                (Value::Boolean(a), Value::Boolean(b)) => Ok(Value::Boolean(*a && *b)),
                _ => illegal_exec("&&", self),
            },
            CalculateMark::Or => match (self, o) {
                (Value::Boolean(a), Value::Boolean(b)) => Ok(Value::Boolean(*a || *b)),
                _ => illegal_exec("||", self),
            },
            CalculateMark::NoOp => illegal_exec("None", o),
        }
    }
}

fn copy_string_exec(s: &String) -> (r: String)
    ensures
        r@ == s@,
{
    crate::text::copy_string(s)
}

// ---------------------------------------------------------------------------
// Indexing
// ---------------------------------------------------------------------------

pub open spec fn index_not_found(index: SpecValue, value: SpecValue) -> Result<
    SpecValue,
    SpecRuntimeError,
> {
    Err(SpecRuntimeError::IndexNotFound { index: kind_name(index), value: kind_name(value) })
}

pub open spec fn illegal_index(index: SpecValue, value: SpecValue) -> Result<
    SpecValue,
    SpecRuntimeError,
> {
    Err(SpecRuntimeError::IllegalIndexType { index_type: kind_name(index), value_type: kind_name(value) })
}

/// `value[index]`: a character of a string or an item of a list by position
/// (from zero; a negative or too large position is not found), an entry of a
/// dictionary by key, or one of the two items of a tuple.
pub open spec fn index_spec(value: SpecValue, index: SpecValue) -> Result<SpecValue, SpecRuntimeError> {
    match value {
        SpecValue::String(s) => match index {
            SpecValue::Number(n) => if 0 <= n < s.len() {
                Ok(SpecValue::String(seq![s[n as int]]))
            } else {
                index_not_found(index, value)
            },
            _ => illegal_index(index, value),
        },
        SpecValue::List(xs) => match index {
            SpecValue::Number(n) => if 0 <= n < xs.len() {
                Ok(xs[n as int])
            } else {
                index_not_found(index, value)
            },
            _ => illegal_index(index, value),
        },
        SpecValue::Dict(d) => match index {
            SpecValue::String(k) => match dict_lookup(d, k) {
                Some(v) => Ok(v),
                None => Err(SpecRuntimeError::IndexNotFound { index: k, value: kind_name(value) }),
            },
            _ => illegal_index(index, value),
        },
        SpecValue::Tuple(a, b) => match index {
            SpecValue::Number(n) => if n == 0 {
                Ok(*a)
            } else if n == 1 {
                Ok(*b)
            } else {
                index_not_found(index, value)
            },
            _ => illegal_index(index, value),
        },
        _ => illegal_index(index, value),
    }
}

fn index_not_found_exec(index: &Value, value: &Value) -> (r: Result<Value, RuntimeError>)
    ensures
        result_view(r) == index_not_found(index@, value@),
{
    Err(RuntimeError::IndexNotFound { index: index.value_name(), value: value.value_name() })
}

fn illegal_index_exec(index: &Value, value: &Value) -> (r: Result<Value, RuntimeError>)
    ensures
        result_view(r) == illegal_index(index@, value@),
{
    Err(RuntimeError::IllegalIndexType { index_type: index.value_name(), value_type: value.value_name() })
}

/// `value[index]` on a value that holds no references.
pub fn index_value(value: &Value, index: &Value) -> (r: Result<Value, RuntimeError>)
    ensures
        result_view(r) == index_spec(value@, index@),
{
    match value {
        Value::String(s) => match index {
            Value::Number(n) => {
                let cs = crate::text::chars_of(s.as_str());
                if *n >= 0 && (*n as u64) < (cs.len() as u64) {
                    let c = cs[*n as usize];
                    Ok(Value::String(string_of_char(c)))
                } else {
                    index_not_found_exec(index, value)
                }
            },
            _ => illegal_index_exec(index, value),
        },
        Value::List(xs) => match index {
            Value::Number(n) => {
                if *n >= 0 && (*n as u64) < (xs.len() as u64) {
                    proof {
                        lemma_values_view(xs@);
                    }
                    Ok(copy_value(&xs[*n as usize]))
                } else {
                    proof {
                        lemma_values_view(xs@);
                    }
                    index_not_found_exec(index, value)
                }
            },
            _ => illegal_index_exec(index, value),
        },
        Value::Dict(d) => match index {
            Value::String(k) => match find_key(d, k.as_str()) {
                Some(i) => {
                    proof {
                        lemma_dict_lookup_at(d@, k@, i as int);
                        lemma_dict_view(d@);
                    }
                    Ok(copy_value(&d[i].1))
                },
                None => {
                    proof {
                        lemma_dict_lookup_none(d@, k@);
                    }
                    Err(RuntimeError::IndexNotFound { index: copy_string_exec(k), value: value.value_name() })
                },
            },
            _ => illegal_index_exec(index, value),
        },
        Value::Tuple((a, b)) => match index {
            Value::Number(n) => {
                if *n == 0 {
                    Ok(copy_value(a))
                } else if *n == 1 {
                    Ok(copy_value(b))
                } else {
                    index_not_found_exec(index, value)
                }
            },
            _ => illegal_index_exec(index, value),
        },
        _ => illegal_index_exec(index, value),
    }
}

// ---------------------------------------------------------------------------
// HTML
// ---------------------------------------------------------------------------

/// One attribute as HTML: ` k="text"` for strings and numbers, ` k` for
/// `true`, nothing for other values.
pub open spec fn attr_html(k: Seq<char>, v: SpecValue) -> Seq<char> {
    match v {
        SpecValue::String(s) => " "@ + k + "=\""@ + s + "\""@,
        SpecValue::Boolean(b) => if b {
            " "@ + k
        } else {
            Seq::empty()
        },
        SpecValue::Number(n) => " "@ + k + "=\""@ + int_numeral(n as int) + "\""@,
        _ => Seq::empty(),
    }
}

pub open spec fn attrs_html(s: Seq<(Seq<char>, SpecValue)>) -> Seq<char>
    decreases s.len(),
{
    if s.len() == 0 {
        Seq::empty()
    } else {
        attrs_html(s.drop_last()) + attr_html(s.last().0, s.last().1)
    }
}

/// An element as HTML: `<name attrs>content</name>`, attributes in order.
pub open spec fn element_html(e: SpecElement) -> Seq<char>
    decreases e,
{
    "<"@ + e.name + attrs_html(e.attributes) + ">"@ + contents_html(e.content) + "</"@ + e.name
        + ">"@
}

pub open spec fn contents_html(s: Seq<SpecContent>) -> Seq<char>
    decreases s,
{
    if s.len() == 0 {
        Seq::empty()
    } else {
        contents_html(s.drop_last()) + match s.last() {
            SpecContent::Children(e) => element_html(e),
            SpecContent::Content(c) => c,
        }
    }
}

fn push_attr_html(out: &mut String, k: &String, v: &Value)
    ensures
        final(out)@ == old(out)@ + attr_html(k@, v@),
{
    match v {
        Value::String(s) => {
            push_str(out, " ");
            append(out, k);
            push_str(out, "=\"");
            append(out, s);
            push_str(out, "\"");
        },
        Value::Boolean(b) => {
            if *b {
                push_str(out, " ");
                append(out, k);
            }
        },
        Value::Number(n) => {
            push_str(out, " ");
            append(out, k);
            push_str(out, "=\"");
            let t = i64_to_string(*n);
            append(out, &t);
            push_str(out, "\"");
        },
        _ => {},
    }
    assert(final(out)@ =~= old(out)@ + attr_html(k@, v@));
}

impl Element {
    /// The element written as HTML.
    pub fn to_html(&self) -> (r: String)
        ensures
            r@ == element_html(self@),
        decreases self,
    {
        let mut out = String::new();
        push_str(&mut out, "<");
        append(&mut out, &self.name);
        let ghost attrs = dict_view(self.attributes@);
        proof {
            lemma_dict_view(self.attributes@);
        }
        let mut i: usize = 0;
        while i < self.attributes.len()
            invariant
                i <= self.attributes@.len(),
                attrs == dict_view(self.attributes@),
                attrs.len() == self.attributes@.len(),
                forall|j: int|
                    0 <= j < self.attributes@.len() ==> #[trigger] attrs[j] == (
                        self.attributes@[j].0@,
                        value_view(self.attributes@[j].1),
                    ),
                out@ == "<"@ + self.name@ + attrs_html(attrs.take(i as int)),
            decreases self.attributes@.len() - i,
        {
            push_attr_html(&mut out, &self.attributes[i].0, &self.attributes[i].1);
            i = i + 1;
            assert(attrs.take(i as int).drop_last() =~= attrs.take(i - 1));
        }
        assert(attrs.take(i as int) =~= attrs);
        push_str(&mut out, ">");
        let ghost cs = contents_view(self.content@);
        proof {
            lemma_contents_view(self.content@);
        }
        let ghost head = out@;
        let mut j: usize = 0;
        while j < self.content.len()
            invariant
                j <= self.content@.len(),
                cs == contents_view(self.content@),
                cs.len() == self.content@.len(),
                forall|m: int|
                    0 <= m < self.content@.len() ==> #[trigger] cs[m]
                        == crate::value::content_view(self.content@[m]),
                out@ == head + contents_html(cs.take(j as int)),
            decreases self.content@.len() - j,
        {
            assert(decreases_to!(self => self.content@[j as int]));
            match &self.content[j] {
                ElementContentType::Children(e) => {
                    let h = e.to_html();
                    append(&mut out, &h);
                },
                ElementContentType::Content(c) => {
                    append(&mut out, c);
                },
            }
            j = j + 1;
            assert(cs.take(j as int).drop_last() =~= cs.take(j - 1));
            assert(out@ =~= head + contents_html(cs.take(j as int)));
        }
        assert(cs.take(j as int) =~= cs);
        push_str(&mut out, "</");
        append(&mut out, &self.name);
        push_str(&mut out, ">");
        assert(out@ =~= element_html(self@));
        out
    }
}

// ---------------------------------------------------------------------------
// Element content from a value
// ---------------------------------------------------------------------------

/// The content that a value contributes to an element: text for scalars,
/// a child for an element, the content of each item for a list.
pub open spec fn value_content(v: SpecValue) -> Seq<SpecContent>
    decreases v,
{
    match v {
        SpecValue::Element(e) => seq![SpecContent::Children(e)],
        SpecValue::List(xs) => list_content(xs),
        _ => seq![SpecContent::Content(value_text(v))],
    }
}

pub open spec fn list_content(xs: Seq<SpecValue>) -> Seq<SpecContent>
    decreases xs,
{
    if xs.len() == 0 {
        Seq::empty()
    } else {
        list_content(xs.drop_last()) + value_content(xs.last())
    }
}

/// Appends the content that a value contributes to an element.
pub fn push_value_content(out: &mut Vec<ElementContentType>, v: &Value)
    ensures
        contents_view(final(out)@) == contents_view(old(out)@) + value_content(v@),
    decreases v,
{
    match v {
        Value::Element(e) => {
            let c = ElementContentType::Children(crate::value::copy_element(e));
            proof {
                crate::value::lemma_contents_view_push(out@, c);
            }
            out.push(c);
            assert(contents_view(out@) =~= contents_view(old(out)@) + value_content(v@));
        },
        Value::List(xs) => push_list_content(out, xs),
        _ => {
            let c = ElementContentType::Content(v.to_string());
            proof {
                crate::value::lemma_contents_view_push(out@, c);
            }
            out.push(c);
            assert(contents_view(out@) =~= contents_view(old(out)@) + value_content(v@));
        },
    }
}

fn push_list_content(out: &mut Vec<ElementContentType>, xs: &Vec<Value>)
    ensures
        contents_view(final(out)@) == contents_view(old(out)@) + list_content(values_view(xs@)),
    decreases xs,
{
    proof {
        lemma_values_view(xs@);
    }
    let ghost xv = values_view(xs@);
    let ghost start = contents_view(out@);
    let mut i: usize = 0;
    while i < xs.len()
        invariant
            i <= xs@.len(),
            xv == values_view(xs@),
            xv.len() == xs@.len(),
            forall|m: int| 0 <= m < xs@.len() ==> #[trigger] xv[m] == value_view(xs@[m]),
            contents_view(out@) == start + list_content(xv.take(i as int)),
        decreases xs@.len() - i,
    {
        assert(decreases_to!(xs => xs@[i as int]));
        push_value_content(out, &xs[i]);
        i = i + 1;
        assert(xv.take(i as int).drop_last() =~= xv.take(i - 1));
        assert(contents_view(out@) =~= start + list_content(xv.take(i as int)));
    }
    assert(xv.take(i as int) =~= xv);
}

} // verus!
