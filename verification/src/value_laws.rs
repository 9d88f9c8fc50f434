//! What the operators, indexing, HTML rendering, `range` and element
//! building mean, stated over their inputs and results.
use vstd::prelude::*;

use crate::ast::CalculateMark;
use crate::error::SpecRuntimeError;
use crate::ops::{attrs_html, calc_spec, contents_html, element_html, index_spec};
use crate::semantics::{
    absorb, bind_module, descend, deref, deref_list, deref_seen, load_from_module, put, range_from,
    range_spec, SpecModuleItem, SpecRuntime,
};
use crate::value::{
    dict_lookup, key_index, kind_name, lemma_key_index, lemma_key_index_first, value_text,
    SpecContent, SpecElement, SpecValue,
};

verus! {

/// The number inside a value.
pub open spec fn num(v: SpecValue) -> int {
    v->Number_0 as int
}

/// Whether `r` is the number `x`.
pub open spec fn is_number(r: Result<SpecValue, SpecRuntimeError>, x: int) -> bool {
    r matches Ok(SpecValue::Number(n)) && n == x
}

/// Whether `r` is the boolean `b`.
pub open spec fn is_bool(r: Result<SpecValue, SpecRuntimeError>, b: bool) -> bool {
    r == Ok::<SpecValue, SpecRuntimeError>(SpecValue::Boolean(b))
}

pub open spec fn n(a: i64) -> SpecValue {
    SpecValue::Number(a)
}

// ---------------------------------------------------------------------------
// Operators
// ---------------------------------------------------------------------------

/// The comparisons of two numbers give the order of the integers: `a > b`
/// is true exactly when `a` is strictly greater, so `a > a` is false;
/// `a > b` and `b < a` agree, and `a >= b` is the negation of `a < b`.
pub proof fn law_number_comparisons(a: i64, b: i64)
    ensures
        is_bool(calc_spec(n(a), n(b), CalculateMark::Large), a > b),
        is_bool(calc_spec(n(a), n(b), CalculateMark::Small), a < b),
        is_bool(calc_spec(n(a), n(b), CalculateMark::LargeOrEqual), a >= b),
        is_bool(calc_spec(n(a), n(b), CalculateMark::SmallOrEqual), a <= b),
        is_bool(calc_spec(n(a), n(b), CalculateMark::Equal), a == b),
        is_bool(calc_spec(n(a), n(b), CalculateMark::NotEqual), a != b),
        calc_spec(n(a), n(b), CalculateMark::Large) == calc_spec(n(b), n(a), CalculateMark::Small),
        calc_spec(n(a), n(b), CalculateMark::LargeOrEqual) == calc_spec(
            n(b),
            n(a),
            CalculateMark::SmallOrEqual,
        ),
        is_bool(calc_spec(n(a), n(a), CalculateMark::Large), false),
        is_bool(calc_spec(n(a), n(a), CalculateMark::Small), false),
        is_bool(calc_spec(n(a), n(a), CalculateMark::LargeOrEqual), true),
        is_bool(calc_spec(n(a), n(a), CalculateMark::Equal), true),
{
}

/// `==` and `!=` on any two values they accept give opposite answers.
pub proof fn law_equal_not_equal(l: SpecValue, r: SpecValue)
    ensures
        calc_spec(l, r, CalculateMark::Equal) matches Ok(SpecValue::Boolean(x)) ==> calc_spec(
            l,
            r,
            CalculateMark::NotEqual,
        ) == Ok::<SpecValue, SpecRuntimeError>(SpecValue::Boolean(!x)),
        calc_spec(l, r, CalculateMark::Equal) is Ok <==> calc_spec(l, r, CalculateMark::NotEqual) is Ok,
{
}

/// Addition, subtraction and multiplication of numbers give the integer
/// result when it fits in 64 bits, and the overflow error otherwise.
pub proof fn law_number_arithmetic(a: i64, b: i64)
    ensures
        i64::MIN <= a + b <= i64::MAX ==> is_number(calc_spec(n(a), n(b), CalculateMark::Plus), a + b),
        !(i64::MIN <= a + b <= i64::MAX) ==> calc_spec(n(a), n(b), CalculateMark::Plus) == Err::<
            SpecValue,
            SpecRuntimeError,
        >(SpecRuntimeError::NumberOverflow),
        i64::MIN <= a - b <= i64::MAX ==> is_number(calc_spec(n(a), n(b), CalculateMark::Minus), a - b),
        !(i64::MIN <= a - b <= i64::MAX) ==> calc_spec(n(a), n(b), CalculateMark::Minus) == Err::<
            SpecValue,
            SpecRuntimeError,
        >(SpecRuntimeError::NumberOverflow),
        i64::MIN <= a * b <= i64::MAX ==> is_number(
            calc_spec(n(a), n(b), CalculateMark::Multiply),
            a * b,
        ),
        !(i64::MIN <= a * b <= i64::MAX) ==> calc_spec(n(a), n(b), CalculateMark::Multiply) == Err::<
            SpecValue,
            SpecRuntimeError,
        >(SpecRuntimeError::NumberOverflow),
{
}

/// Division and remainder of numbers: by zero they fail; otherwise, when
/// both results fit, quotient times divisor plus remainder is the dividend,
/// the remainder is smaller than the divisor in size, and it is zero or has
/// the sign of the dividend (division rounds toward zero). Only
/// `i64::MIN / -1` does not fit.
pub proof fn law_number_division(a: i64, b: i64)
    ensures
        b == 0 ==> calc_spec(n(a), n(b), CalculateMark::Divide) == Err::<SpecValue, SpecRuntimeError>(
            SpecRuntimeError::DivisionByZero,
        ),
        b == 0 ==> calc_spec(n(a), n(b), CalculateMark::Mod) == Err::<SpecValue, SpecRuntimeError>(
            SpecRuntimeError::DivisionByZero,
        ),
        b != 0 && !(a == i64::MIN && b == -1) ==> {
            &&& calc_spec(n(a), n(b), CalculateMark::Divide) matches Ok(SpecValue::Number(q))
            &&& calc_spec(n(a), n(b), CalculateMark::Mod) matches Ok(SpecValue::Number(r))
            &&& {
                let q = num(calc_spec(n(a), n(b), CalculateMark::Divide)->Ok_0);
                let r = num(calc_spec(n(a), n(b), CalculateMark::Mod)->Ok_0);
                &&& q * b + r == a
                &&& (if r < 0 { -r } else { r }) < (if b < 0 { -b } else { b as int })
                &&& (r == 0 || ((r > 0) == (a > 0)))
            }
        },
{
    if b != 0 && !(a == i64::MIN && b == -1) {
        let x: int = if a < 0 { -a } else { a as int };
        let y: int = if b < 0 { -b } else { b as int };
        assert(y > 0);
        assert(x == (x / y) * y + x % y && 0 <= x % y < y) by (nonlinear_arith)
            requires
                y > 0,
                x >= 0,
        ;
        assert(0 <= x / y <= x) by (nonlinear_arith)
            requires
                y > 0,
                x >= 0,
        ;
        let q0 = x / y;
        let r0 = x % y;
        let q: int = crate::ops::trunc_div(a as int, b as int);
        let r: int = crate::ops::trunc_rem(a as int, b as int);
        assert(q == if (a >= 0) == (b > 0) { q0 } else { -q0 });
        assert(r == if a >= 0 { r0 } else { -r0 });
        assert(q * b + r == a) by (nonlinear_arith)
            requires
                x == q0 * y + r0,
                x == (if a < 0 { -a } else { a as int }),
                y == (if b < 0 { -b } else { b as int }),
                q == (if (a >= 0) == (b > 0) { q0 } else { -q0 }),
                r == (if a >= 0 { r0 } else { -r0 }),
                b != 0,
        ;
        assert(i64::MIN <= q <= i64::MAX) by (nonlinear_arith)
            requires
                0 <= q0 <= x,
                x == (if a < 0 { -a } else { a as int }),
                y == (if b < 0 { -b } else { b as int }),
                q == (if (a >= 0) == (b > 0) { q0 } else { -q0 }),
                x == q0 * y + r0,
                0 <= r0 < y,
                !(a == i64::MIN && b == -1),
                b != 0,
                i64::MIN <= a <= i64::MAX,
        {
            if q0 == x && x == 0x8000_0000_0000_0000 {
                assert(y == 1);
            }
        }
    }
}

/// `+` joins two strings, and a string and a number (the number written in
/// decimal) in that order; a number plus a string is refused as operands of
/// different types.
pub proof fn law_string_plus(s: Seq<char>, t: Seq<char>, a: i64)
    ensures
        calc_spec(SpecValue::String(s), SpecValue::String(t), CalculateMark::Plus) == Ok::<
            SpecValue,
            SpecRuntimeError,
        >(SpecValue::String(s + t)),
        calc_spec(SpecValue::String(s), n(a), CalculateMark::Plus) == Ok::<
            SpecValue,
            SpecRuntimeError,
        >(SpecValue::String(s + value_text(n(a)))),
        calc_spec(n(a), SpecValue::String(s), CalculateMark::Plus) == Err::<
            SpecValue,
            SpecRuntimeError,
        >(SpecRuntimeError::CompareDiffType { a: "number"@, b: "string"@ }),
{
}

/// `==` on strings, numbers and booleans is equality of their contents,
/// and `!=` its negation; lists of different lengths are not equal; values
/// of different types are refused.
pub proof fn law_scalar_equality(s: Seq<char>, t: Seq<char>, a: bool, b: bool, xs: Seq<SpecValue>, ys: Seq<SpecValue>)
    ensures
        is_bool(calc_spec(SpecValue::String(s), SpecValue::String(t), CalculateMark::Equal), s == t),
        is_bool(calc_spec(SpecValue::String(s), SpecValue::String(t), CalculateMark::NotEqual), s != t),
        is_bool(calc_spec(SpecValue::Boolean(a), SpecValue::Boolean(b), CalculateMark::Equal), a == b),
        xs.len() != ys.len() ==> is_bool(
            calc_spec(SpecValue::List(xs), SpecValue::List(ys), CalculateMark::Equal),
            false,
        ),
        calc_spec(SpecValue::String(s), SpecValue::Boolean(a), CalculateMark::Equal) is Err,
{
    if xs.len() != ys.len() {
        assert(!crate::ops::values_eq(xs, ys));
    }
}

/// `&&` and `||` on booleans are conjunction and disjunction.
pub proof fn law_boolean_logic(a: bool, b: bool)
    ensures
        is_bool(
            calc_spec(SpecValue::Boolean(a), SpecValue::Boolean(b), CalculateMark::And),
            a && b,
        ),
        is_bool(calc_spec(SpecValue::Boolean(a), SpecValue::Boolean(b), CalculateMark::Or), a || b),
{
}

// ---------------------------------------------------------------------------
// Indexing
// ---------------------------------------------------------------------------

/// A string indexed by a position inside it gives the one-character
/// string of the character at that position, counted from the start (so
/// position 0 is the first character, and text after the string does not
/// change what a position inside it gives); any other number is not found.
pub proof fn law_string_index(s: Seq<char>, t: Seq<char>, i: i64)
    ensures
        0 <= i < s.len() ==> index_spec(SpecValue::String(s), n(i)) == Ok::<
            SpecValue,
            SpecRuntimeError,
        >(SpecValue::String(seq![s[i as int]])),
        0 <= i < s.len() ==> index_spec(SpecValue::String(s + t), n(i)) == index_spec(
            SpecValue::String(s),
            n(i),
        ),
        s.len() > 0 ==> index_spec(SpecValue::String(s), n(0)) == Ok::<SpecValue, SpecRuntimeError>(
            SpecValue::String(s.take(1)),
        ),
        !(0 <= i < s.len()) ==> index_spec(SpecValue::String(s), n(i)) is Err,
{
    if 0 <= i < s.len() {
        assert((s + t)[i as int] == s[i as int]);
    }
    if s.len() > 0 {
        assert(s.take(1) =~= seq![s[0]]);
    }
}

/// A list indexed by a position inside it gives the item at that position
/// from the start, whatever follows the list; a tuple gives its first item
/// for 0 and its second for 1; other positions are not found.
pub proof fn law_list_and_tuple_index(xs: Seq<SpecValue>, ys: Seq<SpecValue>, a: SpecValue, b: SpecValue, i: i64)
    ensures
        0 <= i < xs.len() ==> index_spec(SpecValue::List(xs), n(i)) == Ok::<
            SpecValue,
            SpecRuntimeError,
        >(xs[i as int]),
        0 <= i < xs.len() ==> index_spec(SpecValue::List(xs + ys), n(i)) == index_spec(
            SpecValue::List(xs),
            n(i),
        ),
        !(0 <= i < xs.len()) ==> index_spec(SpecValue::List(xs), n(i)) is Err,
        index_spec(SpecValue::Tuple(Box::new(a), Box::new(b)), n(0)) == Ok::<
            SpecValue,
            SpecRuntimeError,
        >(a),
        index_spec(SpecValue::Tuple(Box::new(a), Box::new(b)), n(1)) == Ok::<
            SpecValue,
            SpecRuntimeError,
        >(b),
        i != 0 && i != 1 ==> index_spec(SpecValue::Tuple(Box::new(a), Box::new(b)), n(i)) is Err,
{
    if 0 <= i < xs.len() {
        assert((xs + ys)[i as int] == xs[i as int]);
    }
}

/// A key just bound is found with the value bound to it.
pub proof fn lemma_lookup_after_put<V>(d: Seq<(Seq<char>, V)>, k: Seq<char>, v: V)
    ensures
        dict_lookup(put(d, k, v), k) == Some(v),
{
    lemma_key_index(d, k);
    let d2 = put(d, k, v);
    match key_index(d, k) {
        Some(i) => {
            assert forall|j: int| 0 <= j < i implies d2[j].0 != k by {
                assert(d2[j] == d[j]);
            }
            lemma_key_index_first(d2, k, i);
        },
        None => {
            assert forall|j: int| 0 <= j < d.len() implies d2[j].0 != k by {
                assert(d2[j] == d[j]);
            }
            lemma_key_index_first(d2, k, d.len() as int);
        },
    }
}

/// A dictionary indexed by a key that was just bound gives the value bound
/// to it.
pub proof fn law_dict_index_after_put(d: Seq<(Seq<char>, SpecValue)>, k: Seq<char>, v: SpecValue)
    ensures
        index_spec(SpecValue::Dict(put(d, k, v)), SpecValue::String(k)) == Ok::<
            SpecValue,
            SpecRuntimeError,
        >(v),
{
    lemma_lookup_after_put(d, k, v);
}

/// A module just bound under a name is found under that name, and an entry
/// of it under the name followed by the entry's key.
pub proof fn law_module_after_bind(
    rt: SpecRuntime,
    name: Seq<char>,
    entries: Seq<(Seq<char>, SpecModuleItem)>,
    k: Seq<char>,
)
    ensures
        load_from_module(bind_module(rt, name, entries).modules, seq![name]) == Ok::<
            SpecModuleItem,
            SpecRuntimeError,
        >(SpecModuleItem::SubModule(entries)),
        dict_lookup(entries, k) matches Some(item) ==> load_from_module(
            bind_module(rt, name, entries).modules,
            seq![name, k],
        ) == Ok::<SpecModuleItem, SpecRuntimeError>(item),
{
    lemma_lookup_after_put(rt.modules, name, SpecModuleItem::SubModule(entries));
    if let Some(item) = dict_lookup(entries, k) {
        let ns = seq![name, k];
        assert(descend(item, ns, 2) == Ok::<SpecModuleItem, SpecRuntimeError>(item));
        assert(descend(SpecModuleItem::SubModule(entries), ns, 1) == descend(item, ns, 2));
    }
}

// ---------------------------------------------------------------------------
// HTML
// ---------------------------------------------------------------------------

/// An attribute adds to an element's HTML, after the attributes before it:
/// nothing when its value is `false`; ` name` when it is `true`;
/// ` name="text"` for a string.
pub proof fn law_attribute_html(attrs: Seq<(Seq<char>, SpecValue)>, k: Seq<char>, s: Seq<char>)
    ensures
        attrs_html(attrs.push((k, SpecValue::Boolean(false)))) == attrs_html(attrs),
        attrs_html(attrs.push((k, SpecValue::Boolean(true)))) == attrs_html(attrs) + " "@ + k,
        attrs_html(attrs.push((k, SpecValue::String(s)))) == attrs_html(attrs) + " "@ + k + "=\""@
            + s + "\""@,
        forall|a: i64| #[trigger] attrs_html(attrs.push((k, SpecValue::Number(a)))) == attrs_html(attrs)
            + " "@ + k + "=\""@ + value_text(SpecValue::Number(a)) + "\""@,
        attrs_html(attrs.push((k, SpecValue::Null))) == attrs_html(attrs),
{
    assert forall|a: i64| #[trigger] attrs_html(attrs.push((k, SpecValue::Number(a)))) == attrs_html(attrs)
        + " "@ + k + "=\""@ + value_text(SpecValue::Number(a)) + "\""@ by {
        assert(attrs.push((k, SpecValue::Number(a))).drop_last() =~= attrs);
    }
    assert(attrs.push((k, SpecValue::Null)).drop_last() =~= attrs);
    assert(attrs.push((k, SpecValue::Boolean(false))).drop_last() =~= attrs);
    assert(attrs.push((k, SpecValue::Boolean(true))).drop_last() =~= attrs);
    assert(attrs.push((k, SpecValue::String(s))).drop_last() =~= attrs);
    assert(attrs_html(attrs) + Seq::<char>::empty() =~= attrs_html(attrs));
}

/// An element whose only attribute is `false` renders as the same element
/// without attributes: `<name>content</name>`.
pub proof fn law_false_attribute_element(name: Seq<char>, k: Seq<char>, content: Seq<SpecContent>)
    ensures
        element_html(
            SpecElement { name, attributes: seq![(k, SpecValue::Boolean(false))], content },
        ) == "<"@ + name + ">"@ + contents_html(content) + "</"@ + name + ">"@,
{
    let e = SpecElement { name, attributes: seq![(k, SpecValue::Boolean(false))], content };
    law_attribute_html(Seq::empty(), k, Seq::empty());
    assert(Seq::<(Seq<char>, SpecValue)>::empty().push((k, SpecValue::Boolean(false))) =~= seq![
        (k, SpecValue::Boolean(false)),
    ]);
    assert(attrs_html(Seq::<(Seq<char>, SpecValue)>::empty()) =~= Seq::<char>::empty());
    assert("<"@ + name + Seq::<char>::empty() =~= "<"@ + name);
}

/// An element's HTML: its name in an opening tag with its attributes, its
/// content, and the closing tag.
pub proof fn law_element_html(e: SpecElement)
    ensures
        element_html(e) == "<"@ + e.name + attrs_html(e.attributes) + ">"@ + contents_html(e.content)
            + "</"@ + e.name + ">"@,
{
}

/// The content that an expression's list value adds to an element is the
/// content of each item in order.
pub proof fn law_list_content(xs: Seq<SpecValue>, v: SpecValue)
    ensures
        crate::ops::value_content(SpecValue::List(xs.push(v))) == crate::ops::value_content(
            SpecValue::List(xs),
        ) + crate::ops::value_content(v),
        crate::ops::value_content(SpecValue::List(Seq::empty())) == Seq::<SpecContent>::empty(),
        is_scalar(v) ==> crate::ops::value_content(v) == seq![SpecContent::Content(value_text(v))],
{
    assert(xs.push(v).drop_last() =~= xs);
}

/// Content adds to an element's HTML after the content before it: text as
/// it is, a child element as its own HTML.
pub proof fn law_content_html(content: Seq<SpecContent>, t: Seq<char>, e: SpecElement)
    ensures
        contents_html(content.push(SpecContent::Content(t))) == contents_html(content) + t,
        contents_html(content.push(SpecContent::Children(e))) == contents_html(content)
            + element_html(e),
{
    assert(content.push(SpecContent::Content(t)).drop_last() =~= content);
    assert(content.push(SpecContent::Children(e)).drop_last() =~= content);
}

// ---------------------------------------------------------------------------
// range
// ---------------------------------------------------------------------------

/// `range_from(x, e, step)` counts from `x` in steps of `step` while below
/// `e`.
proof fn lemma_range_from(x: int, e: int, step: int)
    requires
        i64::MIN <= x,
        e <= i64::MAX,
        step > 0,
    ensures
        ({
            let xs = range_from(x, e, step);
            &&& x >= e ==> xs.len() == 0
            &&& x < e ==> xs.len() > 0 && xs[0] is Number && num(xs[0]) == x
            &&& forall|i: int| 0 <= i < xs.len() ==> (#[trigger] xs[i]) is Number && num(xs[i]) < e
            &&& forall|i: int|
                0 <= i < xs.len() - 1 ==> num(#[trigger] xs[i + 1]) == num(xs[i]) + step
            &&& xs.len() > 0 ==> num(xs[xs.len() - 1]) + step >= e
        }),
    decreases (if x < e { e - x } else { 0 }),
{
    if x < e {
        lemma_range_from(x + step, e, step);
        let rest = range_from(x + step, e, step);
        let xs = range_from(x, e, step);
        assert(xs == seq![SpecValue::Number(x as i64)] + rest);
        assert forall|i: int| 0 <= i < xs.len() implies (#[trigger] xs[i]) is Number && num(xs[i]) < e by {
            if i > 0 {
                assert(xs[i] == rest[i - 1]);
            }
        }
        assert forall|i: int| 0 <= i < xs.len() - 1 implies num(#[trigger] xs[i + 1]) == num(xs[i]) + step by {
            assert(xs[i + 1] == rest[i]);
            if i > 0 {
                assert(xs[i] == rest[i - 1]);
                assert(num(rest[(i - 1) + 1]) == num(rest[i - 1]) + step);
            } else {
                assert(rest.len() > 0);
                assert(x + step < e);
                assert(num(rest[0]) == x + step);
                assert(num(xs[0]) == x);
            }
        }
        if rest.len() > 0 {
            assert(xs[xs.len() - 1] == rest[rest.len() - 1]);
        }
    }
}

/// `range(k)` for `k >= 0` is the list 0, 1, ..., k - 1; `range(a, b)` for
/// `0 <= a` counts from `a` up to below `b`, one by one; `range(a, b, step)`
/// with a positive step counts from `a` in steps of `step` while below `b`.
pub proof fn law_range(a: i64, b: i64, step: i64)
    ensures
        a >= 0 ==> (range_spec(seq![n(a)]) matches SpecValue::List(xs) && xs.len() == a
            && forall|i: int| 0 <= i < xs.len() ==> #[trigger] xs[i] == n(i as i64)),
        0 <= a ==> (range_spec(seq![n(a), n(b)]) matches SpecValue::List(xs) && xs.len() == (if b
            > a { b - a } else { 0 }) && forall|i: int|
            0 <= i < xs.len() ==> #[trigger] xs[i] == n((a + i) as i64)),
        step > 0 ==> (range_spec(seq![n(a), n(b), n(step)]) matches SpecValue::List(xs) && (a < b
            ==> xs.len() > 0 && xs[0] == n(a)) && (a >= b ==> xs.len() == 0) && (forall|i: int|
            0 <= i < xs.len() ==> (#[trigger] xs[i]) is Number && num(xs[i]) < b) && (forall|i: int|
            0 <= i < xs.len() - 1 ==> num(#[trigger] xs[i + 1]) == num(xs[i]) + step) && (xs.len()
            > 0 ==> num(xs[xs.len() - 1]) + step >= b)),
{
    if a >= 0 {
        lemma_range_from(0, a as int, 1);
        let xs = range_from(0, a as int, 1);
        lemma_range_counts(xs, 0, a as int);
    }
    if 0 <= a {
        let e: int = if b < 0 { 0 } else { b as int };
        lemma_range_from(a as int, e, 1);
        let xs = range_from(a as int, e, 1);
        lemma_range_counts(xs, a as int, e);
    }
    if step > 0 {
        lemma_range_from(a as int, b as int, step as int);
        let xs = range_from(a as int, b as int, step as int);
        if a < b {
            assert(xs[0] == n(a));
        }
    }
}

/// A list that starts at `x`, rises by one and ends just below `e` holds
/// `x + i` at `i` and has `e - x` items.
proof fn lemma_range_counts(xs: Seq<SpecValue>, x: int, e: int)
    requires
        i64::MIN <= x,
        e <= i64::MAX,
        x >= e ==> xs.len() == 0,
        x < e ==> xs.len() > 0 && xs[0] is Number && num(xs[0]) == x,
        forall|i: int| 0 <= i < xs.len() ==> (#[trigger] xs[i]) is Number && num(xs[i]) < e,
        forall|i: int| 0 <= i < xs.len() - 1 ==> num(#[trigger] xs[i + 1]) == num(xs[i]) + 1,
        xs.len() > 0 ==> num(xs[xs.len() - 1]) + 1 >= e,
    ensures
        xs.len() == (if e > x { e - x } else { 0 }),
        forall|i: int| 0 <= i < xs.len() ==> #[trigger] xs[i] == n((x + i) as i64),
{
    assert forall|i: int| 0 <= i < xs.len() implies num(#[trigger] xs[i]) == x + i by {
        lemma_range_step(xs, x, i);
    }
    if xs.len() > 0 {
        let last = xs.len() - 1;
        assert(num(xs[last]) == x + last);
        assert(num(xs[last]) < e);
    }
    assert forall|i: int| 0 <= i < xs.len() implies #[trigger] xs[i] == n((x + i) as i64) by {
        assert(num(xs[i]) == x + i);
    }
}

proof fn lemma_range_step(xs: Seq<SpecValue>, x: int, i: int)
    requires
        0 <= i < xs.len(),
        xs[0] is Number && num(xs[0]) == x,
        forall|j: int| 0 <= j < xs.len() ==> (#[trigger] xs[j]) is Number,
        forall|j: int| 0 <= j < xs.len() - 1 ==> num(#[trigger] xs[j + 1]) == num(xs[j]) + 1,
    ensures
        num(xs[i]) == x + i,
    decreases i,
{
    if i > 0 {
        lemma_range_step(xs, x, i - 1);
        assert(num(xs[(i - 1) + 1]) == num(xs[i - 1]) + 1);
    }
}

// ---------------------------------------------------------------------------
// Blocks inside elements
// ---------------------------------------------------------------------------

/// What a block inside an element yields is added to the element: a string
/// as one text item after the content so far, a number as its decimal
/// text, an element as a child; a pair of a name and a value sets that
/// attribute; `none` and other values add nothing. Only a pair changes the
/// attributes.
pub proof fn law_block_value_in_element(
    attrs: Seq<(Seq<char>, SpecValue)>,
    content: Seq<SpecContent>,
    s: Seq<char>,
    a: i64,
    e: SpecElement,
    v: SpecValue,
)
    ensures
        absorb(attrs, content, SpecValue::String(s)) == (attrs, content.push(SpecContent::Content(s))),
        absorb(attrs, content, n(a)) == (attrs, content.push(SpecContent::Content(value_text(n(a))))),
        absorb(attrs, content, SpecValue::Element(e)) == (attrs, content.push(
            SpecContent::Children(e),
        )),
        absorb(attrs, content, SpecValue::Tuple(Box::new(SpecValue::String(s)), Box::new(v))) == (
            put(attrs, s, v),
            content,
        ),
        absorb(attrs, content, SpecValue::Null) == (attrs, content),
        absorb(attrs, content, SpecValue::Boolean(true)) == (attrs, content),
{
}

// ---------------------------------------------------------------------------
// References
// ---------------------------------------------------------------------------

/// A string, number, boolean or `none`.
pub open spec fn is_scalar(v: SpecValue) -> bool {
    v is String || v is Number || v is Boolean || v is Null
}

proof fn lemma_deref_scalar_list(rt: SpecRuntime, xs: Seq<SpecValue>, seen: Set<u128>)
    requires
        rt.data.dom().finite(),
        forall|i: int| 0 <= i < xs.len() ==> is_scalar(#[trigger] xs[i]),
    ensures
        deref_list(rt, xs, seen) == Ok::<Seq<SpecValue>, SpecRuntimeError>(xs),
    decreases xs.len(),
{
    if xs.len() > 0 {
        assert forall|i: int| 0 <= i < xs.drop_first().len() implies is_scalar(#[trigger] xs.drop_first()[i]) by {
            assert(xs.drop_first()[i] == xs[i + 1]);
        }
        lemma_deref_scalar_list(rt, xs.drop_first(), seen);
        assert(is_scalar(xs[0]));
        assert(deref_seen(rt, xs[0], seen) == Ok::<SpecValue, SpecRuntimeError>(xs[0]));
        assert(seq![xs[0]] + xs.drop_first() =~= xs);
    } else {
        assert(xs =~= Seq::<SpecValue>::empty());
    }
}

/// Resolving references leaves strings, numbers, booleans, `none` and lists
/// of them as they are; a reference gives the value it refers to when that
/// is one of these, fails for an id that holds nothing, and a reference to
/// itself is a cycle.
pub proof fn law_deref(rt: SpecRuntime, v: SpecValue, xs: Seq<SpecValue>, id: u128)
    requires
        rt.data.dom().finite(),
    ensures
        is_scalar(v) ==> deref(rt, v) == Ok::<SpecValue, SpecRuntimeError>(v),
        (forall|i: int| 0 <= i < xs.len() ==> is_scalar(#[trigger] xs[i])) ==> deref(rt, SpecValue::List(xs))
            == Ok::<SpecValue, SpecRuntimeError>(SpecValue::List(xs)),
        !rt.data.contains_key(id) ==> deref(rt, SpecValue::Reference(id)) == Err::<SpecValue, SpecRuntimeError>(
            SpecRuntimeError::UnknownPointer { pointer: id },
        ),
        rt.data.contains_key(id) && is_scalar(rt.data[id]) ==> deref(rt, SpecValue::Reference(id))
            == Ok::<SpecValue, SpecRuntimeError>(rt.data[id]),
        rt.data.contains_key(id) && rt.data[id] == SpecValue::Reference(id) ==> deref(
            rt,
            SpecValue::Reference(id),
        ) == Err::<SpecValue, SpecRuntimeError>(SpecRuntimeError::CircularReference),
{
    if forall|i: int| 0 <= i < xs.len() ==> is_scalar(#[trigger] xs[i]) {
        lemma_deref_scalar_list(rt, xs, Set::empty());
    }
    if rt.data.contains_key(id) {
        let s1 = Set::<u128>::empty().insert(id);
        assert(s1.contains(id));
        assert(deref_seen(rt, rt.data[id], s1) == if is_scalar(rt.data[id]) {
            Ok::<SpecValue, SpecRuntimeError>(rt.data[id])
        } else {
            deref_seen(rt, rt.data[id], s1)
        });
    }
}

} // verus!
