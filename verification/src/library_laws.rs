//! What the built-in functions compute, and how values are written as
//! text, stated over their inputs and results.
use vstd::prelude::*;

use crate::error::SpecRuntimeError;
use crate::semantics::{
    builtin_pure, concat_texts, extreme, field_of, get_ref, join_texts, repeat_text, set_ref,
    utf8_len, SpecRuntime,
};
use crate::text::{int_numeral};
use crate::value::{kind_name, truthy, value_text, BuiltinFunction, SpecContent, SpecElement, SpecValue};

verus! {

pub open spec fn text(s: Seq<char>) -> SpecValue {
    SpecValue::String(s)
}

pub open spec fn ok(v: SpecValue) -> Result<SpecValue, SpecRuntimeError> {
    Ok(v)
}

/// How values are written: a string as itself, a number in decimal, the
/// booleans as `true` and `false`, `none` as `none`.
pub proof fn law_value_text(s: Seq<char>, a: i64, b: bool)
    ensures
        value_text(text(s)) == s,
        value_text(SpecValue::Number(a)) == int_numeral(a as int),
        value_text(SpecValue::Boolean(b)) == (if b { "true"@ } else { "false"@ }),
        value_text(SpecValue::Null) == "none"@,
{
}

/// The names of the types, as `type` gives them.
pub proof fn law_type_names(v: SpecValue)
    ensures
        v is String ==> kind_name(v) == "string"@,
        v is Number ==> kind_name(v) == "number"@,
        v is Boolean ==> kind_name(v) == "boolean"@,
        v is List ==> kind_name(v) == "list"@,
        v is Dict ==> kind_name(v) == "dict"@,
        v is Null ==> kind_name(v) == "none"@,
{
}

/// `type(v)` gives the name of `v`'s type and changes nothing.
pub proof fn law_type_builtin(rt: SpecRuntime, v: SpecValue)
    ensures
        builtin_pure(rt, BuiltinFunction::TypeName, seq![v]) == (rt, ok(text(kind_name(v)))),
{
}

/// What `print` writes: the texts of its arguments in order, separated by
/// `, `; `println` writes the same followed by a line break. Neither
/// changes anything else, and both give `none`.
pub proof fn law_print(rt: SpecRuntime, vs: Seq<SpecValue>, v: SpecValue)
    ensures
        join_texts(Seq::empty()) == Seq::<char>::empty(),
        join_texts(seq![v]) == value_text(v),
        vs.len() > 0 ==> join_texts(vs.push(v)) == join_texts(vs) + ", "@ + value_text(v),
        builtin_pure(rt, BuiltinFunction::Print, vs) == (
            SpecRuntime { output: rt.output.push(join_texts(vs)), ..rt },
            ok(SpecValue::Null),
        ),
        builtin_pure(rt, BuiltinFunction::Println, vs) == (
            SpecRuntime { output: rt.output.push(join_texts(vs) + "\n"@), ..rt },
            ok(SpecValue::Null),
        ),
{
    assert(vs.push(v).drop_last() =~= vs);
}

/// `string::join(s, ...)` writes `s` followed by the texts of the other
/// arguments with nothing between them.
pub proof fn law_string_join(rt: SpecRuntime, s: Seq<char>, vs: Seq<SpecValue>, v: SpecValue)
    requires
        rt.data.dom().finite(),
    ensures
        concat_texts(Seq::empty()) == Seq::<char>::empty(),
        concat_texts(vs.push(v)) == concat_texts(vs) + value_text(v),
        builtin_pure(rt, BuiltinFunction::StringJoin, seq![text(s)] + vs) == (
            rt,
            ok(text(s + concat_texts(vs))),
        ),
{
    assert(vs.push(v).drop_last() =~= vs);
    assert((seq![text(s)] + vs).drop_first() =~= vs);
}

/// A character takes one to four bytes in UTF-8, one exactly when it is
/// ASCII; the byte length of joined texts is the sum of theirs.
pub proof fn law_utf8_len(s: Seq<char>, t: Seq<char>, c: char)
    ensures
        1 <= utf8_len(seq![c]) <= 4,
        utf8_len(seq![c]) == 1 <==> (c as u32) < 0x80,
        utf8_len(s + t) == utf8_len(s) + utf8_len(t),
        utf8_len(Seq::empty()) == 0,
    decreases t.len(),
{
    assert(seq![c].drop_last() =~= Seq::<char>::empty());
    assert(seq![c].last() == c);
    assert(utf8_len(Seq::<char>::empty()) == 0);
    assert(utf8_len(seq![c]) == utf8_len(seq![c].drop_last()) + crate::semantics::utf8_width(c));
    if t.len() > 0 {
        law_utf8_len(s, t.drop_last(), c);
        assert((s + t).drop_last() =~= s + t.drop_last());
        assert((s + t).last() == t.last());
    } else {
        assert(s + t =~= s);
    }
}

/// `string::len(s)` is the number of bytes of `s` in UTF-8: its number of
/// characters when they are all ASCII.
pub proof fn law_string_len(rt: SpecRuntime, s: Seq<char>)
    requires
        rt.data.dom().finite(),
    ensures
        builtin_pure(rt, BuiltinFunction::StringLen, seq![text(s)]) == (
            rt,
            if utf8_len(s) <= i64::MAX {
                ok(SpecValue::Number(utf8_len(s) as i64))
            } else {
                Err(SpecRuntimeError::NumberOverflow)
            },
        ),
        (forall|i: int| 0 <= i < s.len() ==> (#[trigger] s[i] as u32) < 0x80) ==> utf8_len(s)
            == s.len(),
    decreases s.len(),
{
    if s.len() > 0 && (forall|i: int| 0 <= i < s.len() ==> (#[trigger] s[i] as u32) < 0x80) {
        assert forall|i: int| 0 <= i < s.drop_last().len() implies (#[trigger] s.drop_last()[i] as u32) < 0x80 by {
            assert(s.drop_last()[i] == s[i]);
        }
        law_string_len(rt, s.drop_last());
        assert((s[s.len() - 1] as u32) < 0x80);
    }
}

/// `s` written `k` times has `k` times the length of `s`, and each further
/// copy is added at the end.
pub proof fn law_repeat_text(s: Seq<char>, k: nat)
    ensures
        repeat_text(s, 0) == Seq::<char>::empty(),
        repeat_text(s, k + 1) == repeat_text(s, k) + s,
        repeat_text(s, k).len() == s.len() * k,
    decreases k,
{
    if k > 0 {
        law_repeat_text(s, (k - 1) as nat);
        assert(s.len() * k == s.len() * (k - 1) + s.len()) by (nonlinear_arith)
            requires
                k > 0,
        ;
    }
}

/// `string::repeat(s, k)` writes `s` `k` times, no times for a negative
/// count; `string::is_empty(s)` tells whether `s` has no character.
pub proof fn law_string_repeat_is_empty(rt: SpecRuntime, s: Seq<char>, k: i64)
    requires
        rt.data.dom().finite(),
    ensures
        builtin_pure(rt, BuiltinFunction::StringRepeat, seq![text(s), SpecValue::Number(k)]) == (
            rt,
            ok(text(repeat_text(s, if k < 0 { 0 } else { k as nat }))),
        ),
        k <= 0 ==> builtin_pure(rt, BuiltinFunction::StringRepeat, seq![text(s), SpecValue::Number(k)])
            == (rt, ok(text(Seq::empty()))),
        builtin_pure(rt, BuiltinFunction::StringIsEmpty, seq![text(s)]) == (
            rt,
            ok(SpecValue::Boolean(s.len() == 0)),
        ),
{
    law_repeat_text(s, 0);
}

/// `number::abs(a)` is `a` without its sign, and fails only for the one
/// number whose size does not fit.
pub proof fn law_number_abs(rt: SpecRuntime, a: i64)
    requires
        rt.data.dom().finite(),
    ensures
        a != i64::MIN ==> (builtin_pure(rt, BuiltinFunction::NumberAbs, seq![SpecValue::Number(a)])
            matches (_, Ok(SpecValue::Number(r))) && r >= 0 && (r == a || r == -a)),
        a == i64::MIN ==> builtin_pure(rt, BuiltinFunction::NumberAbs, seq![SpecValue::Number(a)]).1
            == Err::<SpecValue, SpecRuntimeError>(SpecRuntimeError::NumberOverflow),
{
}

/// The largest of the numbers among the values is at least each of them
/// and is one of them, when there is one; the smallest likewise.
pub proof fn law_extreme(vs: Seq<SpecValue>)
    ensures
        forall|i: int| 0 <= i < vs.len() && (#[trigger] vs[i]) is Number ==> vs[i]->Number_0 <= extreme(vs, true)
            && extreme(vs, false) <= vs[i]->Number_0,
        (exists|i: int| 0 <= i < vs.len() && (#[trigger] vs[i]) is Number) ==> (exists|i: int|
            0 <= i < vs.len() && #[trigger] vs[i] == SpecValue::Number(extreme(vs, true))) && (exists|
            i: int|
            0 <= i < vs.len() && #[trigger] vs[i] == SpecValue::Number(extreme(vs, false))),
        !(exists|i: int| 0 <= i < vs.len() && (#[trigger] vs[i]) is Number) ==> extreme(vs, true)
            == i64::MIN && extreme(vs, false) == i64::MAX,
    decreases vs.len(),
{
    if vs.len() > 0 {
        let init = vs.drop_last();
        law_extreme(init);
        assert forall|i: int| 0 <= i < vs.len() && (#[trigger] vs[i]) is Number implies vs[i]->Number_0 <= extreme(vs, true)
            && extreme(vs, false) <= vs[i]->Number_0 by {
            if i < vs.len() - 1 {
                assert(vs[i] == init[i]);
            }
        }
        let l = vs.len() - 1;
        assert(vs[l] == vs.last());
        if !(exists|i: int| 0 <= i < vs.len() && (#[trigger] vs[i]) is Number) {
            assert(!(vs[l] is Number));
            assert forall|i: int| 0 <= i < init.len() implies !((#[trigger] init[i]) is Number) by {
                assert(init[i] == vs[i]);
            }
        } else {
            let init_has = exists|i: int| 0 <= i < init.len() && (#[trigger] init[i]) is Number;
            if init_has {
                let j = choose|j: int| 0 <= j < init.len() && #[trigger] init[j] == SpecValue::Number(extreme(init, true));
                let k = choose|k: int| 0 <= k < init.len() && #[trigger] init[k] == SpecValue::Number(extreme(init, false));
                assert(vs[j] == init[j]);
                assert(vs[k] == init[k]);
                if vs[l] == SpecValue::Number(extreme(vs, true)) {
                } else {
                    assert(vs[j] == SpecValue::Number(extreme(vs, true)));
                }
                if vs[l] == SpecValue::Number(extreme(vs, false)) {
                } else {
                    assert(vs[k] == SpecValue::Number(extreme(vs, false)));
                }
            } else {
                if !(vs.last() is Number) {
                    let i = choose|i: int| 0 <= i < vs.len() && (#[trigger] vs[i]) is Number;
                    assert(i < l);
                    assert(init[i] == vs[i]);
                    assert(false);
                }
                assert(vs[l] == SpecValue::Number(extreme(vs, true)));
                assert(vs[l] == SpecValue::Number(extreme(vs, false)));
            }
        }
    }
}

/// `number::max` and `number::min` give the largest and the smallest of
/// their number arguments.
pub proof fn law_number_max_min(rt: SpecRuntime, vs: Seq<SpecValue>)
    ensures
        builtin_pure(rt, BuiltinFunction::NumberMax, vs) == (rt, ok(SpecValue::Number(extreme(vs, true)))),
        builtin_pure(rt, BuiltinFunction::NumberMin, vs) == (rt, ok(SpecValue::Number(extreme(vs, false)))),
{
    law_extreme(vs);
}

/// `list::insert(r, ...)` on a reference to a list appends the other
/// arguments to that list, in order.
pub proof fn law_list_insert(rt: SpecRuntime, id: u128, xs: Seq<SpecValue>, vs: Seq<SpecValue>)
    requires
        get_ref(rt, id) == ok(SpecValue::List(xs)),
    ensures
        builtin_pure(rt, BuiltinFunction::ListInsert, seq![SpecValue::Reference(id)] + vs).1 == ok(
            SpecValue::Null,
        ),
        get_ref(builtin_pure(rt, BuiltinFunction::ListInsert, seq![SpecValue::Reference(id)] + vs).0, id)
            == ok(SpecValue::List(xs + vs)),
{
    assert((seq![SpecValue::Reference(id)] + vs).drop_first() =~= vs);
}

/// Loop conditions: a number holds when it is not zero, a boolean when it is
/// true, and nothing else holds.
pub proof fn law_truthy(a: i64, b: bool, v: SpecValue)
    ensures
        truthy(SpecValue::Number(a)) == (a != 0),
        truthy(SpecValue::Boolean(b)) == b,
        !(v is Number) && !(v is Boolean) ==> !truthy(v),
{
}

/// The fields of an element value: its name, its attributes as a
/// dictionary, and its content as a list of strings and elements in order.
pub proof fn law_element_fields(e: SpecElement, f: Seq<char>)
    ensures
        field_of(SpecValue::Element(e), "name"@) == ok(text(e.name)),
        field_of(SpecValue::Element(e), "attributes"@) == ok(SpecValue::Dict(e.attributes)),
        field_of(SpecValue::Element(e), "content"@) matches Ok(SpecValue::List(cs)) && cs.len()
            == e.content.len() && forall|i: int|
            0 <= i < cs.len() ==> #[trigger] cs[i] == match e.content[i] {
                SpecContent::Children(c) => SpecValue::Element(c),
                SpecContent::Content(t) => text(t),
            },
{
    reveal_strlit("name");
    reveal_strlit("attributes");
    reveal_strlit("content");
    assert("attributes"@.len() == 10 && "name"@.len() == 4 && "content"@.len() == 7);
    assert("attributes"@ != "name"@);
    assert("content"@ != "name"@ && "content"@ != "attributes"@);
}

} // verus!
