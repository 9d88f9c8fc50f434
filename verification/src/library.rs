//! The built-in functions and the modules that hold them.
use vstd::prelude::*;

use crate::error::RuntimeError;
use crate::module::{module_entries_view, ModuleGenerator, ModuleItem};
use crate::host::HostFunctions;
use crate::runtime::Runtime;
use crate::semantics::{
    builtin_pure, concat_texts, extreme, join_texts, put, range_from, range_spec, repeat_text,
    text_arg, utf8_len, utf8_width, SpecModuleItem,
};
use crate::text::{append, push_str, split_at_separator, to_lowercase, to_uppercase};
use crate::value::{
    kind_name, value_text, lemma_values_view, lemma_values_view_push, lit, result_view, value_view,
    values_view, BuiltinFunction, FunctionType, SpecFunction, SpecValue, Value,
};

verus! {

broadcast use vstd::string::group_string_axioms;

/// The values as `print` writes them: their texts separated by `, `.
pub fn iterable_to_str(args: &Vec<Value>) -> (r: String)
    ensures
        r@ == join_texts(values_view(args@)),
{
    let ghost av = values_view(args@);
    proof {
        lemma_values_view(args@);
    }
    let mut out = String::new();
    let mut i: usize = 0;
    while i < args.len()
        invariant
            i <= args@.len(),
            av == values_view(args@),
            av.len() == args@.len(),
            forall|m: int| 0 <= m < args@.len() ==> #[trigger] av[m] == value_view(args@[m]),
            out@ == join_texts(av.take(i as int)),
        decreases args@.len() - i,
    {
        let t = args[i].to_string();
        if i > 0 {
            push_str(&mut out, ", ");
        }
        append(&mut out, &t);
        i = i + 1;
        proof {
            assert(av.take(i as int).drop_last() =~= av.take(i - 1));
            if i == 1 {
                assert(out@ =~= value_text(av[0]));
            } else {
                assert(out@ =~= join_texts(av.take(i - 1)) + ", "@ + value_text(av[i - 1]));
            }
        }
    }
    assert(av.take(i as int) =~= av);
    out
}

/// The texts of the values from the second on, one after the other.
fn concat_rest(args: &Vec<Value>) -> (r: String)
    requires
        args@.len() > 0,
    ensures
        r@ == concat_texts(values_view(args@).drop_first()),
{
    let ghost av = values_view(args@).drop_first();
    proof {
        lemma_values_view(args@);
    }
    let mut out = String::new();
    let mut i: usize = 1;
    while i < args.len()
        invariant
            1 <= i <= args@.len(),
            av == values_view(args@).drop_first(),
            av.len() == args@.len() - 1,
            forall|m: int| 0 <= m < av.len() ==> #[trigger] av[m] == value_view(args@[m + 1]),
            out@ == concat_texts(av.take(i - 1)),
        decreases args@.len() - i,
    {
        let t = args[i].to_string();
        append(&mut out, &t);
        i = i + 1;
        proof {
            assert(av.take(i - 1).drop_last() =~= av.take(i - 2));
        }
    }
    assert(av.take(i - 1) =~= av);
    out
}

proof fn lemma_utf8_len_step(s: Seq<char>, i: int)
    requires
        0 <= i < s.len(),
    ensures
        utf8_len(s.take(i + 1)) == utf8_len(s.take(i)) + utf8_width(s[i]),
{
    assert(s.take(i + 1).drop_last() =~= s.take(i));
}

/// The number of bytes of a text in UTF-8, or `None` when it does not fit
/// in 64 bits.
fn utf8_len_exec(s: &String) -> (r: Option<i64>)
    ensures
        match r {
            Some(n) => n as int == utf8_len(s@),
            None => utf8_len(s@) > i64::MAX,
        },
{
    let cs = crate::text::chars_of(s.as_str());
    let mut n: u128 = 0;
    let mut i: usize = 0;
    proof {
        assert(cs@.take(0) =~= Seq::<char>::empty());
    }
    while i < cs.len()
        invariant
            cs@ == s@,
            i <= cs@.len(),
            n == utf8_len(cs@.take(i as int)),
            n <= 4 * i,
        decreases cs@.len() - i,
    {
        proof {
            lemma_utf8_len_step(cs@, i as int);
        }
        let c = cs[i] as u32;
        let w: u128 = if c < 0x80 {
            1
        } else if c < 0x800 {
            2
        } else if c < 0x10000 {
            3
        } else {
            4
        };
        n = n + w;
        i = i + 1;
    }
    assert(cs@.take(i as int) =~= cs@);
    if n > 9223372036854775807u128 {
        None
    } else {
        Some(n as i64)
    }
}

/// `s` written `n` times.
fn repeat_exec(s: &String, n: u64) -> (r: String)
    ensures
        r@ == repeat_text(s@, n as nat),
{
    let mut out = String::new();
    let mut k: u64 = 0;
    while k < n
        invariant
            k <= n,
            out@ == repeat_text(s@, k as nat),
        decreases n - k,
    {
        append(&mut out, s);
        k = k + 1;
    }
    out
}

/// The numbers from `start` up to but not including `end`, `step` apart.
fn range_list(start: i64, end: i64, step: i64) -> (r: Vec<Value>)
    requires
        step > 0,
    ensures
        values_view(r@) == range_from(start as int, end as int, step as int),
{
    let mut out: Vec<Value> = Vec::new();
    let mut x = start;
    proof {
        assert(values_view(out@) =~= Seq::<SpecValue>::empty());
        assert(values_view(out@) + range_from(x as int, end as int, step as int) =~= range_from(
            start as int,
            end as int,
            step as int,
        ));
    }
    while x < end
        invariant
            step > 0,
            values_view(out@) + range_from(x as int, end as int, step as int) == range_from(
                start as int,
                end as int,
                step as int,
            ),
        decreases end - x + step,
    {
        proof {
            lemma_values_view_push(out@, Value::Number(x));
        }
        let ghost before = values_view(out@);
        out.push(Value::Number(x));
        proof {
            assert(range_from(x as int, end as int, step as int) == seq![SpecValue::Number(x)]
                + range_from(x + step, end as int, step as int));
            assert(values_view(out@) + range_from(x + step, end as int, step as int) =~= before
                + (seq![SpecValue::Number(x)] + range_from(x + step, end as int, step as int)));
        }
        match x.checked_add(step) {
            Some(y) => {
                x = y;
            },
            None => {
                proof {
                    assert(range_from(x + step, end as int, step as int) =~= Seq::<
                        SpecValue,
                    >::empty());
                    assert(values_view(out@) + Seq::<SpecValue>::empty() =~= values_view(out@));
                }
                return out;
            },
        }
    }
    assert(values_view(out@) + Seq::<SpecValue>::empty() =~= values_view(out@));
    out
}

/// `range` applied to its arguments.
fn range_exec(args: &Vec<Value>) -> (r: Value)
    ensures
        r@ == range_spec(values_view(args@)),
{
    proof {
        lemma_values_view(args@);
    }
    let n = args.len();
    if n == 1 {
        match &args[0] {
            Value::Number(e) => Value::List(
                range_list(
                    0,
                    if *e < 0 {
                        0
                    } else {
                        *e
                    },
                    1,
                ),
            ),
            _ => Value::Null,
        }
    } else if n == 2 {
        match (&args[0], &args[1]) {
            (Value::Number(s), Value::Number(e)) => Value::List(
                range_list(
                    if *s < 0 {
                        0
                    } else {
                        *s
                    },
                    if *e < 0 {
                        0
                    } else {
                        *e
                    },
                    1,
                ),
            ),
            _ => Value::Null,
        }
    } else if n == 3 {
        match (&args[0], &args[1], &args[2]) {
            (Value::Number(s), Value::Number(e), Value::Number(st)) => if *st <= 0 {
                Value::Null
            } else {
                Value::List(range_list(*s, *e, *st))
            },
            _ => Value::Null,
        }
    } else {
        Value::Null
    }
}

/// The largest, or the smallest, of the numbers among the values.
fn extreme_exec(args: &Vec<Value>, largest: bool) -> (r: i64)
    ensures
        r == extreme(values_view(args@), largest),
{
    let ghost av = values_view(args@);
    proof {
        lemma_values_view(args@);
        assert(av.take(0) =~= Seq::<SpecValue>::empty());
    }
    let mut m: i64 = if largest {
        i64::MIN
    } else {
        i64::MAX
    };
    let mut i: usize = 0;
    while i < args.len()
        invariant
            i <= args@.len(),
            av == values_view(args@),
            av.len() == args@.len(),
            forall|k: int| 0 <= k < args@.len() ==> #[trigger] av[k] == value_view(args@[k]),
            m == extreme(av.take(i as int), largest),
        decreases args@.len() - i,
    {
        proof {
            assert(av.take(i + 1).drop_last() =~= av.take(i as int));
            assert(av.take(i + 1).last() == av[i as int]);
        }
        match &args[i] {
            Value::Number(n) => {
                if (largest && *n > m) || (!largest && *n < m) {
                    m = *n;
                }
            },
            _ => {},
        }
        i = i + 1;
    }
    assert(av.take(i as int) =~= av);
    m
}

fn arity_error_exec(need: i64, provided: usize) -> (r: RuntimeError)
    ensures
        r@ == crate::semantics::arity_error(need as int, provided as int),
{
    RuntimeError::IllegalArgumentsNumber { need, provided: provided as i64 }
}

impl<H: HostFunctions> Runtime<H> {
    /// The text an argument holds, once its references are resolved.
    fn text_arg_exec(&self, v: &Value) -> (r: Result<String, RuntimeError>)
        ensures
            match r {
                Ok(s) => text_arg(self@, v@) == Ok::<Seq<char>, crate::error::SpecRuntimeError>(s@),
                Err(e) => text_arg(self@, v@) == Err::<Seq<char>, crate::error::SpecRuntimeError>(e@),
            },
    {
        match self.deref_value(v) {
            Ok(Value::String(s)) => Ok(s),
            Ok(w) => Err(
                RuntimeError::UnsupportDataType { expect_type: lit("string"), receive_type: w.value_name() },
            ),
            Err(e) => Err(e),
        }
    }

    /// A built-in function other than `execute` applied to its arguments.
    pub fn call_builtin(&mut self, b: BuiltinFunction, args: Vec<Value>) -> (r: Result<Value, RuntimeError>)
        requires
            b != BuiltinFunction::Execute,
        ensures
            (final(self)@, result_view(r)) == builtin_pure(old(self)@, b, values_view(args@)),
            old(self).wf() ==> final(self).wf(),
    {
        proof {
            lemma_values_view(args@);
        }
        let n = args.len();
        match b {
            BuiltinFunction::Print => {
                let t = iterable_to_str(&args);
                let ghost before = self@;
                self.output.push(t);
                assert(self@.output =~= before.output.push(join_texts(values_view(args@))));
                Ok(Value::Null)
            },
            BuiltinFunction::Println => {
                let mut t = iterable_to_str(&args);
                push_str(&mut t, "\n");
                let ghost before = self@;
                self.output.push(t);
                assert(self@.output =~= before.output.push(join_texts(values_view(args@)) + "\n"@));
                Ok(Value::Null)
            },
            BuiltinFunction::TypeName => if n == 0 {
                Err(arity_error_exec(1, 0))
            } else {
                Ok(Value::String(args[0].value_name()))
            },
            BuiltinFunction::Range => Ok(range_exec(&args)),
            BuiltinFunction::StringJoin => if n == 0 {
                Err(arity_error_exec(1, 0))
            } else {
                match self.text_arg_exec(&args[0]) {
                    Ok(s) => {
                        let mut t = s;
                        let rest = concat_rest(&args);
                        append(&mut t, &rest);
                        Ok(Value::String(t))
                    },
                    Err(e) => Err(e),
                }
            },
            BuiltinFunction::StringLen => if n == 0 {
                Err(arity_error_exec(1, 0))
            } else {
                match self.text_arg_exec(&args[0]) {
                    Ok(s) => match utf8_len_exec(&s) {
                        Some(k) => Ok(Value::Number(k)),
                        None => Err(RuntimeError::NumberOverflow),
                    },
                    Err(e) => Err(e),
                }
            },
            BuiltinFunction::StringRepeat => if n < 2 {
                Err(arity_error_exec(2, n))
            } else {
                match self.text_arg_exec(&args[0]) {
                    Ok(s) => {
                        let k: u64 = match &args[1] {
                            Value::Number(k) => if *k < 0 {
                                0
                            } else {
                                *k as u64
                            },
                            _ => 1,
                        };
                        Ok(Value::String(repeat_exec(&s, k)))
                    },
                    Err(e) => Err(e),
                }
            },
            BuiltinFunction::StringIsEmpty => if n == 0 {
                Err(arity_error_exec(1, 0))
            } else {
                match self.text_arg_exec(&args[0]) {
                    Ok(s) => Ok(Value::Boolean(s.unicode_len() == 0)),
                    Err(e) => Err(e),
                }
            },
            BuiltinFunction::StringLowercase => if n == 0 {
                Err(arity_error_exec(1, 0))
            } else {
                match self.text_arg_exec(&args[0]) {
                    Ok(s) => Ok(Value::String(to_lowercase(s.as_str()))),
                    Err(e) => Err(e),
                }
            },
            BuiltinFunction::StringUppercase => if n == 0 {
                Err(arity_error_exec(1, 0))
            } else {
                match self.text_arg_exec(&args[0]) {
                    Ok(s) => Ok(Value::String(to_uppercase(s.as_str()))),
                    Err(e) => Err(e),
                }
            },
            BuiltinFunction::StringSplit => if n < 2 {
                Err(arity_error_exec(2, n))
            } else {
                match self.text_arg_exec(&args[0]) {
                    Ok(s) => match self.text_arg_exec(&args[1]) {
                        Ok(sep) => {
                            let parts = split_at_separator(s.as_str(), sep.as_str());
                            let ghost pv = crate::text::split_pieces(s@, sep@);
                            let mut out: Vec<Value> = Vec::new();
                            let mut i: usize = 0;
                            let mut parts = parts;
                            let ghost all = parts@;
                            let total = parts.len();
                            while i < total
                                invariant
                                    total == all.len(),
                                    all.len() == pv.len(),
                                    forall|m: int| 0 <= m < all.len() ==> #[trigger] all[m]@ == pv[m],
                                    i <= all.len(),
                                    parts@ == all.skip(i as int),
                                    values_view(out@) == Seq::new(
                                        i as nat,
                                        |m: int| SpecValue::String(pv[m]),
                                    ),
                                decreases total - i,
                            {
                                let piece = parts.remove(0);
                                assert(piece == all[i as int]);
                                proof {
                                    lemma_values_view_push(out@, Value::String(piece));
                                }
                                out.push(Value::String(piece));
                                i = i + 1;
                                assert(parts@ =~= all.skip(i as int));
                                assert(values_view(out@) =~= Seq::new(
                                    i as nat,
                                    |m: int| SpecValue::String(pv[m]),
                                ));
                            }
                            Ok(Value::List(out))
                        },
                        Err(e) => Err(e),
                    },
                    Err(e) => Err(e),
                }
            },
            BuiltinFunction::NumberAbs => if n == 0 {
                Err(arity_error_exec(1, 0))
            } else {
                match self.deref_value(&args[0]) {
                    Ok(Value::Number(k)) => if k == i64::MIN {
                        Err(RuntimeError::NumberOverflow)
                    } else {
                        Ok(
                            Value::Number(
                                if k < 0 {
                                    -k
                                } else {
                                    k
                                },
                            ),
                        )
                    },
                    Ok(w) => Err(
                        RuntimeError::UnsupportDataType {
                            expect_type: lit("number"),
                            receive_type: w.value_name(),
                        },
                    ),
                    Err(e) => Err(e),
                }
            },
            BuiltinFunction::NumberMax => Ok(Value::Number(extreme_exec(&args, true))),
            BuiltinFunction::NumberMin => Ok(Value::Number(extreme_exec(&args, false))),
            BuiltinFunction::ListInsert => if n == 0 {
                Err(arity_error_exec(1, 0))
            } else {
                match &args[0] {
                    Value::Reference(id) => {
                        let id = *id;
                        match self.get_ref_value(id) {
                            Ok(Value::List(xs)) => {
                                let mut items = xs;
                                let ghost start = values_view(items@);
                                let ghost av = values_view(args@);
                                let mut k: usize = 1;
                                proof {
                                    assert(start + av.subrange(1, 1) =~= start);
                                }
                                while k < args.len()
                                    invariant
                                        1 <= k <= args@.len(),
                                        av == values_view(args@),
                                        av.len() == args@.len(),
                                        forall|m: int| 0 <= m < args@.len() ==> #[trigger] av[m] == value_view(args@[m]),
                                        values_view(items@) == start + av.subrange(1, k as int),
                                    decreases args@.len() - k,
                                {
                                    let c = crate::value::copy_value(&args[k]);
                                    proof {
                                        lemma_values_view_push(items@, c);
                                    }
                                    items.push(c);
                                    k = k + 1;
                                    assert(values_view(items@) =~= start + av.subrange(1, k as int));
                                }
                                assert(av.subrange(1, k as int) =~= av.drop_first());
                                match self.set_ref_value(id, Value::List(items)) {
                                    Ok(_) => Ok(Value::Null),
                                    Err(e) => Err(e),
                                }
                            },
                            Ok(_) => Err(
                                RuntimeError::UnsupportDataType {
                                    expect_type: lit("reference"),
                                    receive_type: args[0].value_name(),
                                },
                            ),
                            Err(e) => Err(e),
                        }
                    },
                    _ => Err(
                        RuntimeError::UnsupportDataType {
                            expect_type: lit("reference"),
                            receive_type: args[0].value_name(),
                        },
                    ),
                }
            },
            BuiltinFunction::Execute => Ok(Value::Null),
        }
    }
}


// ---------------------------------------------------------------------------
// Modules of built-in functions
// ---------------------------------------------------------------------------

/// A module entry for a built-in function.
pub open spec fn rusty(b: BuiltinFunction, n: int) -> SpecModuleItem {
    SpecModuleItem::Function(SpecFunction::Rusty(b, n as i32))
}

/// Adds the entry `name` for a built-in function to a list of entries.
fn push_builtin(v: &mut Vec<(String, ModuleItem)>, name: &str, b: BuiltinFunction, n: i32)
    ensures
        module_entries_view(final(v)@) == module_entries_view(old(v)@).push((name@, rusty(b, n as int))),
{
    let k = String::from_str(name);
    let item = ModuleItem::Function(FunctionType::Rusty((b, n)));
    proof {
        crate::module::lemma_module_entries_view_push(v@, k, item);
    }
    v.push((k, item));
}

/// Adds the entry `name` for a module to a list of entries.
fn push_module(v: &mut Vec<(String, ModuleItem)>, name: &str, m: ModuleGenerator)
    ensures
        module_entries_view(final(v)@) == module_entries_view(old(v)@).push(
            (name@, SpecModuleItem::SubModule(m@)),
        ),
{
    let k = String::from_str(name);
    let item = m.to_module_item();
    proof {
        crate::module::lemma_module_entries_view_push(v@, k, item);
    }
    v.push((k, item));
}

/// The `string` module of the runtime's library.
pub fn library_string_module() -> (r: ModuleGenerator)
    ensures
        r@ == seq![("join"@, rusty(BuiltinFunction::StringJoin, -1))],
{
    let mut v: Vec<(String, ModuleItem)> = Vec::new();
    assert(module_entries_view(v@) =~= Seq::<(Seq<char>, SpecModuleItem)>::empty());
    push_builtin(&mut v, "join", BuiltinFunction::StringJoin, -1);
    assert(module_entries_view(v@) =~= seq![("join"@, rusty(BuiltinFunction::StringJoin, -1))]);
    ModuleGenerator(v)
}

/// The `number` module of the runtime's library.
pub fn library_number_module() -> (r: ModuleGenerator)
    ensures
        r@ == seq![("abs"@, rusty(BuiltinFunction::NumberAbs, 1))],
{
    let mut v: Vec<(String, ModuleItem)> = Vec::new();
    assert(module_entries_view(v@) =~= Seq::<(Seq<char>, SpecModuleItem)>::empty());
    push_builtin(&mut v, "abs", BuiltinFunction::NumberAbs, 1);
    assert(module_entries_view(v@) =~= seq![("abs"@, rusty(BuiltinFunction::NumberAbs, 1))]);
    ModuleGenerator(v)
}

/// The `list` module: `insert` appends its arguments to the list that its
/// first argument refers to.
pub fn list_module() -> (r: ModuleGenerator)
    ensures
        r@ == seq![("insert"@, rusty(BuiltinFunction::ListInsert, -1))],
{
    let mut v: Vec<(String, ModuleItem)> = Vec::new();
    assert(module_entries_view(v@) =~= Seq::<(Seq<char>, SpecModuleItem)>::empty());
    push_builtin(&mut v, "insert", BuiltinFunction::ListInsert, -1);
    assert(module_entries_view(v@) =~= seq![("insert"@, rusty(BuiltinFunction::ListInsert, -1))]);
    ModuleGenerator(v)
}

/// The modules that a new runtime starts with.
pub open spec fn built_in_entries() -> Seq<(Seq<char>, SpecModuleItem)> {
    seq![
        ("print"@, rusty(BuiltinFunction::Print, -1)),
        ("println"@, rusty(BuiltinFunction::Println, -1)),
        ("type"@, rusty(BuiltinFunction::TypeName, 1)),
        ("execute"@, rusty(BuiltinFunction::Execute, -1)),
        ("range"@, rusty(BuiltinFunction::Range, -1)),
        ("string"@, SpecModuleItem::SubModule(seq![("join"@, rusty(BuiltinFunction::StringJoin, -1))])),
        ("number"@, SpecModuleItem::SubModule(seq![("abs"@, rusty(BuiltinFunction::NumberAbs, 1))])),
    ]
}

/// The functions and modules that a new runtime provides: `print`,
/// `println`, `type` (of one argument), `execute`, `range`, and the modules
/// `string` and `number`.
pub fn built_in() -> (r: ModuleGenerator)
    ensures
        r@ == built_in_entries(),
{
    let mut v: Vec<(String, ModuleItem)> = Vec::new();
    assert(module_entries_view(v@) =~= Seq::<(Seq<char>, SpecModuleItem)>::empty());
    push_builtin(&mut v, "print", BuiltinFunction::Print, -1);
    push_builtin(&mut v, "println", BuiltinFunction::Println, -1);
    push_builtin(&mut v, "type", BuiltinFunction::TypeName, 1);
    push_builtin(&mut v, "execute", BuiltinFunction::Execute, -1);
    push_builtin(&mut v, "range", BuiltinFunction::Range, -1);
    push_module(&mut v, "string", library_string_module());
    push_module(&mut v, "number", library_number_module());
    assert(module_entries_view(v@) =~= built_in_entries());
    ModuleGenerator(v)
}

/// The `string` module of the standard library.
pub open spec fn std_string_entries() -> Seq<(Seq<char>, SpecModuleItem)> {
    seq![
        ("join"@, rusty(BuiltinFunction::StringJoin, -1)),
        ("len"@, rusty(BuiltinFunction::StringLen, 1)),
        ("repeat"@, rusty(BuiltinFunction::StringRepeat, 2)),
        ("is_empty"@, rusty(BuiltinFunction::StringIsEmpty, 1)),
        ("lowercase"@, rusty(BuiltinFunction::StringLowercase, 1)),
        ("uppercase"@, rusty(BuiltinFunction::StringUppercase, 1)),
        ("split"@, rusty(BuiltinFunction::StringSplit, 2)),
    ]
}

pub fn std_string_module() -> (r: ModuleGenerator)
    ensures
        r@ == std_string_entries(),
{
    let mut v: Vec<(String, ModuleItem)> = Vec::new();
    assert(module_entries_view(v@) =~= Seq::<(Seq<char>, SpecModuleItem)>::empty());
    push_builtin(&mut v, "join", BuiltinFunction::StringJoin, -1);
    push_builtin(&mut v, "len", BuiltinFunction::StringLen, 1);
    push_builtin(&mut v, "repeat", BuiltinFunction::StringRepeat, 2);
    push_builtin(&mut v, "is_empty", BuiltinFunction::StringIsEmpty, 1);
    push_builtin(&mut v, "lowercase", BuiltinFunction::StringLowercase, 1);
    push_builtin(&mut v, "uppercase", BuiltinFunction::StringUppercase, 1);
    push_builtin(&mut v, "split", BuiltinFunction::StringSplit, 2);
    assert(module_entries_view(v@) =~= std_string_entries());
    ModuleGenerator(v)
}

/// The `number` module of the standard library.
pub open spec fn std_number_entries() -> Seq<(Seq<char>, SpecModuleItem)> {
    seq![
        ("abs"@, rusty(BuiltinFunction::NumberAbs, 1)),
        ("max"@, rusty(BuiltinFunction::NumberMax, -1)),
        ("min"@, rusty(BuiltinFunction::NumberMin, -1)),
    ]
}

pub fn std_number_module() -> (r: ModuleGenerator)
    ensures
        r@ == std_number_entries(),
{
    let mut v: Vec<(String, ModuleItem)> = Vec::new();
    assert(module_entries_view(v@) =~= Seq::<(Seq<char>, SpecModuleItem)>::empty());
    push_builtin(&mut v, "abs", BuiltinFunction::NumberAbs, 1);
    push_builtin(&mut v, "max", BuiltinFunction::NumberMax, -1);
    push_builtin(&mut v, "min", BuiltinFunction::NumberMin, -1);
    assert(module_entries_view(v@) =~= std_number_entries());
    ModuleGenerator(v)
}

/// The standard library: `print`, `println`, `type`, `execute`, and the
/// modules `string` and `number`.
pub open spec fn std_entries() -> Seq<(Seq<char>, SpecModuleItem)> {
    seq![
        ("print"@, rusty(BuiltinFunction::Print, -1)),
        ("println"@, rusty(BuiltinFunction::Println, -1)),
        ("type"@, rusty(BuiltinFunction::TypeName, 1)),
        ("execute"@, rusty(BuiltinFunction::Execute, -1)),
        ("string"@, SpecModuleItem::SubModule(std_string_entries())),
        ("number"@, SpecModuleItem::SubModule(std_number_entries())),
    ]
}

pub fn std_module() -> (r: ModuleGenerator)
    ensures
        r@ == std_entries(),
{
    let mut v: Vec<(String, ModuleItem)> = Vec::new();
    assert(module_entries_view(v@) =~= Seq::<(Seq<char>, SpecModuleItem)>::empty());
    push_builtin(&mut v, "print", BuiltinFunction::Print, -1);
    push_builtin(&mut v, "println", BuiltinFunction::Println, -1);
    push_builtin(&mut v, "type", BuiltinFunction::TypeName, 1);
    push_builtin(&mut v, "execute", BuiltinFunction::Execute, -1);
    push_module(&mut v, "string", std_string_module());
    push_module(&mut v, "number", std_number_module());
    assert(module_entries_view(v@) =~= std_entries());
    ModuleGenerator(v)
}

/// The functions that are used without their `std::` path.
pub fn auto_use() -> (r: Vec<String>)
    ensures
        crate::ast::strings_view(r@) == seq!["std::print"@, "std::println"@, "std::type"@, "std::execute"@],
{
    let mut r: Vec<String> = Vec::new();
    r.push(lit("std::print"));
    r.push(lit("std::println"));
    r.push(lit("std::type"));
    r.push(lit("std::execute"));
    assert(crate::ast::strings_view(r@) =~= seq!["std::print"@, "std::println"@, "std::type"@, "std::execute"@]);
    r
}

} // verus!
