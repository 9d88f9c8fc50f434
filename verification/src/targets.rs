//! Names of the targets that functions are bound to and that scripts are
//! built for.
use vstd::prelude::*;

use crate::semantics::put;
use crate::text::{copy_string, std_lowercase, str_eq, to_lowercase};
use crate::value::{dict_view, find_key, lemma_dict_view, lemma_key_index_absent,
    lemma_key_index_first, FunctionType, SpecFunction, SpecValue, Value};

verus! {

/// The kind of value a bound function belongs to.
#[derive(Debug, Clone)]
pub enum BindTarget {
    Root,
    String,
    Number,
    Boolean,
    Tuple,
    List,
    Dict,
    Element,
    Function,
    Struct(String),
}

/// The name under which functions bound to a target are found: the empty
/// name for the root, the lower-case type name otherwise, and a struct's
/// name in lower case.
pub open spec fn bind_target_name(t: BindTarget) -> Seq<char> {
    match t {
        BindTarget::Root => Seq::empty(),
        BindTarget::String => "string"@,
        BindTarget::Number => "number"@,
        BindTarget::Boolean => "boolean"@,
        BindTarget::Tuple => "tuple"@,
        BindTarget::List => "list"@,
        BindTarget::Dict => "dict"@,
        BindTarget::Element => "element"@,
        BindTarget::Function => "function"@,
        BindTarget::Struct(s) => std_lowercase(s@),
    }
}

impl BindTarget {
    /// The target's name, as `bind_target_name` gives it.
    pub fn to_string(&self) -> (r: String)
        ensures
            r@ == bind_target_name(*self),
    {
        match self {
            BindTarget::Root => String::new(),
            BindTarget::String => "string".to_string(),
            BindTarget::Number => "number".to_string(),
            BindTarget::Boolean => "boolean".to_string(),
            BindTarget::Tuple => "tuple".to_string(),
            BindTarget::List => "list".to_string(),
            BindTarget::Dict => "dict".to_string(),
            BindTarget::Element => "element".to_string(),
            BindTarget::Function => "function".to_string(),
            BindTarget::Struct(s) => to_lowercase(s.as_str()),
        }
    }
}

/// What a script can be built into.
#[derive(Debug, Clone, Copy, PartialEq, Eq, Structural)]
pub enum BuildTarget {
    Static,
    Unknown,
}

impl BuildTarget {
    /// The target that a name selects: `Static` for "static" in any case,
    /// `Unknown` for every other name.
    pub fn from_str(name: &str) -> (r: Self)
        ensures
            r == (if std_lowercase(name@) == "static"@ {
                BuildTarget::Static
            } else {
                BuildTarget::Unknown
            }),
    {
        let lower = to_lowercase(name);
        if str_eq(lower.as_str(), "static") {
            BuildTarget::Static
        } else {
            BuildTarget::Unknown
        }
    }
}

/// The same target, its struct name copied.
pub fn copy_target(t: &BindTarget) -> (r: BindTarget)
    ensures
        bind_target_name(r) == bind_target_name(*t),
        !(t is Struct) ==> r == *t,
        r is Struct <==> t is Struct,
        t matches BindTarget::Struct(a) ==> r matches BindTarget::Struct(b) && a@ == b@,
{
    match t {
        BindTarget::Root => BindTarget::Root,
        BindTarget::String => BindTarget::String,
        BindTarget::Number => BindTarget::Number,
        BindTarget::Boolean => BindTarget::Boolean,
        BindTarget::Tuple => BindTarget::Tuple,
        BindTarget::List => BindTarget::List,
        BindTarget::Dict => BindTarget::Dict,
        BindTarget::Element => BindTarget::Element,
        BindTarget::Function => BindTarget::Function,
        BindTarget::Struct(n) => BindTarget::Struct(copy_string(n)),
    }
}

/// Host functions gathered under names, to be bound as the methods of a
/// target: each name refers to a host function by its number, with the
/// number of arguments it takes.
pub struct MethodBinder {
    pub target: BindTarget,
    pub functions: Vec<(String, (usize, i32))>,
}

/// The names of a binder with the functions they refer to.
pub open spec fn binder_view(fs: Seq<(String, (usize, i32))>) -> Seq<(Seq<char>, (usize, i32))> {
    Seq::new(fs.len(), |i: int| (fs[i].0@, fs[i].1))
}

/// The value each name of a binder stands for.
pub open spec fn binder_values(fs: Seq<(Seq<char>, (usize, i32))>) -> Seq<(Seq<char>, SpecValue)> {
    Seq::new(
        fs.len(),
        |i: int| (fs[i].0, SpecValue::Function(SpecFunction::Host(fs[i].1.0, fs[i].1.1))),
    )
}

impl MethodBinder {
    /// A binder for `target` with no function.
    pub fn new(target: BindTarget) -> (r: Self)
        ensures
            r.target == target,
            binder_view(r.functions@) == Seq::<(Seq<char>, (usize, i32))>::empty(),
    {
        let r = MethodBinder { target, functions: Vec::new() };
        assert(binder_view(r.functions@) =~= Seq::<(Seq<char>, (usize, i32))>::empty());
        r
    }

    /// Binds `name` to host function `func.0`, taking `func.1` arguments.
    pub fn insert(&mut self, name: &str, func: (usize, i32))
        ensures
            final(self).target == old(self).target,
            binder_view(final(self).functions@) == put(binder_view(old(self).functions@), name@, func),
    {
        let ghost bv = binder_view(self.functions@);
        match find_key(&self.functions, name) {
            Some(i) => {
                proof {
                    lemma_key_index_first(bv, name@, i as int);
                }
                let key = copy_string(&self.functions[i].0);
                self.functions.set(i, (key, func));
                assert(binder_view(self.functions@) =~= bv.update(i as int, (name@, func)));
            },
            None => {
                proof {
                    lemma_key_index_absent(bv, name@);
                }
                self.functions.push((String::from_str(name), func));
                assert(binder_view(self.functions@) =~= bv.push((name@, func)));
            },
        }
    }

    /// The target and the value each name stands for.
    pub fn collect(&self) -> (r: (BindTarget, Vec<(String, Value)>))
        ensures
            bind_target_name(r.0) == bind_target_name(self.target),
            r.0 is Struct <==> self.target is Struct,
            !(self.target is Struct) ==> r.0 == self.target,
            dict_view(r.1@) == binder_values(binder_view(self.functions@)),
    {
        let mut out: Vec<(String, Value)> = Vec::new();
        let ghost want = binder_values(binder_view(self.functions@));
        let mut i: usize = 0;
        proof {
            lemma_dict_view(out@);
            assert(dict_view(out@) =~= want.subrange(0, 0));
        }
        while i < self.functions.len()
            invariant
                i <= self.functions@.len(),
                want == binder_values(binder_view(self.functions@)),
                dict_view(out@) == want.subrange(0, i as int),
            decreases self.functions@.len() - i,
        {
            let (k, n) = self.functions[i].1;
            let key = copy_string(&self.functions[i].0);
            let ghost before = out@;
            out.push((key, Value::Function(FunctionType::Host((k, n)))));
            proof {
                lemma_dict_view(out@);
                lemma_dict_view(before);
                assert(dict_view(out@) =~= want.subrange(0, i + 1));
            }
            i = i + 1;
        }
        assert(want.subrange(0, self.functions@.len() as int) =~= want);
        (copy_target(&self.target), out)
    }
}

} // verus!
