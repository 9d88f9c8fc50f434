//! Modules of functions and values that scripts reach by path.
use vstd::prelude::*;

use crate::semantics::{put, SpecModuleItem};
use crate::text::{copy_string, str_eq};
use crate::value::{
    copy_function, copy_value, function_view, value_view, BuiltinFunction, FunctionType, Value,
};

verus! {

/// An entry of a module.
pub enum ModuleItem {
    Function(FunctionType),
    Variable(Value),
    SubModule(ModuleInfo),
}

/// The entries of a module.
pub struct ModuleInfo(pub Vec<(String, ModuleItem)>);

/// Builds a module entry by entry.
pub struct ModuleGenerator(pub Vec<(String, ModuleItem)>);

pub open spec fn module_item_view(m: ModuleItem) -> SpecModuleItem
    decreases m,
{
    match m {
        ModuleItem::Function(f) => SpecModuleItem::Function(function_view(f)),
        ModuleItem::Variable(v) => SpecModuleItem::Variable(value_view(v)),
        ModuleItem::SubModule(info) => SpecModuleItem::SubModule(module_entries_view(info.0@)),
    }
}

pub open spec fn module_entries_view(s: Seq<(String, ModuleItem)>) -> Seq<(Seq<char>, SpecModuleItem)>
    decreases s,
{
    if s.len() == 0 {
        Seq::empty()
    } else {
        seq![(s[0].0@, module_item_view(s[0].1))] + module_entries_view(s.drop_first())
    }
}

pub proof fn lemma_module_entries_view(s: Seq<(String, ModuleItem)>)
    ensures
        module_entries_view(s).len() == s.len(),
        forall|i: int|
            0 <= i < s.len() ==> #[trigger] module_entries_view(s)[i] == (
                s[i].0@,
                module_item_view(s[i].1),
            ),
    decreases s.len(),
{
    if s.len() > 0 {
        lemma_module_entries_view(s.drop_first());
        assert forall|i: int| 0 <= i < s.len() implies #[trigger] module_entries_view(s)[i] == (
            s[i].0@,
            module_item_view(s[i].1),
        ) by {
            if i > 0 {
                assert(s.drop_first()[i - 1] == s[i]);
            }
        }
    }
}

impl View for ModuleGenerator {
    type V = Seq<(Seq<char>, SpecModuleItem)>;

    open spec fn view(&self) -> Seq<(Seq<char>, SpecModuleItem)> {
        module_entries_view(self.0@)
    }
}

/// Binds `k` to `v` among module entries: the entry with that key takes the
/// new item, or a new entry is added.
pub fn put_module_entry(d: &mut Vec<(String, ModuleItem)>, k: &str, v: ModuleItem)
    ensures
        module_entries_view(final(d)@) == put(module_entries_view(old(d)@), k@, module_item_view(v)),
{
    proof {
        lemma_module_entries_view(d@);
    }
    let ghost dv = module_entries_view(d@);
    let mut i: usize = 0;
    while i < d.len()
        invariant
            i <= d@.len(),
            dv == module_entries_view(d@),
            d@ == old(d)@,
            dv.len() == d@.len(),
            forall|j: int| 0 <= j < d@.len() ==> #[trigger] dv[j] == (d@[j].0@, module_item_view(d@[j].1)),
            forall|j: int| 0 <= j < i ==> d@[j].0@ != k@,
        decreases d@.len() - i,
    {
        if str_eq(d[i].0.as_str(), k) {
            proof {
                crate::value::lemma_key_index_first(dv, k@, i as int);
            }
            let key = copy_string(&d[i].0);
            let ghost before = d@;
            d.set(i, (key, v));
            proof {
                lemma_module_entries_view(d@);
                assert(module_entries_view(d@) =~= dv.update(i as int, (k@, module_item_view(v))));
            }
            return;
        }
        i = i + 1;
    }
    proof {
        crate::value::lemma_key_index_absent(dv, k@);
    }
    let ghost before = d@;
    d.push((String::from_str(k), v));
    proof {
        lemma_module_entries_view(d@);
        assert(module_entries_view(d@) =~= dv.push((k@, module_item_view(v))));
    }
}

impl ModuleGenerator {
    /// An empty module.
    pub fn new() -> (r: Self)
        ensures
            r@ == Seq::<(Seq<char>, SpecModuleItem)>::empty(),
    {
        let v: Vec<(String, ModuleItem)> = Vec::new();
        assert(module_entries_view(v@) =~= Seq::<(Seq<char>, SpecModuleItem)>::empty());
        ModuleGenerator(v)
    }

    /// Binds `k` to an item.
    pub fn insert(&mut self, k: &str, v: ModuleItem)
        ensures
            final(self)@ == put(old(self)@, k@, module_item_view(v)),
    {
        put_module_entry(&mut self.0, k, v);
    }

    /// Binds `k` to a built-in function taking `arg` arguments (`-1` for
    /// any number).
    pub fn insert_rusty_function(&mut self, k: &str, func: BuiltinFunction, arg: i32)
        ensures
            final(self)@ == put(
                old(self)@,
                k@,
                SpecModuleItem::Function(crate::value::SpecFunction::Rusty(func, arg)),
            ),
    {
        self.insert(k, ModuleItem::Function(FunctionType::Rusty((func, arg))));
    }

    /// Binds `k` to function `which` of the host program, taking `arg`
    /// arguments (`-1` for any number).
    pub fn insert_host_function(&mut self, k: &str, which: usize, arg: i32)
        ensures
            final(self)@ == put(
                old(self)@,
                k@,
                SpecModuleItem::Function(crate::value::SpecFunction::Host(which, arg)),
            ),
    {
        self.insert(k, ModuleItem::Function(FunctionType::Host((which, arg))));
    }

    /// Binds `k` to a module.
    pub fn insert_sub_module(&mut self, k: &str, v: ModuleGenerator)
        ensures
            final(self)@ == put(old(self)@, k@, SpecModuleItem::SubModule(v@)),
    {
        self.insert(k, ModuleItem::SubModule(ModuleInfo(v.0)));
    }

    /// The module as an entry of another.
    pub fn to_module_item(self) -> (r: ModuleItem)
        ensures
            module_item_view(r) == SpecModuleItem::SubModule(self@),
    {
        ModuleItem::SubModule(ModuleInfo(self.0))
    }
}

/// A copy of a module entry.
pub fn copy_module_item(m: &ModuleItem) -> (r: ModuleItem)
    ensures
        module_item_view(r) == module_item_view(*m),
    decreases m, 1nat,
{
    match m {
        ModuleItem::Function(f) => ModuleItem::Function(copy_function(f)),
        ModuleItem::Variable(v) => ModuleItem::Variable(copy_value(v)),
        ModuleItem::SubModule(info) => ModuleItem::SubModule(ModuleInfo(copy_module_entries(&info.0))),
    }
}

/// A copy of the entries of a module.
pub fn copy_module_entries(d: &Vec<(String, ModuleItem)>) -> (r: Vec<(String, ModuleItem)>)
    ensures
        module_entries_view(r@) == module_entries_view(d@),
    decreases d, 0nat,
{
    let mut r: Vec<(String, ModuleItem)> = Vec::new();
    let mut i: usize = 0;
    while i < d.len()
        invariant
            i <= d@.len(),
            module_entries_view(r@) == module_entries_view(d@.subrange(0, i as int)),
        decreases d@.len() - i,
    {
        assert(decreases_to!(d => d@[i as int].1));
        let k = copy_string(&d[i].0);
        let x = copy_module_item(&d[i].1);
        proof {
            lemma_module_entries_view_push(r@, k, x);
            lemma_module_entries_view_push(d@.subrange(0, i as int), d@[i as int].0, d@[i as int].1);
            assert(d@.subrange(0, i + 1) =~= d@.subrange(0, i as int).push(d@[i as int]));
        }
        r.push((k, x));
        i = i + 1;
    }
    assert(d@.subrange(0, d@.len() as int) =~= d@);
    r
}

pub proof fn lemma_module_entries_view_push(s: Seq<(String, ModuleItem)>, k: String, x: ModuleItem)
    ensures
        module_entries_view(s.push((k, x))) == module_entries_view(s).push((k@, module_item_view(x))),
{
    lemma_module_entries_view(s);
    lemma_module_entries_view(s.push((k, x)));
    assert(module_entries_view(s.push((k, x))) =~= module_entries_view(s).push(
        (k@, module_item_view(x)),
    ));
}

} // verus!
