//! Runtime values, elements, and the operations on them.
use std::rc::Rc;

use vstd::prelude::*;

use crate::ast::{define_view, CalculateMark, FunctionDefine, SpecFnDefine};
use crate::error::{RuntimeError, SpecRuntimeError};
use crate::text::{
    append, chars_of, copy_string, i64_to_string, int_numeral, push_char, push_str,
    string_of_char,
};

verus! {

broadcast use vstd::string::group_string_axioms;

/// The functions that the runtime provides itself.
#[derive(Debug, Clone, Copy, PartialEq, Eq, Structural)]
pub enum BuiltinFunction {
    Print,
    Println,
    TypeName,
    Execute,
    Range,
    StringJoin,
    StringLen,
    StringRepeat,
    StringIsEmpty,
    StringLowercase,
    StringUppercase,
    StringSplit,
    NumberAbs,
    NumberMax,
    NumberMin,
    ListInsert,
}

/// A value of the language. Numbers are 64-bit integers; dictionaries and
/// attribute lists are lists of entries, looked up by their first entry
/// with a given key.
#[derive(Debug, PartialEq)]
pub enum Value {
    Null,
    String(String),
    Number(i64),
    Boolean(bool),
    List(Vec<Value>),
    Dict(Vec<(String, Value)>),
    Tuple((Box<Value>, Box<Value>)),
    Element(Element),
    Function(FunctionType),
    Reference(u128),
}

/// A callable: a built-in with the number of arguments it takes (`-1` for
/// any number), a script function with the variables it captured, or a
/// function of the host program, by the number the runtime gave it when it
/// was bound, with the number of arguments it takes.
#[derive(Debug, PartialEq)]
pub enum FunctionType {
    Rusty((BuiltinFunction, i32)),
    DScript((Rc<FunctionDefine>, Vec<(String, u128)>)),
    Host((usize, i32)),
}

#[derive(Debug, PartialEq)]
pub struct Element {
    pub name: String,
    pub attributes: Vec<(String, Value)>,
    pub content: Vec<ElementContentType>,
}

#[derive(Debug, PartialEq)]
pub enum ElementContentType {
    Children(Element),
    Content(String),
}

// ---------------------------------------------------------------------------
// Model
// ---------------------------------------------------------------------------

pub enum SpecValue {
    Null,
    String(Seq<char>),
    Number(i64),
    Boolean(bool),
    List(Seq<SpecValue>),
    Dict(Seq<(Seq<char>, SpecValue)>),
    Tuple(Box<SpecValue>, Box<SpecValue>),
    Element(SpecElement),
    Function(SpecFunction),
    Reference(u128),
}

pub enum SpecFunction {
    Rusty(BuiltinFunction, i32),
    DScript(SpecFnDefine, Seq<(Seq<char>, u128)>),
    Host(usize, i32),
}

pub struct SpecElement {
    pub name: Seq<char>,
    pub attributes: Seq<(Seq<char>, SpecValue)>,
    pub content: Seq<SpecContent>,
}

pub enum SpecContent {
    Children(SpecElement),
    Content(Seq<char>),
}

/// Names bound to variable ids.
pub open spec fn env_view(s: Seq<(String, u128)>) -> Seq<(Seq<char>, u128)> {
    Seq::new(s.len(), |i: int| (s[i].0@, s[i].1))
}

pub open spec fn function_view(f: FunctionType) -> SpecFunction {
    match f {
        FunctionType::Rusty((b, n)) => SpecFunction::Rusty(b, n),
        FunctionType::DScript((d, env)) => SpecFunction::DScript(define_view(*d), env_view(env@)),
        FunctionType::Host((k, n)) => SpecFunction::Host(k, n),
    }
}

pub open spec fn value_view(v: Value) -> SpecValue
    decreases v,
{
    match v {
        Value::Null => SpecValue::Null,
        Value::String(s) => SpecValue::String(s@),
        Value::Number(n) => SpecValue::Number(n),
        Value::Boolean(b) => SpecValue::Boolean(b),
        Value::List(l) => SpecValue::List(values_view(l@)),
        Value::Dict(d) => SpecValue::Dict(dict_view(d@)),
        Value::Tuple((a, b)) => SpecValue::Tuple(Box::new(value_view(*a)), Box::new(value_view(*b))),
        Value::Element(e) => SpecValue::Element(element_view(e)),
        Value::Function(f) => SpecValue::Function(function_view(f)),
        Value::Reference(r) => SpecValue::Reference(r),
    }
}

pub open spec fn values_view(s: Seq<Value>) -> Seq<SpecValue>
    decreases s,
{
    if s.len() == 0 {
        Seq::empty()
    } else {
        seq![value_view(s[0])] + values_view(s.drop_first())
    }
}

pub open spec fn dict_view(s: Seq<(String, Value)>) -> Seq<(Seq<char>, SpecValue)>
    decreases s,
{
    if s.len() == 0 {
        Seq::empty()
    } else {
        seq![(s[0].0@, value_view(s[0].1))] + dict_view(s.drop_first())
    }
}

pub open spec fn element_view(e: Element) -> SpecElement
    decreases e,
{
    SpecElement {
        name: e.name@,
        attributes: dict_view(e.attributes@),
        content: contents_view(e.content@),
    }
}

pub open spec fn contents_view(s: Seq<ElementContentType>) -> Seq<SpecContent>
    decreases s,
{
    if s.len() == 0 {
        Seq::empty()
    } else {
        seq![
            match s[0] {
                ElementContentType::Children(e) => SpecContent::Children(element_view(e)),
                ElementContentType::Content(c) => SpecContent::Content(c@),
            },
        ] + contents_view(s.drop_first())
    }
}

pub open spec fn content_view(c: ElementContentType) -> SpecContent {
    match c {
        ElementContentType::Children(e) => SpecContent::Children(element_view(e)),
        ElementContentType::Content(c) => SpecContent::Content(c@),
    }
}

/// The model of an evaluation result.
pub open spec fn result_view(r: Result<Value, RuntimeError>) -> Result<SpecValue, SpecRuntimeError> {
    match r {
        Ok(v) => Ok(value_view(v)),
        Err(e) => Err(e@),
    }
}

impl View for Value {
    type V = SpecValue;

    open spec fn view(&self) -> SpecValue {
        value_view(*self)
    }
}

impl View for Element {
    type V = SpecElement;

    open spec fn view(&self) -> SpecElement {
        element_view(*self)
    }
}

pub proof fn lemma_values_view(s: Seq<Value>)
    ensures
        values_view(s).len() == s.len(),
        forall|i: int| 0 <= i < s.len() ==> #[trigger] values_view(s)[i] == value_view(s[i]),
    decreases s.len(),
{
    if s.len() > 0 {
        lemma_values_view(s.drop_first());
        assert forall|i: int| 0 <= i < s.len() implies #[trigger] values_view(s)[i] == value_view(
            s[i],
        ) by {
            if i > 0 {
                assert(s.drop_first()[i - 1] == s[i]);
            }
        }
    }
}

pub proof fn lemma_dict_view(s: Seq<(String, Value)>)
    ensures
        dict_view(s).len() == s.len(),
        forall|i: int|
            0 <= i < s.len() ==> #[trigger] dict_view(s)[i] == (s[i].0@, value_view(s[i].1)),
    decreases s.len(),
{
    if s.len() > 0 {
        lemma_dict_view(s.drop_first());
        assert forall|i: int| 0 <= i < s.len() implies #[trigger] dict_view(s)[i] == (
            s[i].0@,
            value_view(s[i].1),
        ) by {
            if i > 0 {
                assert(s.drop_first()[i - 1] == s[i]);
            }
        }
    }
}

pub proof fn lemma_contents_view(s: Seq<ElementContentType>)
    ensures
        contents_view(s).len() == s.len(),
        forall|i: int| 0 <= i < s.len() ==> #[trigger] contents_view(s)[i] == content_view(s[i]),
    decreases s.len(),
{
    if s.len() > 0 {
        lemma_contents_view(s.drop_first());
        assert forall|i: int| 0 <= i < s.len() implies #[trigger] contents_view(s)[i]
            == content_view(s[i]) by {
            if i > 0 {
                assert(s.drop_first()[i - 1] == s[i]);
            }
        }
    }
}

/// Pushing onto a list of values pushes its model.
pub proof fn lemma_values_view_push(s: Seq<Value>, v: Value)
    ensures
        values_view(s.push(v)) == values_view(s).push(value_view(v)),
{
    lemma_values_view(s);
    lemma_values_view(s.push(v));
    assert(values_view(s.push(v)) =~= values_view(s).push(value_view(v)));
}

pub proof fn lemma_dict_view_push(s: Seq<(String, Value)>, k: String, v: Value)
    ensures
        dict_view(s.push((k, v))) == dict_view(s).push((k@, value_view(v))),
{
    lemma_dict_view(s);
    lemma_dict_view(s.push((k, v)));
    assert(dict_view(s.push((k, v))) =~= dict_view(s).push((k@, value_view(v))));
}

pub proof fn lemma_contents_view_push(s: Seq<ElementContentType>, c: ElementContentType)
    ensures
        contents_view(s.push(c)) == contents_view(s).push(content_view(c)),
{
    lemma_contents_view(s);
    lemma_contents_view(s.push(c));
    assert(contents_view(s.push(c)) =~= contents_view(s).push(content_view(c)));
}

// ---------------------------------------------------------------------------
// Names and text
// ---------------------------------------------------------------------------

/// The name of a value's type, as `type()` reports it.
pub open spec fn kind_name(v: SpecValue) -> Seq<char> {
    match v {
        SpecValue::Null => "none"@,
        SpecValue::String(_) => "string"@,
        SpecValue::Number(_) => "number"@,
        SpecValue::Boolean(_) => "boolean"@,
        SpecValue::List(_) => "list"@,
        SpecValue::Dict(_) => "dict"@,
        SpecValue::Tuple(_, _) => "tuple"@,
        SpecValue::Element(_) => "element"@,
        SpecValue::Function(_) => "function"@,
        SpecValue::Reference(_) => "reference"@,
    }
}

/// How a value is written when it is printed or joined into text.
pub open spec fn value_text(v: SpecValue) -> Seq<char> {
    match v {
        SpecValue::Null => "none"@,
        SpecValue::String(s) => s,
        SpecValue::Number(n) => int_numeral(n as int),
        SpecValue::Boolean(b) => if b {
            "true"@
        } else {
            "false"@
        },
        SpecValue::List(_) => "[ /* list */ ]"@,
        SpecValue::Dict(_) => "{ /* dict */ }"@,
        SpecValue::Tuple(_, _) => "( /* tuple */ )"@,
        SpecValue::Element(_) => "element { /* element attributes */  }"@,
        SpecValue::Function(_) => "fn () { /* function impl */  }"@,
        SpecValue::Reference(_) => "/* &reference */"@,
    }
}

/// A `String` with the characters of a literal.
pub fn lit(s: &str) -> (r: String)
    ensures
        r@ == s@,
{
    s.to_string()
}

/// Whether two values are of the same type.
pub open spec fn same_kind(a: SpecValue, b: SpecValue) -> bool {
    kind_order(a) == kind_order(b)
}

/// The position of a value's type in the list of types.
pub open spec fn kind_order(v: SpecValue) -> int {
    match v {
        SpecValue::Null => 0,
        SpecValue::String(_) => 1,
        SpecValue::Number(_) => 2,
        SpecValue::Boolean(_) => 3,
        SpecValue::List(_) => 4,
        SpecValue::Dict(_) => 5,
        SpecValue::Tuple(_, _) => 6,
        SpecValue::Element(_) => 7,
        SpecValue::Function(_) => 8,
        SpecValue::Reference(_) => 9,
    }
}

fn kind_index(v: &Value) -> (r: u8)
    ensures
        r as int == kind_order(v@),
{
    match v {
        Value::Null => 0,
        Value::String(_) => 1,
        Value::Number(_) => 2,
        Value::Boolean(_) => 3,
        Value::List(_) => 4,
        Value::Dict(_) => 5,
        Value::Tuple(_) => 6,
        Value::Element(_) => 7,
        Value::Function(_) => 8,
        Value::Reference(_) => 9,
    }
}

/// Whether two values are of the same type.
pub fn same_kind_exec(a: &Value, b: &Value) -> (r: bool)
    ensures
        r == same_kind(a@, b@),
{
    kind_index(a) == kind_index(b)
}

/// The first entry of `s` with key `k`.
pub open spec fn key_index<V>(s: Seq<(Seq<char>, V)>, k: Seq<char>) -> Option<int>
    decreases s.len(),
{
    if s.len() == 0 {
        None
    } else if s[0].0 == k {
        Some(0)
    } else {
        match key_index(s.drop_first(), k) {
            Some(i) => Some(i + 1),
            None => None,
        }
    }
}

/// The value stored under `k`, if any.
pub open spec fn dict_lookup<V>(s: Seq<(Seq<char>, V)>, k: Seq<char>) -> Option<V> {
    match key_index(s, k) {
        Some(i) => Some(s[i].1),
        None => None,
    }
}

pub proof fn lemma_key_index<V>(s: Seq<(Seq<char>, V)>, k: Seq<char>)
    ensures
        key_index(s, k) matches Some(i) ==> 0 <= i < s.len() && s[i].0 == k && forall|j: int|
            0 <= j < i ==> s[j].0 != k,
        key_index(s, k) is None ==> forall|j: int| 0 <= j < s.len() ==> s[j].0 != k,
    decreases s.len(),
{
    if s.len() > 0 {
        lemma_key_index(s.drop_first(), k);
        if s[0].0 != k {
            assert forall|j: int| 1 <= j < s.len() implies s[j].0 == s.drop_first()[j - 1].0 by {}
        }
    }
}

/// `key_index` finds the first entry with the key.
pub proof fn lemma_key_index_first<V>(s: Seq<(Seq<char>, V)>, k: Seq<char>, i: int)
    requires
        0 <= i < s.len(),
        s[i].0 == k,
        forall|j: int| 0 <= j < i ==> s[j].0 != k,
    ensures
        key_index(s, k) == Some(i),
{
    lemma_key_index(s, k);
    match key_index(s, k) {
        Some(m) => {
            if m < i {
                assert(s[m].0 == k);
            } else if m > i {
            }
        },
        None => {},
    }
}

/// `key_index` finds nothing when no entry has the key.
pub proof fn lemma_key_index_absent<V>(s: Seq<(Seq<char>, V)>, k: Seq<char>)
    requires
        forall|j: int| 0 <= j < s.len() ==> s[j].0 != k,
    ensures
        key_index(s, k) is None,
{
    lemma_key_index(s, k);
}

/// The position of the first entry whose key is `k`.
pub fn find_key<V>(entries: &Vec<(String, V)>, k: &str) -> (r: Option<usize>)
    ensures
        r matches Some(i) ==> i < entries@.len() && entries@[i as int].0@ == k@ && forall|j: int|
            0 <= j < i ==> entries@[j].0@ != k@,
        r is None ==> forall|j: int| 0 <= j < entries@.len() ==> entries@[j].0@ != k@,
{
    let mut i: usize = 0;
    while i < entries.len()
        invariant
            i <= entries@.len(),
            forall|j: int| 0 <= j < i ==> entries@[j].0@ != k@,
        decreases entries@.len() - i,
    {
        if crate::text::str_eq(entries[i].0.as_str(), k) {
            return Some(i);
        }
        i = i + 1;
    }
    None
}

impl Value {
    /// The name of the value's type.
    pub fn value_name(&self) -> (r: String)
        ensures
            r@ == kind_name(self@),
    {
        match self {
            Value::Null => lit("none"),
            Value::String(_) => lit("string"),
            Value::Number(_) => lit("number"),
            Value::Boolean(_) => lit("boolean"),
            Value::List(_) => lit("list"),
            Value::Dict(_) => lit("dict"),
            Value::Tuple(_) => lit("tuple"),
            Value::Element(_) => lit("element"),
            Value::Function(_) => lit("function"),
            Value::Reference(_) => lit("reference"),
        }
    }

    /// The value as it is printed.
    pub fn to_string(&self) -> (r: String)
        ensures
            r@ == value_text(self@),
    {
        match self {
            Value::Null => lit("none"),
            Value::String(s) => copy_string(s),
            Value::Number(n) => i64_to_string(*n),
            Value::Boolean(b) => if *b {
                lit("true")
            } else {
                lit("false")
            },
            Value::List(_) => lit("[ /* list */ ]"),
            Value::Dict(_) => lit("{ /* dict */ }"),
            Value::Tuple(_) => lit("( /* tuple */ )"),
            Value::Element(_) => lit("element { /* element attributes */  }"),
            Value::Function(_) => lit("fn () { /* function impl */  }"),
            Value::Reference(_) => lit("/* &reference */"),
        }
    }

    /// Whether the value is `none`.
    pub fn as_none(&self) -> (r: bool)
        ensures
            r == (self@ is Null),
    {
        matches!(self, Value::Null)
    }

    /// The text of a string value.
    pub fn as_string(&self) -> (r: Option<String>)
        ensures
            r matches Some(t) ==> self@ == SpecValue::String(t@),
            r is None <==> !(self@ is String),
    {
        match self {
            Value::String(t) => Some(copy_string(t)),
            _ => None,
        }
    }

    /// The number of a number value.
    pub fn as_number(&self) -> (r: Option<i64>)
        ensures
            r matches Some(n) ==> self@ == SpecValue::Number(n),
            r is None <==> !(self@ is Number),
    {
        match self {
            Value::Number(n) => Some(*n),
            _ => None,
        }
    }

    /// The truth of a boolean value.
    pub fn as_boolean(&self) -> (r: Option<bool>)
        ensures
            r matches Some(b) ==> self@ == SpecValue::Boolean(b),
            r is None <==> !(self@ is Boolean),
    {
        match self {
            Value::Boolean(b) => Some(*b),
            _ => None,
        }
    }

    /// A copy of the items of a list value.
    pub fn as_list(&self) -> (r: Option<Vec<Value>>)
        ensures
            r matches Some(xs) ==> self@ == SpecValue::List(values_view(xs@)),
            r is None <==> !(self@ is List),
    {
        match self {
            Value::List(xs) => Some(copy_values(xs)),
            _ => None,
        }
    }

    /// A copy of the entries of a dictionary value.
    pub fn as_dict(&self) -> (r: Option<Vec<(String, Value)>>)
        ensures
            r matches Some(d) ==> self@ == SpecValue::Dict(dict_view(d@)),
            r is None <==> !(self@ is Dict),
    {
        match self {
            Value::Dict(d) => Some(copy_dict(d)),
            _ => None,
        }
    }

    /// A copy of the two parts of a tuple value.
    pub fn as_tuple(&self) -> (r: Option<(Box<Value>, Box<Value>)>)
        ensures
            r matches Some((a, b)) ==> self@ == SpecValue::Tuple(Box::new(a@), Box::new(b@)),
            r is None <==> !(self@ is Tuple),
    {
        match self {
            Value::Tuple((a, b)) => Some((Box::new(copy_value(a)), Box::new(copy_value(b)))),
            _ => None,
        }
    }

    /// A copy of an element value.
    pub fn as_element(&self) -> (r: Option<Element>)
        ensures
            r matches Some(e) ==> self@ == SpecValue::Element(e@),
            r is None <==> !(self@ is Element),
    {
        match self {
            Value::Element(e) => Some(copy_element(e)),
            _ => None,
        }
    }

    /// The id a reference value refers to.
    pub fn as_reference(&self) -> (r: Option<u128>)
        ensures
            r matches Some(id) ==> self@ == SpecValue::Reference(id),
            r is None <==> !(self@ is Reference),
    {
        match self {
            Value::Reference(id) => Some(*id),
            _ => None,
        }
    }

    /// The truth of a value in a loop condition: non-zero numbers and `true`.
    pub fn to_boolean_data(&self) -> (r: bool)
        ensures
            r == truthy(self@),
    {
        match self {
            Value::Number(v) => *v != 0,
            Value::Boolean(v) => *v,
            _ => false,
        }
    }
}

/// The truth of a value in a loop condition.
pub open spec fn truthy(v: SpecValue) -> bool {
    match v {
        SpecValue::Number(n) => n != 0,
        SpecValue::Boolean(b) => b,
        _ => false,
    }
}

// ---------------------------------------------------------------------------
// Copies
// ---------------------------------------------------------------------------

/// Shares a function body: `Rc::clone`, documented as making another
/// pointer to the same allocation, so both handles denote one value.
#[verifier::external_body]
pub(crate) fn share_define(d: &Rc<FunctionDefine>) -> (r: Rc<FunctionDefine>)
    ensures
        r == *d,
{
    Rc::clone(d)
}

pub fn copy_env(env: &Vec<(String, u128)>) -> (r: Vec<(String, u128)>)
    ensures
        env_view(r@) == env_view(env@),
{
    let mut r: Vec<(String, u128)> = Vec::new();
    let mut i: usize = 0;
    while i < env.len()
        invariant
            i <= env@.len(),
            r@.len() == i,
            forall|j: int| 0 <= j < i ==> r@[j].0@ == env@[j].0@ && r@[j].1 == env@[j].1,
        decreases env@.len() - i,
    {
        let k = copy_string(&env[i].0);
        r.push((k, env[i].1));
        i = i + 1;
    }
    assert(env_view(r@) =~= env_view(env@));
    r
}

pub fn copy_function(f: &FunctionType) -> (r: FunctionType)
    ensures
        function_view(r) == function_view(*f),
{
    match f {
        FunctionType::Rusty((b, n)) => FunctionType::Rusty((*b, *n)),
        FunctionType::DScript((d, env)) => FunctionType::DScript((share_define(d), copy_env(env))),
        FunctionType::Host((k, n)) => FunctionType::Host((*k, *n)),
    }
}

/// A deep copy of a value.
pub fn copy_value(v: &Value) -> (r: Value)
    ensures
        r@ == v@,
    decreases v,
{
    match v {
        Value::Null => Value::Null,
        Value::String(s) => Value::String(copy_string(s)),
        Value::Number(n) => Value::Number(*n),
        Value::Boolean(b) => Value::Boolean(*b),
        Value::List(l) => Value::List(copy_values(l)),
        Value::Dict(d) => Value::Dict(copy_dict(d)),
        Value::Tuple((a, b)) => Value::Tuple((Box::new(copy_value(a)), Box::new(copy_value(b)))),
        Value::Element(e) => Value::Element(copy_element(e)),
        Value::Function(f) => Value::Function(copy_function(f)),
        Value::Reference(r) => Value::Reference(*r),
    }
}

pub fn copy_values(l: &Vec<Value>) -> (r: Vec<Value>)
    ensures
        values_view(r@) == values_view(l@),
    decreases l,
{
    let mut r: Vec<Value> = Vec::new();
    let mut i: usize = 0;
    proof {
        lemma_values_view(l@);
    }
    while i < l.len()
        invariant
            i <= l@.len(),
            values_view(r@) == values_view(l@.subrange(0, i as int)),
            values_view(l@).len() == l@.len(),
            forall|j: int| 0 <= j < l@.len() ==> #[trigger] values_view(l@)[j] == value_view(l@[j]),
        decreases l@.len() - i,
    {
        assert(decreases_to!(l => l@[i as int]));
        let c = copy_value(&l[i]);
        proof {
            lemma_values_view_push(r@, c);
            lemma_values_view(l@.subrange(0, i as int));
            lemma_values_view(l@.subrange(0, i + 1));
        }
        r.push(c);
        i = i + 1;
        assert(values_view(r@) =~= values_view(l@.subrange(0, i as int)));
    }
    assert(l@.subrange(0, l@.len() as int) =~= l@);
    r
}

pub fn copy_dict(d: &Vec<(String, Value)>) -> (r: Vec<(String, Value)>)
    ensures
        dict_view(r@) == dict_view(d@),
    decreases d,
{
    let mut r: Vec<(String, Value)> = Vec::new();
    let mut i: usize = 0;
    while i < d.len()
        invariant
            i <= d@.len(),
            dict_view(r@) == dict_view(d@.subrange(0, i as int)),
        decreases d@.len() - i,
    {
        assert(decreases_to!(d => d@[i as int].1));
        let k = copy_string(&d[i].0);
        let c = copy_value(&d[i].1);
        proof {
            lemma_dict_view_push(r@, k, c);
            lemma_dict_view(d@.subrange(0, i as int));
            lemma_dict_view(d@.subrange(0, i + 1));
            lemma_dict_view(r@.push((k, c)));
        }
        r.push((k, c));
        i = i + 1;
        assert(dict_view(r@) =~= dict_view(d@.subrange(0, i as int)));
    }
    assert(d@.subrange(0, d@.len() as int) =~= d@);
    r
}

pub fn copy_element(e: &Element) -> (r: Element)
    ensures
        r@ == e@,
    decreases e,
{
    let name = copy_string(&e.name);
    let attributes = copy_dict(&e.attributes);
    let content = copy_contents(&e.content);
    Element { name, attributes, content }
}

pub fn copy_contents(c: &Vec<ElementContentType>) -> (r: Vec<ElementContentType>)
    ensures
        contents_view(r@) == contents_view(c@),
    decreases c,
{
    let mut r: Vec<ElementContentType> = Vec::new();
    let mut i: usize = 0;
    while i < c.len()
        invariant
            i <= c@.len(),
            contents_view(r@) == contents_view(c@.subrange(0, i as int)),
        decreases c@.len() - i,
    {
        assert(decreases_to!(c => c@[i as int]));
        let x = match &c[i] {
            ElementContentType::Children(e) => ElementContentType::Children(copy_element(e)),
            ElementContentType::Content(s) => ElementContentType::Content(copy_string(s)),
        };
        proof {
            lemma_contents_view_push(r@, x);
            lemma_contents_view(c@.subrange(0, i as int));
            lemma_contents_view(c@.subrange(0, i + 1));
        }
        r.push(x);
        i = i + 1;
        assert(contents_view(r@) =~= contents_view(c@.subrange(0, i as int)));
    }
    assert(c@.subrange(0, c@.len() as int) =~= c@);
    r
}

} // verus!
