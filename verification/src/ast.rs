//! The syntax tree of a DioScript program, and its mathematical model.
use std::rc::Rc;

use vstd::prelude::*;

use crate::text::{append, chars_of, copy_string, push_char, push_str};

verus! {

broadcast use vstd::string::group_string_axioms;

/// A parsed program: its statements in source order.
#[derive(Debug, PartialEq)]
pub struct DioscriptAst {
    pub stats: Vec<DioAstStatement>,
}

#[derive(Debug, PartialEq)]
pub enum DioAstStatement {
    VariableAss(VariableDefine),
    ReturnValue(CalcExpr),
    IfStatement(ConditionalStatement),
    LoopStatement(LoopStatement),
    LineComment(String),
    FunctionCall(FunctionCall),
    FunctionDefine(Rc<FunctionDefine>),
    CalcExpr(CalcExpr),
    ModuleUse(UseStatement),
}

/// `let name = expr;` (with `new` set) or `name = expr;`.
#[derive(Debug, PartialEq)]
pub struct VariableDefine {
    pub new: bool,
    pub name: String,
    pub expr: CalcExpr,
}

#[derive(Debug, PartialEq)]
pub struct FunctionCall {
    pub name: FunctionName,
    pub arguments: Vec<CalcExpr>,
}

#[derive(Debug, PartialEq)]
pub enum FunctionName {
    Single(String),
    Namespace(Vec<String>),
}

#[derive(Debug, PartialEq)]
pub struct FunctionDefine {
    pub name: Option<String>,
    pub params: Vec<String>,
    pub variadic_param: Option<String>,
    pub inner: Vec<DioAstStatement>,
}

#[derive(Debug, PartialEq)]
pub struct ConditionalStatement {
    pub condition: CalcExpr,
    pub inner: Vec<DioAstStatement>,
    pub otherwise: Option<Vec<DioAstStatement>>,
}

#[derive(Debug, PartialEq)]
pub struct LoopStatement {
    pub execute_type: LoopExecuteType,
    pub inner: Vec<DioAstStatement>,
}

/// `use a::b::c;`: the path of a module.
#[derive(Debug, PartialEq)]
pub struct UseStatement(pub Vec<String>);

#[derive(Debug, PartialEq)]
pub enum LoopExecuteType {
    Conditional(CalcExpr),
    Iter { iter: CalcExpr, var: String },
}

/// A binary operator of the expression language.
#[derive(Debug, Clone, Copy, PartialEq, Eq, Structural)]
pub enum CalculateMark {
    NoOp,
    Plus,
    Minus,
    Multiply,
    Divide,
    Mod,
    Equal,
    NotEqual,
    Large,
    Small,
    LargeOrEqual,
    SmallOrEqual,
    And,
    Or,
}

#[derive(Debug, PartialEq)]
pub enum CalcExpr {
    Value(AstValue),
    LinkExpr(LinkExpr),
    Add(Box<CalcExpr>, Box<CalcExpr>),
    Sub(Box<CalcExpr>, Box<CalcExpr>),
    Mul(Box<CalcExpr>, Box<CalcExpr>),
    Div(Box<CalcExpr>, Box<CalcExpr>),
    Mod(Box<CalcExpr>, Box<CalcExpr>),
    Eq(Box<CalcExpr>, Box<CalcExpr>),
    Ne(Box<CalcExpr>, Box<CalcExpr>),
    Gt(Box<CalcExpr>, Box<CalcExpr>),
    Lt(Box<CalcExpr>, Box<CalcExpr>),
    Ge(Box<CalcExpr>, Box<CalcExpr>),
    Le(Box<CalcExpr>, Box<CalcExpr>),
    And(Box<CalcExpr>, Box<CalcExpr>),
    Or(Box<CalcExpr>, Box<CalcExpr>),
}

/// `value.part.part...`: field reads and method calls chained on a value.
#[derive(Debug, PartialEq)]
pub struct LinkExpr {
    pub this: AstValue,
    pub list: Vec<LinkExprPart>,
}

#[derive(Debug, PartialEq)]
pub enum LinkExprPart {
    Field(String),
    FunctionCall(FunctionCall),
}

/// A literal or a primary term. Numbers are integers.
#[derive(Debug, PartialEq)]
pub enum AstValue {
    Null,
    String(String),
    Number(i64),
    Boolean(bool),
    List(Vec<CalcExpr>),
    Dict(Vec<(String, CalcExpr)>),
    Tuple((Box<CalcExpr>, Box<CalcExpr>)),
    Element(AstElement),
    Variable(String),
    VariableIndex((String, Box<CalcExpr>)),
    FunctionCaller(FunctionCall),
    FunctionDefine(Rc<FunctionDefine>),
    Reference(String),
}

/// `name { attr: value, content, ... }`; attribute names are distinct.
#[derive(Debug, PartialEq)]
pub struct AstElement {
    pub name: String,
    pub attributes: Vec<(String, AstValue)>,
    pub content: Vec<AstElementContentType>,
}

#[derive(Debug, PartialEq)]
pub enum AstElementContentType {
    Children(AstElement),
    Content(String),
    Condition(ConditionalStatement),
    Loop(LoopStatement),
    InlineExpr(CalcExpr),
}

// ---------------------------------------------------------------------------
// The model of the syntax tree: the same shape, with character sequences in
// place of strings and one binary-operator node for all operators.
// ---------------------------------------------------------------------------

pub enum SpecStmt {
    VariableAss { new: bool, name: Seq<char>, expr: SpecExpr },
    ReturnValue(SpecExpr),
    IfStatement(SpecCond),
    LoopStatement(SpecLoop),
    LineComment(Seq<char>),
    FunctionCall(SpecCall),
    FunctionDefine(SpecFnDefine),
    CalcExpr(SpecExpr),
    ModuleUse(Seq<Seq<char>>),
}

pub struct SpecCall {
    pub name: SpecFnName,
    pub arguments: Seq<SpecExpr>,
}

pub enum SpecFnName {
    Single(Seq<char>),
    Namespace(Seq<Seq<char>>),
}

pub struct SpecFnDefine {
    pub name: Option<Seq<char>>,
    pub params: Seq<Seq<char>>,
    pub variadic_param: Option<Seq<char>>,
    pub inner: Seq<SpecStmt>,
}

pub struct SpecCond {
    pub condition: SpecExpr,
    pub inner: Seq<SpecStmt>,
    pub otherwise: Option<Seq<SpecStmt>>,
}

pub struct SpecLoop {
    pub kind: SpecLoopKind,
    pub inner: Seq<SpecStmt>,
}

pub enum SpecLoopKind {
    Conditional(SpecExpr),
    Iter { iter: SpecExpr, var: Seq<char> },
}

pub enum SpecExpr {
    Value(SpecAstValue),
    Link { this: SpecAstValue, list: Seq<SpecLinkPart> },
    Binary(CalculateMark, Box<SpecExpr>, Box<SpecExpr>),
}

pub enum SpecLinkPart {
    Field(Seq<char>),
    Call(SpecCall),
}

pub enum SpecAstValue {
    Null,
    String(Seq<char>),
    Number(i64),
    Boolean(bool),
    List(Seq<SpecExpr>),
    Dict(Seq<(Seq<char>, SpecExpr)>),
    Tuple(Box<SpecExpr>, Box<SpecExpr>),
    Element(SpecAstElement),
    Variable(Seq<char>),
    VariableIndex(Seq<char>, Box<SpecExpr>),
    FunctionCaller(SpecCall),
    FunctionDefine(SpecFnDefine),
    Reference(Seq<char>),
}

pub struct SpecAstElement {
    pub name: Seq<char>,
    pub attributes: Seq<(Seq<char>, SpecAstValue)>,
    pub content: Seq<SpecAstContent>,
}

pub enum SpecAstContent {
    Children(SpecAstElement),
    Content(Seq<char>),
    Condition(SpecCond),
    Loop(SpecLoop),
    InlineExpr(SpecExpr),
}

// ---------------------------------------------------------------------------
// Views
// ---------------------------------------------------------------------------

/// The characters of each string in a sequence.
pub open spec fn strings_view(s: Seq<String>) -> Seq<Seq<char>> {
    Seq::new(s.len(), |i: int| s[i]@)
}

pub open spec fn opt_string_view(s: Option<String>) -> Option<Seq<char>> {
    match s {
        Some(x) => Some(x@),
        None => None,
    }
}

pub open spec fn stmts_view(s: Seq<DioAstStatement>) -> Seq<SpecStmt>
    decreases s,
{
    if s.len() == 0 {
        Seq::empty()
    } else {
        seq![stmt_view(s[0])] + stmts_view(s.drop_first())
    }
}

pub open spec fn stmt_view(s: DioAstStatement) -> SpecStmt
    decreases s,
{
    match s {
        DioAstStatement::VariableAss(v) => SpecStmt::VariableAss {
            new: v.new,
            name: v.name@,
            expr: expr_view(v.expr),
        },
        DioAstStatement::ReturnValue(e) => SpecStmt::ReturnValue(expr_view(e)),
        DioAstStatement::IfStatement(c) => SpecStmt::IfStatement(cond_view(c)),
        DioAstStatement::LoopStatement(l) => SpecStmt::LoopStatement(loop_view(l)),
        DioAstStatement::LineComment(c) => SpecStmt::LineComment(c@),
        DioAstStatement::FunctionCall(c) => SpecStmt::FunctionCall(call_view(c)),
        DioAstStatement::FunctionDefine(d) => SpecStmt::FunctionDefine(define_view(*d)),
        DioAstStatement::CalcExpr(e) => SpecStmt::CalcExpr(expr_view(e)),
        DioAstStatement::ModuleUse(u) => SpecStmt::ModuleUse(strings_view(u.0@)),
    }
}

pub open spec fn cond_view(c: ConditionalStatement) -> SpecCond
    decreases c,
{
    SpecCond {
        condition: expr_view(c.condition),
        inner: stmts_view(c.inner@),
        otherwise: match c.otherwise {
            Some(o) => Some(stmts_view(o@)),
            None => None,
        },
    }
}

pub open spec fn loop_view(l: LoopStatement) -> SpecLoop
    decreases l,
{
    SpecLoop {
        kind: match l.execute_type {
            LoopExecuteType::Conditional(e) => SpecLoopKind::Conditional(expr_view(e)),
            LoopExecuteType::Iter { iter, var } => SpecLoopKind::Iter {
                iter: expr_view(iter),
                var: var@,
            },
        },
        inner: stmts_view(l.inner@),
    }
}

pub open spec fn name_view(n: FunctionName) -> SpecFnName {
    match n {
        FunctionName::Single(s) => SpecFnName::Single(s@),
        FunctionName::Namespace(v) => SpecFnName::Namespace(strings_view(v@)),
    }
}

pub open spec fn call_view(c: FunctionCall) -> SpecCall
    decreases c,
{
    SpecCall { name: name_view(c.name), arguments: exprs_view(c.arguments@) }
}

pub open spec fn define_view(d: FunctionDefine) -> SpecFnDefine
    decreases d,
{
    SpecFnDefine {
        name: opt_string_view(d.name),
        params: strings_view(d.params@),
        variadic_param: opt_string_view(d.variadic_param),
        inner: stmts_view(d.inner@),
    }
}

pub open spec fn exprs_view(s: Seq<CalcExpr>) -> Seq<SpecExpr>
    decreases s,
{
    if s.len() == 0 {
        Seq::empty()
    } else {
        seq![expr_view(s[0])] + exprs_view(s.drop_first())
    }
}

pub open spec fn binary(m: CalculateMark, l: CalcExpr, r: CalcExpr) -> SpecExpr
    decreases l, r,
{
    SpecExpr::Binary(m, Box::new(expr_view(l)), Box::new(expr_view(r)))
}

pub open spec fn expr_view(e: CalcExpr) -> SpecExpr
    decreases e,
{
    match e {
        CalcExpr::Value(v) => SpecExpr::Value(ast_value_view(v)),
        CalcExpr::LinkExpr(l) => SpecExpr::Link {
            this: ast_value_view(l.this),
            list: link_parts_view(l.list@),
        },
        CalcExpr::Add(a, b) => SpecExpr::Binary(
            CalculateMark::Plus,
            Box::new(expr_view(*a)),
            Box::new(expr_view(*b)),
        ),
        CalcExpr::Sub(a, b) => SpecExpr::Binary(
            CalculateMark::Minus,
            Box::new(expr_view(*a)),
            Box::new(expr_view(*b)),
        ),
        CalcExpr::Mul(a, b) => SpecExpr::Binary(
            CalculateMark::Multiply,
            Box::new(expr_view(*a)),
            Box::new(expr_view(*b)),
        ),
        CalcExpr::Div(a, b) => SpecExpr::Binary(
            CalculateMark::Divide,
            Box::new(expr_view(*a)),
            Box::new(expr_view(*b)),
        ),
        CalcExpr::Mod(a, b) => SpecExpr::Binary(
            CalculateMark::Mod,
            Box::new(expr_view(*a)),
            Box::new(expr_view(*b)),
        ),
        CalcExpr::Eq(a, b) => SpecExpr::Binary(
            CalculateMark::Equal,
            Box::new(expr_view(*a)),
            Box::new(expr_view(*b)),
        ),
        CalcExpr::Ne(a, b) => SpecExpr::Binary(
            CalculateMark::NotEqual,
            Box::new(expr_view(*a)),
            Box::new(expr_view(*b)),
        ),
        CalcExpr::Gt(a, b) => SpecExpr::Binary(
            CalculateMark::Large,
            Box::new(expr_view(*a)),
            Box::new(expr_view(*b)),
        ),
        CalcExpr::Lt(a, b) => SpecExpr::Binary(
            CalculateMark::Small,
            Box::new(expr_view(*a)),
            Box::new(expr_view(*b)),
        ),
        CalcExpr::Ge(a, b) => SpecExpr::Binary(
            CalculateMark::LargeOrEqual,
            Box::new(expr_view(*a)),
            Box::new(expr_view(*b)),
        ),
        CalcExpr::Le(a, b) => SpecExpr::Binary(
            CalculateMark::SmallOrEqual,
            Box::new(expr_view(*a)),
            Box::new(expr_view(*b)),
        ),
        CalcExpr::And(a, b) => SpecExpr::Binary(
            CalculateMark::And,
            Box::new(expr_view(*a)),
            Box::new(expr_view(*b)),
        ),
        CalcExpr::Or(a, b) => SpecExpr::Binary(
            CalculateMark::Or,
            Box::new(expr_view(*a)),
            Box::new(expr_view(*b)),
        ),
    }
}

pub open spec fn link_parts_view(s: Seq<LinkExprPart>) -> Seq<SpecLinkPart>
    decreases s,
{
    if s.len() == 0 {
        Seq::empty()
    } else {
        seq![
            match s[0] {
                LinkExprPart::Field(f) => SpecLinkPart::Field(f@),
                LinkExprPart::FunctionCall(c) => SpecLinkPart::Call(call_view(c)),
            },
        ] + link_parts_view(s.drop_first())
    }
}

pub open spec fn link_part_view(p: LinkExprPart) -> SpecLinkPart {
    match p {
        LinkExprPart::Field(f) => SpecLinkPart::Field(f@),
        LinkExprPart::FunctionCall(c) => SpecLinkPart::Call(call_view(c)),
    }
}

pub open spec fn ast_content_view(c: AstElementContentType) -> SpecAstContent {
    match c {
        AstElementContentType::Children(e) => SpecAstContent::Children(ast_element_view(e)),
        AstElementContentType::Content(c) => SpecAstContent::Content(c@),
        AstElementContentType::Condition(c) => SpecAstContent::Condition(cond_view(c)),
        AstElementContentType::Loop(l) => SpecAstContent::Loop(loop_view(l)),
        AstElementContentType::InlineExpr(e) => SpecAstContent::InlineExpr(expr_view(e)),
    }
}

pub open spec fn dict_exprs_view(s: Seq<(String, CalcExpr)>) -> Seq<(Seq<char>, SpecExpr)>
    decreases s,
{
    if s.len() == 0 {
        Seq::empty()
    } else {
        seq![(s[0].0@, expr_view(s[0].1))] + dict_exprs_view(s.drop_first())
    }
}

pub open spec fn ast_value_view(v: AstValue) -> SpecAstValue
    decreases v,
{
    match v {
        AstValue::Null => SpecAstValue::Null,
        AstValue::String(s) => SpecAstValue::String(s@),
        AstValue::Number(n) => SpecAstValue::Number(n),
        AstValue::Boolean(b) => SpecAstValue::Boolean(b),
        AstValue::List(l) => SpecAstValue::List(exprs_view(l@)),
        AstValue::Dict(d) => SpecAstValue::Dict(dict_exprs_view(d@)),
        AstValue::Tuple((a, b)) => SpecAstValue::Tuple(
            Box::new(expr_view(*a)),
            Box::new(expr_view(*b)),
        ),
        AstValue::Element(e) => SpecAstValue::Element(ast_element_view(e)),
        AstValue::Variable(n) => SpecAstValue::Variable(n@),
        AstValue::VariableIndex((n, i)) => SpecAstValue::VariableIndex(
            n@,
            Box::new(expr_view(*i)),
        ),
        AstValue::FunctionCaller(c) => SpecAstValue::FunctionCaller(call_view(c)),
        AstValue::FunctionDefine(d) => SpecAstValue::FunctionDefine(define_view(*d)),
        AstValue::Reference(n) => SpecAstValue::Reference(n@),
    }
}

pub open spec fn attrs_ast_view(s: Seq<(String, AstValue)>) -> Seq<(Seq<char>, SpecAstValue)>
    decreases s,
{
    if s.len() == 0 {
        Seq::empty()
    } else {
        seq![(s[0].0@, ast_value_view(s[0].1))] + attrs_ast_view(s.drop_first())
    }
}

pub open spec fn ast_element_view(e: AstElement) -> SpecAstElement
    decreases e,
{
    SpecAstElement {
        name: e.name@,
        attributes: attrs_ast_view(e.attributes@),
        content: ast_contents_view(e.content@),
    }
}

pub open spec fn ast_contents_view(s: Seq<AstElementContentType>) -> Seq<SpecAstContent>
    decreases s,
{
    if s.len() == 0 {
        Seq::empty()
    } else {
        seq![
            match s[0] {
                AstElementContentType::Children(e) => SpecAstContent::Children(
                    ast_element_view(e),
                ),
                AstElementContentType::Content(c) => SpecAstContent::Content(c@),
                AstElementContentType::Condition(c) => SpecAstContent::Condition(cond_view(c)),
                AstElementContentType::Loop(l) => SpecAstContent::Loop(loop_view(l)),
                AstElementContentType::InlineExpr(e) => SpecAstContent::InlineExpr(expr_view(e)),
            },
        ] + ast_contents_view(s.drop_first())
    }
}

impl View for DioscriptAst {
    type V = Seq<SpecStmt>;

    open spec fn view(&self) -> Seq<SpecStmt> {
        stmts_view(self.stats@)
    }
}

impl View for CalcExpr {
    type V = SpecExpr;

    open spec fn view(&self) -> SpecExpr {
        expr_view(*self)
    }
}

impl View for AstValue {
    type V = SpecAstValue;

    open spec fn view(&self) -> SpecAstValue {
        ast_value_view(*self)
    }
}

impl AstValue {
    /// The name of the kind of literal or expression this value is.
    pub fn value_name(&self) -> (r: String)
        ensures
            r@ == ast_value_name(self@),
    {
        let t = match self {
            AstValue::Null => "none",
            AstValue::String(_) => "string",
            AstValue::Number(_) => "number",
            AstValue::Boolean(_) => "boolean",
            AstValue::List(_) => "list",
            AstValue::Dict(_) => "dict",
            AstValue::Tuple(_) => "tuple",
            AstValue::Element(_) => "element",
            AstValue::Variable(_) => "variable",
            AstValue::VariableIndex(_) => "variable[index]",
            AstValue::FunctionCaller(_) => "call[func]",
            AstValue::FunctionDefine(_) => "def[func]",
            AstValue::Reference(_) => "reference",
        };
        t.to_string()
    }

    /// Whether the value is the `none` literal.
    pub fn as_none(&self) -> (r: bool)
        ensures
            r == (self@ is Null),
    {
        matches!(self, AstValue::Null)
    }

    /// The text of a string literal.
    pub fn as_string(&self) -> (r: Option<String>)
        ensures
            r matches Some(t) ==> self@ == SpecAstValue::String(t@),
            r is None <==> !(self@ is String),
    {
        match self {
            AstValue::String(t) => Some(copy_string(t)),
            _ => None,
        }
    }

    /// The number of a number literal.
    pub fn as_number(&self) -> (r: Option<i64>)
        ensures
            r matches Some(n) ==> self@ == SpecAstValue::Number(n),
            r is None <==> !(self@ is Number),
    {
        match self {
            AstValue::Number(n) => Some(*n),
            _ => None,
        }
    }

    /// The truth of a boolean literal.
    pub fn as_boolean(&self) -> (r: Option<bool>)
        ensures
            r matches Some(b) ==> self@ == SpecAstValue::Boolean(b),
            r is None <==> !(self@ is Boolean),
    {
        match self {
            AstValue::Boolean(b) => Some(*b),
            _ => None,
        }
    }

    /// The items of a list literal.
    pub fn as_list(&self) -> (r: Option<&Vec<CalcExpr>>)
        ensures
            r matches Some(xs) ==> self@ == SpecAstValue::List(exprs_view(xs@)),
            r is None <==> !(self@ is List),
    {
        match self {
            AstValue::List(xs) => Some(xs),
            _ => None,
        }
    }

    /// The entries of a dictionary literal.
    pub fn as_dict(&self) -> (r: Option<&Vec<(String, CalcExpr)>>)
        ensures
            r matches Some(d) ==> self@ == SpecAstValue::Dict(dict_exprs_view(d@)),
            r is None <==> !(self@ is Dict),
    {
        match self {
            AstValue::Dict(d) => Some(d),
            _ => None,
        }
    }

    /// The two parts of a tuple literal.
    pub fn as_tuple(&self) -> (r: Option<&(Box<CalcExpr>, Box<CalcExpr>)>)
        ensures
            r matches Some(t) ==> self@ == SpecAstValue::Tuple(
                Box::new(expr_view(*t.0)),
                Box::new(expr_view(*t.1)),
            ),
            r is None <==> !(self@ is Tuple),
    {
        match self {
            AstValue::Tuple(t) => Some(t),
            _ => None,
        }
    }

    /// An element literal.
    pub fn as_element(&self) -> (r: Option<&AstElement>)
        ensures
            r matches Some(e) ==> self@ == SpecAstValue::Element(ast_element_view(*e)),
            r is None <==> !(self@ is Element),
    {
        match self {
            AstValue::Element(e) => Some(e),
            _ => None,
        }
    }

    /// The name of a variable.
    pub fn as_variable(&self) -> (r: Option<String>)
        ensures
            r matches Some(t) ==> self@ == SpecAstValue::Variable(t@),
            r is None <==> !(self@ is Variable),
    {
        match self {
            AstValue::Variable(t) => Some(copy_string(t)),
            _ => None,
        }
    }
}

/// The name of the kind of an AST value.
pub open spec fn ast_value_name(v: SpecAstValue) -> Seq<char> {
    match v {
        SpecAstValue::Null => "none"@,
        SpecAstValue::String(_) => "string"@,
        SpecAstValue::Number(_) => "number"@,
        SpecAstValue::Boolean(_) => "boolean"@,
        SpecAstValue::List(_) => "list"@,
        SpecAstValue::Dict(_) => "dict"@,
        SpecAstValue::Tuple(_, _) => "tuple"@,
        SpecAstValue::Element(_) => "element"@,
        SpecAstValue::Variable(_) => "variable"@,
        SpecAstValue::VariableIndex(_, _) => "variable[index]"@,
        SpecAstValue::FunctionCaller(_) => "call[func]"@,
        SpecAstValue::FunctionDefine(_) => "def[func]"@,
        SpecAstValue::Reference(_) => "reference"@,
    }
}

impl View for FunctionDefine {
    type V = SpecFnDefine;

    open spec fn view(&self) -> SpecFnDefine {
        define_view(*self)
    }
}

// ---------------------------------------------------------------------------
// Operators and function names
// ---------------------------------------------------------------------------

/// The source symbol of each operator; `none` for the absent operator.
pub open spec fn mark_symbol(m: CalculateMark) -> Seq<char> {
    match m {
        CalculateMark::NoOp => seq!['n', 'o', 'n', 'e'],
        CalculateMark::Plus => seq!['+'],
        CalculateMark::Minus => seq!['-'],
        CalculateMark::Multiply => seq!['*'],
        CalculateMark::Divide => seq!['/'],
        CalculateMark::Mod => seq!['%'],
        CalculateMark::Equal => seq!['=', '='],
        CalculateMark::NotEqual => seq!['!', '='],
        CalculateMark::Large => seq!['>'],
        CalculateMark::Small => seq!['<'],
        CalculateMark::LargeOrEqual => seq!['>', '='],
        CalculateMark::SmallOrEqual => seq!['<', '='],
        CalculateMark::And => seq!['&', '&'],
        CalculateMark::Or => seq!['|', '|'],
    }
}

/// Whether `s` is the one-character symbol `a`.
pub open spec fn is_sym1(s: Seq<char>, a: char) -> bool {
    s.len() == 1 && s[0] == a
}

/// Whether `s` is the two-character symbol `a b`.
pub open spec fn is_sym2(s: Seq<char>, a: char, b: char) -> bool {
    s.len() == 2 && s[0] == a && s[1] == b
}

/// The operator whose symbol is `s`; `NoOp` when no operator has it.
pub open spec fn mark_of_symbol(s: Seq<char>) -> CalculateMark {
    if is_sym1(s, '+') {
        CalculateMark::Plus
    } else if is_sym1(s, '-') {
        CalculateMark::Minus
    } else if is_sym1(s, '*') {
        CalculateMark::Multiply
    } else if is_sym1(s, '/') {
        CalculateMark::Divide
    } else if is_sym1(s, '%') {
        CalculateMark::Mod
    } else if is_sym2(s, '=', '=') {
        CalculateMark::Equal
    } else if is_sym2(s, '!', '=') {
        CalculateMark::NotEqual
    } else if is_sym1(s, '>') {
        CalculateMark::Large
    } else if is_sym1(s, '<') {
        CalculateMark::Small
    } else if is_sym2(s, '>', '=') {
        CalculateMark::LargeOrEqual
    } else if is_sym2(s, '<', '=') {
        CalculateMark::SmallOrEqual
    } else if is_sym2(s, '&', '&') {
        CalculateMark::And
    } else if is_sym2(s, '|', '|') {
        CalculateMark::Or
    } else {
        CalculateMark::NoOp
    }
}

/// Every operator other than `NoOp` is read back from its own symbol.
pub proof fn lemma_mark_symbol_roundtrip(m: CalculateMark)
    requires
        m != CalculateMark::NoOp,
    ensures
        mark_of_symbol(mark_symbol(m)) == m,
{
}

fn chars_are(v: &Vec<char>, a: char, b: char, n: usize) -> (r: bool)
    requires
        1 <= n <= 2,
    ensures
        r == (if n == 1 {
            is_sym1(v@, a)
        } else {
            is_sym2(v@, a, b)
        }),
{
    if n == 1 {
        v.len() == 1 && v[0] == a
    } else {
        v.len() == 2 && v[0] == a && v[1] == b
    }
}

impl CalculateMark {
    /// The operator written by `s`; `CalculateMark::NoOp` for any other text.
    pub fn from_string(s: String) -> (r: Self)
        ensures
            r == mark_of_symbol(s@),
    {
        let v = chars_of(s.as_str());
        if chars_are(&v, '+', ' ', 1) {
            Self::Plus
        } else if chars_are(&v, '-', ' ', 1) {
            Self::Minus
        } else if chars_are(&v, '*', ' ', 1) {
            Self::Multiply
        } else if chars_are(&v, '/', ' ', 1) {
            Self::Divide
        } else if chars_are(&v, '%', ' ', 1) {
            Self::Mod
        } else if chars_are(&v, '=', '=', 2) {
            Self::Equal
        } else if chars_are(&v, '!', '=', 2) {
            Self::NotEqual
        } else if chars_are(&v, '>', ' ', 1) {
            Self::Large
        } else if chars_are(&v, '<', ' ', 1) {
            Self::Small
        } else if chars_are(&v, '>', '=', 2) {
            Self::LargeOrEqual
        } else if chars_are(&v, '<', '=', 2) {
            Self::SmallOrEqual
        } else if chars_are(&v, '&', '&', 2) {
            Self::And
        } else if chars_are(&v, '|', '|', 2) {
            Self::Or
        } else {
            Self::NoOp
        }
    }

    /// The operator's source symbol (`none` for `CalculateMark::NoOp`).
    pub fn to_string(&self) -> (r: String)
        ensures
            r@ == mark_symbol(*self),
    {
        let mut s = String::new();
        match self {
            CalculateMark::NoOp => {
                push_char(&mut s, 'n');
                push_char(&mut s, 'o');
                push_char(&mut s, 'n');
                push_char(&mut s, 'e');
            },
            CalculateMark::Plus => push_char(&mut s, '+'),
            CalculateMark::Minus => push_char(&mut s, '-'),
            CalculateMark::Multiply => push_char(&mut s, '*'),
            CalculateMark::Divide => push_char(&mut s, '/'),
            CalculateMark::Mod => push_char(&mut s, '%'),
            CalculateMark::Equal => {
                push_char(&mut s, '=');
                push_char(&mut s, '=');
            },
            CalculateMark::NotEqual => {
                push_char(&mut s, '!');
                push_char(&mut s, '=');
            },
            CalculateMark::Large => push_char(&mut s, '>'),
            CalculateMark::Small => push_char(&mut s, '<'),
            CalculateMark::LargeOrEqual => {
                push_char(&mut s, '>');
                push_char(&mut s, '=');
            },
            CalculateMark::SmallOrEqual => {
                push_char(&mut s, '<');
                push_char(&mut s, '=');
            },
            CalculateMark::And => {
                push_char(&mut s, '&');
                push_char(&mut s, '&');
            },
            CalculateMark::Or => {
                push_char(&mut s, '|');
                push_char(&mut s, '|');
            },
        }
        assert(s@ =~= mark_symbol(*self));
        s
    }
}

/// The parts joined with `sep` between consecutive parts.
pub open spec fn join_with(parts: Seq<Seq<char>>, sep: Seq<char>) -> Seq<char>
    decreases parts.len(),
{
    if parts.len() == 0 {
        Seq::empty()
    } else if parts.len() == 1 {
        parts[0]
    } else {
        join_with(parts.drop_last(), sep) + sep + parts.last()
    }
}

/// The text of a function name: the name itself, or the path joined by `::`.
pub open spec fn fn_name_text(n: SpecFnName) -> Seq<char> {
    match n {
        SpecFnName::Single(s) => s,
        SpecFnName::Namespace(p) => join_with(p, seq![':', ':']),
    }
}

/// Joins strings with a separator.
pub fn join_strings(parts: &Vec<String>, sep: &str) -> (r: String)
    ensures
        r@ == join_with(strings_view(parts@), sep@),
{
    let mut r = String::new();
    let mut i: usize = 0;
    while i < parts.len()
        invariant
            i <= parts@.len(),
            r@ == join_with(strings_view(parts@.subrange(0, i as int)), sep@),
        decreases parts@.len() - i,
    {
        let ghost before = strings_view(parts@.subrange(0, i as int));
        if i > 0 {
            push_str(&mut r, sep);
        }
        append(&mut r, &parts[i]);
        i = i + 1;
        proof {
            let now = strings_view(parts@.subrange(0, i as int));
            assert(now.drop_last() =~= before);
            assert(now.last() == parts@[i - 1]@);
            if i == 1 {
                assert(before.len() == 0);
                assert(r@ =~= now[0]);
            }
        }
    }
    assert(parts@.subrange(0, parts@.len() as int) =~= parts@);
    r
}

impl FunctionName {
    /// The name as written: `f`, or `a::b::f` for a namespaced name.
    pub fn as_single(&self) -> (r: String)
        ensures
            r@ == fn_name_text(name_view(*self)),
    {
        match self {
            FunctionName::Single(s) => {
                let r = copy_string(s);
                assert(name_view(*self) == SpecFnName::Single(s@));
                r
            },
            FunctionName::Namespace(n) => {
                proof {
                    reveal_strlit("::");
                }
                assert("::"@ =~= seq![':', ':']);
                join_strings(n, "::")
            },
        }
    }
}


pub proof fn lemma_exprs_view(s: Seq<CalcExpr>)
    ensures
        exprs_view(s).len() == s.len(),
        forall|i: int| 0 <= i < s.len() ==> #[trigger] exprs_view(s)[i] == expr_view(s[i]),
    decreases s.len(),
{
    if s.len() > 0 {
        lemma_exprs_view(s.drop_first());
        assert forall|i: int| 0 <= i < s.len() implies #[trigger] exprs_view(s)[i] == expr_view(s[i]) by {
            if i > 0 {
                assert(s.drop_first()[i - 1] == s[i]);
            }
        }
    }
}

pub proof fn lemma_exprs_view_push(s: Seq<CalcExpr>, x: CalcExpr)
    ensures
        exprs_view(s.push(x)) == exprs_view(s).push(expr_view(x)),
{
    lemma_exprs_view(s);
    lemma_exprs_view(s.push(x));
    assert(exprs_view(s.push(x)) =~= exprs_view(s).push(expr_view(x)));
}

pub proof fn lemma_stmts_view(s: Seq<DioAstStatement>)
    ensures
        stmts_view(s).len() == s.len(),
        forall|i: int| 0 <= i < s.len() ==> #[trigger] stmts_view(s)[i] == stmt_view(s[i]),
    decreases s.len(),
{
    if s.len() > 0 {
        lemma_stmts_view(s.drop_first());
        assert forall|i: int| 0 <= i < s.len() implies #[trigger] stmts_view(s)[i] == stmt_view(s[i]) by {
            if i > 0 {
                assert(s.drop_first()[i - 1] == s[i]);
            }
        }
    }
}

pub proof fn lemma_stmts_view_push(s: Seq<DioAstStatement>, x: DioAstStatement)
    ensures
        stmts_view(s.push(x)) == stmts_view(s).push(stmt_view(x)),
{
    lemma_stmts_view(s);
    lemma_stmts_view(s.push(x));
    assert(stmts_view(s.push(x)) =~= stmts_view(s).push(stmt_view(x)));
}

pub proof fn lemma_link_parts_view(s: Seq<LinkExprPart>)
    ensures
        link_parts_view(s).len() == s.len(),
        forall|i: int| 0 <= i < s.len() ==> #[trigger] link_parts_view(s)[i] == link_part_view(s[i]),
    decreases s.len(),
{
    if s.len() > 0 {
        lemma_link_parts_view(s.drop_first());
        assert forall|i: int| 0 <= i < s.len() implies #[trigger] link_parts_view(s)[i] == link_part_view(s[i]) by {
            if i > 0 {
                assert(s.drop_first()[i - 1] == s[i]);
            }
        }
    }
}

pub proof fn lemma_link_parts_view_push(s: Seq<LinkExprPart>, x: LinkExprPart)
    ensures
        link_parts_view(s.push(x)) == link_parts_view(s).push(link_part_view(x)),
{
    lemma_link_parts_view(s);
    lemma_link_parts_view(s.push(x));
    assert(link_parts_view(s.push(x)) =~= link_parts_view(s).push(link_part_view(x)));
}

pub proof fn lemma_dict_exprs_view(s: Seq<(String, CalcExpr)>)
    ensures
        dict_exprs_view(s).len() == s.len(),
        forall|i: int| 0 <= i < s.len() ==> #[trigger] dict_exprs_view(s)[i] == (s[i].0@, expr_view(s[i].1)),
    decreases s.len(),
{
    if s.len() > 0 {
        lemma_dict_exprs_view(s.drop_first());
        assert forall|i: int| 0 <= i < s.len() implies #[trigger] dict_exprs_view(s)[i] == (s[i].0@, expr_view(s[i].1)) by {
            if i > 0 {
                assert(s.drop_first()[i - 1] == s[i]);
            }
        }
    }
}

pub proof fn lemma_dict_exprs_view_push(s: Seq<(String, CalcExpr)>, x: (String, CalcExpr))
    ensures
        dict_exprs_view(s.push(x)) == dict_exprs_view(s).push((x.0@, expr_view(x.1))),
{
    lemma_dict_exprs_view(s);
    lemma_dict_exprs_view(s.push(x));
    assert(dict_exprs_view(s.push(x)) =~= dict_exprs_view(s).push((x.0@, expr_view(x.1))));
}

pub proof fn lemma_attrs_ast_view(s: Seq<(String, AstValue)>)
    ensures
        attrs_ast_view(s).len() == s.len(),
        forall|i: int| 0 <= i < s.len() ==> #[trigger] attrs_ast_view(s)[i] == (s[i].0@, ast_value_view(s[i].1)),
    decreases s.len(),
{
    if s.len() > 0 {
        lemma_attrs_ast_view(s.drop_first());
        assert forall|i: int| 0 <= i < s.len() implies #[trigger] attrs_ast_view(s)[i] == (s[i].0@, ast_value_view(s[i].1)) by {
            if i > 0 {
                assert(s.drop_first()[i - 1] == s[i]);
            }
        }
    }
}

pub proof fn lemma_attrs_ast_view_push(s: Seq<(String, AstValue)>, x: (String, AstValue))
    ensures
        attrs_ast_view(s.push(x)) == attrs_ast_view(s).push((x.0@, ast_value_view(x.1))),
{
    lemma_attrs_ast_view(s);
    lemma_attrs_ast_view(s.push(x));
    assert(attrs_ast_view(s.push(x)) =~= attrs_ast_view(s).push((x.0@, ast_value_view(x.1))));
}

pub proof fn lemma_ast_contents_view(s: Seq<AstElementContentType>)
    ensures
        ast_contents_view(s).len() == s.len(),
        forall|i: int| 0 <= i < s.len() ==> #[trigger] ast_contents_view(s)[i] == ast_content_view(s[i]),
    decreases s.len(),
{
    if s.len() > 0 {
        lemma_ast_contents_view(s.drop_first());
        assert forall|i: int| 0 <= i < s.len() implies #[trigger] ast_contents_view(s)[i] == ast_content_view(s[i]) by {
            if i > 0 {
                assert(s.drop_first()[i - 1] == s[i]);
            }
        }
    }
}

pub proof fn lemma_ast_contents_view_push(s: Seq<AstElementContentType>, x: AstElementContentType)
    ensures
        ast_contents_view(s.push(x)) == ast_contents_view(s).push(ast_content_view(x)),
{
    lemma_ast_contents_view(s);
    lemma_ast_contents_view(s.push(x));
    assert(ast_contents_view(s.push(x)) =~= ast_contents_view(s).push(ast_content_view(x)));
}

pub proof fn lemma_dict_exprs_view_update(s: Seq<(String, CalcExpr)>, i: int, x: (String, CalcExpr))
    requires
        0 <= i < s.len(),
    ensures
        dict_exprs_view(s.update(i, x)) == dict_exprs_view(s).update(i, (x.0@, expr_view(x.1))),
{
    lemma_dict_exprs_view(s);
    lemma_dict_exprs_view(s.update(i, x));
    assert(dict_exprs_view(s.update(i, x)) =~= dict_exprs_view(s).update(i, (x.0@, expr_view(x.1))));
}

pub proof fn lemma_strings_view_push(s: Seq<String>, x: String)
    ensures
        strings_view(s.push(x)) == strings_view(s).push(x@),
{
    assert(strings_view(s.push(x)) =~= strings_view(s).push(x@));
}

} // verus!
