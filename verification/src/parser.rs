//! The parser: each function reads the text from a position and returns
//! what the grammar definition of the same name yields there.
use std::rc::Rc;

use vstd::prelude::*;

use crate::ast::{
    ast_content_view, ast_contents_view, ast_element_view, ast_value_view, attrs_ast_view,
    call_view, cond_view, define_view, dict_exprs_view, expr_view, exprs_view,
    lemma_ast_contents_view, lemma_ast_contents_view_push, lemma_attrs_ast_view,
    lemma_attrs_ast_view_push, lemma_dict_exprs_view, lemma_dict_exprs_view_push,
    lemma_dict_exprs_view_update, lemma_exprs_view_push, lemma_link_parts_view_push,
    lemma_stmts_view_push, lemma_strings_view_push, link_part_view, opt_string_view, link_parts_view, loop_view,
    stmt_view, stmts_view, strings_view, AstElement, AstElementContentType, AstValue, CalcExpr,
    CalculateMark, ConditionalStatement, DioAstStatement, DioscriptAst, FunctionCall,
    FunctionDefine, FunctionName, LinkExpr, LinkExprPart, LoopExecuteType, LoopStatement,
    SpecAstContent, SpecAstElement, SpecAstValue, SpecCall, SpecCond, SpecExpr, SpecFnDefine,
    SpecFnName, SpecLinkPart, SpecLoop, SpecLoopKind, SpecStmt, UseStatement, VariableDefine,
};
use crate::chars::{in_class, is_alpha, is_digit, skip, skip_exec, CharClass};
use crate::grammar::{
    add_op, attr_insert, attr_pair, block, boolean, braced_block, build_element, call,
    call_args, call_single, char_at, closing, cmp_op, comment, define, dict, dict_entry,
    dict_insert, dict_rest, digits_value, distinct_names, element, element_item, element_items,
    escape, expr, expr_or_rest, exprs_list, exprs_rest, factor, fn_path_rest, for_stmt, if_stmt,
    is_control, lemma_level_op, level, level_op, level_rest, line_end, link, link_part,
    link_rest, list, lit_at, lit_at_nocase, mk_binary, module_path_rest, mul_op, mws, number,
    param, params_list, params_rest, return_stmt, space_expr, spaced_expr, spaced_param,
    split_params, stmt, string_body, string_lit, tuple, use_stmt, value, var_define, var_index,
    var_name, while_stmt, word, ws, lower_is, ElementItem, PExpr, SpecParams,
};
use crate::text::{chars_of, copy_string, push_char, str_eq, trimmed, string_of_range, trim};
use crate::report::{failure_message, failure_text};
use crate::value::{find_key, key_index, lemma_key_index};
use crate::error::ParseError;

verus! {

broadcast use crate::chars::lemma_skip_bounds;

pub open spec fn pv_str(r: Option<(String, usize)>) -> Option<(Seq<char>, int)> {
    match r {
        Some((x, q)) => Some((x@, q as int)),
        None => None,
    }
}

pub open spec fn pv_expr(r: Option<(CalcExpr, usize)>) -> PExpr {
    match r {
        Some((x, q)) => Some((expr_view(x), q as int)),
        None => None,
    }
}

pub open spec fn pv_value(r: Option<(AstValue, usize)>) -> Option<(SpecAstValue, int)> {
    match r {
        Some((x, q)) => Some((ast_value_view(x), q as int)),
        None => None,
    }
}

pub open spec fn pv_call(r: Option<(FunctionCall, usize)>) -> Option<(SpecCall, int)> {
    match r {
        Some((x, q)) => Some((call_view(x), q as int)),
        None => None,
    }
}

pub open spec fn pv_define(r: Option<(FunctionDefine, usize)>) -> Option<(SpecFnDefine, int)> {
    match r {
        Some((x, q)) => Some((define_view(x), q as int)),
        None => None,
    }
}

pub open spec fn pv_cond(r: Option<(ConditionalStatement, usize)>) -> Option<(SpecCond, int)> {
    match r {
        Some((x, q)) => Some((cond_view(x), q as int)),
        None => None,
    }
}

pub open spec fn pv_loop(r: Option<(LoopStatement, usize)>) -> Option<(SpecLoop, int)> {
    match r {
        Some((x, q)) => Some((loop_view(x), q as int)),
        None => None,
    }
}

pub open spec fn pv_element(r: Option<(AstElement, usize)>) -> Option<(SpecAstElement, int)> {
    match r {
        Some((x, q)) => Some((ast_element_view(x), q as int)),
        None => None,
    }
}

pub open spec fn pv_stmt(r: Option<(DioAstStatement, usize)>) -> Option<(SpecStmt, int)> {
    match r {
        Some((x, q)) => Some((stmt_view(x), q as int)),
        None => None,
    }
}

pub open spec fn pv_block(r: Option<(Vec<DioAstStatement>, usize)>) -> Option<(Seq<SpecStmt>, int)> {
    match r {
        Some((x, q)) => Some((stmts_view(x@), q as int)),
        None => None,
    }
}

// ---------------------------------------------------------------------------
// Characters and words
// ---------------------------------------------------------------------------

fn ws_e(s: &Vec<char>, p: usize) -> (q: usize)
    requires
        p <= s@.len(),
        s@.len() + 16 <= usize::MAX,
    ensures
        q as int == ws(s@, p as int),
        p <= q <= s@.len(),
{
    skip_exec(s, p, CharClass::Space)
}

fn mws_e(s: &Vec<char>, p: usize) -> (q: usize)
    requires
        p <= s@.len(),
        s@.len() + 16 <= usize::MAX,
    ensures
        q as int == mws(s@, p as int),
        p <= q <= s@.len(),
{
    skip_exec(s, p, CharClass::Multi)
}

fn char_at_e(s: &Vec<char>, p: usize, c: char) -> (r: bool)
    ensures
        r == char_at(s@, p as int, c),
{
    p < s.len() && s[p] == c
}

/// Whether the text `t` stands at position `p`.
fn lit_at_e(s: &Vec<char>, p: usize, t: &str) -> (r: bool)
    requires
        p <= s@.len(),
        s@.len() + 16 <= usize::MAX,
    ensures
        r == lit_at(s@, p as int, t@),
{
    let tc = chars_of(t);
    if tc.len() > s.len() - p {
        return false;
    }
    let mut i: usize = 0;
    while i < tc.len()
        invariant
            s@.len() + 16 <= usize::MAX,
            tc@ == t@,
            p + tc@.len() <= s@.len(),
            i <= tc@.len(),
            forall|j: int| 0 <= j < i ==> s@[p + j] == tc@[j],
        decreases tc@.len() - i,
    {
        if s[p + i] != tc[i] {
            assert(s@.subrange(p as int, p + tc@.len())[i as int] != tc@[i as int]);
            return false;
        }
        i = i + 1;
    }
    assert(s@.subrange(p as int, p + tc@.len()) =~= tc@);
    true
}

fn lower_is_e(c: char, t: char) -> (r: bool)
    ensures
        r == lower_is(c, t),
{
    if 'A' <= c && c <= 'Z' {
        (c as u32) + 32 == (t as u32)
    } else {
        c == t
    }
}

/// Whether the lowercase text `t` stands at `p` in any letter case.
fn lit_at_nocase_e(s: &Vec<char>, p: usize, t: &str) -> (r: bool)
    requires
        p <= s@.len(),
        s@.len() + 16 <= usize::MAX,
    ensures
        r == lit_at_nocase(s@, p as int, t@),
{
    let tc = chars_of(t);
    if tc.len() > s.len() - p {
        return false;
    }
    let mut i: usize = 0;
    while i < tc.len()
        invariant
            s@.len() + 16 <= usize::MAX,
            tc@ == t@,
            p + tc@.len() <= s@.len(),
            i <= tc@.len(),
            forall|j: int| 0 <= j < i ==> lower_is(#[trigger] s@[p + j], tc@[j]),
        decreases tc@.len() - i,
    {
        if !lower_is_e(s[p + i], tc[i]) {
            return false;
        }
        i = i + 1;
    }
    true
}

fn var_name_e(s: &Vec<char>, p: usize) -> (r: Option<(String, usize)>)
    requires
        p <= s@.len(),
        s@.len() + 16 <= usize::MAX,
    ensures
        pv_str(r) == var_name(s@, p as int),
        r matches Some((_, q)) ==> p < q <= s@.len(),
{
    if p < s.len() && (('a' <= s[p] && s[p] <= 'z') || ('A' <= s[p] && s[p] <= 'Z')) {
        let q = skip_exec(s, p + 1, CharClass::VarTail);
        Some((string_of_range(s.as_slice(), p, q), q))
    } else {
        None
    }
}

fn word_e(s: &Vec<char>, p: usize, k: CharClass) -> (r: Option<(String, usize)>)
    requires
        p <= s@.len(),
        s@.len() + 16 <= usize::MAX,
    ensures
        pv_str(r) == word(s@, p as int, k),
        r matches Some((_, q)) ==> p < q <= s@.len(),
{
    let q = skip_exec(s, p, k);
    if p < q {
        Some((string_of_range(s.as_slice(), p, q), q))
    } else {
        None
    }
}

// ---------------------------------------------------------------------------
// Literals
// ---------------------------------------------------------------------------

proof fn lemma_digits_value_prefix(ds: Seq<char>, k: int)
    requires
        0 <= k <= ds.len(),
        forall|i: int| 0 <= i < ds.len() ==> is_digit(#[trigger] ds[i]),
    ensures
        digits_value(ds.subrange(0, k)) <= digits_value(ds),
    decreases ds.len() - k,
{
    if k < ds.len() {
        lemma_digits_value_prefix(ds, k + 1);
        let t = ds.subrange(0, k + 1);
        assert(t.drop_last() =~= ds.subrange(0, k));
    } else {
        assert(ds.subrange(0, k) =~= ds);
    }
}

/// An integer literal.
pub fn number_e(s: &Vec<char>, p: usize) -> (r: Option<(i64, usize)>)
    requires
        p <= s@.len(),
        s@.len() + 16 <= usize::MAX,
    ensures
        match r {
            Some((v, q)) => number(s@, p as int) == Some((v, q as int)),
            None => number(s@, p as int) is None,
        },
        r matches Some((_, q)) ==> p < q <= s@.len(),
{
    let neg = char_at_e(s, p, '-');
    let d0 = if char_at_e(s, p, '-') || char_at_e(s, p, '+') {
        p + 1
    } else {
        p
    };
    let q = skip_exec(s, d0, CharClass::Digit);
    if !(d0 < q) {
        return None;
    }
    if char_at_e(s, q, '.') && q + 1 < s.len() && '0' <= s[q + 1] && s[q + 1] <= '9' {
        return None;
    }
    proof {
        crate::chars::lemma_skip(s@, d0 as int, CharClass::Digit);
    }
    let ghost ds = s@.subrange(d0 as int, q as int);
    let mut v: u64 = 0;
    let mut i: usize = d0;
    while i < q
        invariant
            s@.len() + 16 <= usize::MAX,
            d0 <= i <= q <= s@.len(),
            ds == s@.subrange(d0 as int, q as int),
            q as int == skip(s@, d0 as int, CharClass::Digit),
            d0 as int == (if char_at(s@, p as int, '-') || char_at(s@, p as int, '+') {
                p + 1
            } else {
                p as int
            }),
            !(char_at(s@, q as int, '.') && q + 1 < s@.len() && is_digit(s@[q + 1])),
            forall|j: int| 0 <= j < ds.len() ==> is_digit(#[trigger] ds[j]),
            v as int == digits_value(s@.subrange(d0 as int, i as int)),
        decreases q - i,
    {
        assert(is_digit(ds[i - d0]));
        let d = (s[i] as u32) - ('0' as u32);
        let ghost prev = s@.subrange(d0 as int, i as int);
        assert(s@.subrange(d0 as int, i + 1).drop_last() =~= prev);
        assert(digits_value(s@.subrange(d0 as int, i + 1)) == v * 10 + d);
        match v.checked_mul(10) {
            Some(m) => match m.checked_add(d as u64) {
                Some(n) => {
                    v = n;
                },
                None => {
                    proof {
                        assert(ds.subrange(0, i + 1 - d0) =~= s@.subrange(d0 as int, i + 1));
                        lemma_digits_value_prefix(ds, i + 1 - d0);
                    }
                    return None;
                },
            },
            None => {
                proof {
                    assert(ds.subrange(0, i + 1 - d0) =~= s@.subrange(d0 as int, i + 1));
                    lemma_digits_value_prefix(ds, i + 1 - d0);
                }
                return None;
            },
        }
        i = i + 1;
    }
    if neg {
        if v <= 9223372036854775808u64 {
            if v == 9223372036854775808u64 {
                Some((i64::MIN, q))
            } else {
                Some((-(v as i64), q))
            }
        } else {
            None
        }
    } else {
        if v <= 9223372036854775807u64 {
            Some((v as i64, q))
        } else {
            None
        }
    }
}

/// `true` or `false` in any letter case.
pub fn boolean_e(s: &Vec<char>, p: usize) -> (r: Option<(bool, usize)>)
    requires
        p <= s@.len(),
        s@.len() + 16 <= usize::MAX,
    ensures
        match r {
            Some((v, q)) => boolean(s@, p as int) == Some((v, q as int)),
            None => boolean(s@, p as int) is None,
        },
        r matches Some((_, q)) ==> p < q <= s@.len(),
{
    proof {
        reveal_strlit("true");
        reveal_strlit("false");
    }
    if lit_at_nocase_e(s, p, "true") {
        Some((true, p + 4))
    } else if lit_at_nocase_e(s, p, "false") {
        Some((false, p + 5))
    } else {
        None
    }
}

fn escape_e(c: char) -> (r: Option<char>)
    ensures
        r == escape(c),
{
    if c == '"' {
        Some('"')
    } else if c == '\\' {
        Some('\\')
    } else if c == '/' {
        Some('/')
    } else if c == 'b' {
        Some('\u{8}')
    } else if c == 'f' {
        Some('\u{c}')
    } else if c == 'n' {
        Some('\n')
    } else if c == 'r' {
        Some('\r')
    } else if c == 't' {
        Some('\t')
    } else {
        None
    }
}

fn is_control_e(c: char) -> (r: bool)
    ensures
        r == is_control(c),
{
    (c as u32) < 0x20 || (c as u32) == 0x7f
}

/// A string literal.
pub fn string_lit_e(s: &Vec<char>, p: usize) -> (r: Option<(String, usize)>)
    requires
        p <= s@.len(),
        s@.len() + 16 <= usize::MAX,
    ensures
        pv_str(r) == string_lit(s@, p as int),
        r matches Some((_, q)) ==> p < q <= s@.len(),
{
    if !char_at_e(s, p, '"') {
        return None;
    }
    let mut acc = String::new();
    let mut i: usize = p + 1;
    while i < s.len()
        invariant
            s@.len() + 16 <= usize::MAX,
            p < i <= s@.len(),
            string_body(s@, i as int, acc@) == string_lit(s@, p as int),
        decreases s@.len() - i,
    {
        let c = s[i];
        if c == '"' {
            return Some((acc, i + 1));
        } else if c == '\\' {
            if i + 1 < s.len() {
                match escape_e(s[i + 1]) {
                    Some(e) => {
                        push_char(&mut acc, e);
                        i = i + 2;
                    },
                    None => {
                        return None;
                    },
                }
            } else {
                return None;
            }
        } else if is_control_e(c) {
            return None;
        } else {
            push_char(&mut acc, c);
            i = i + 1;
        }
    }
    None
}

/// `// text` up to the end of the line.
pub fn comment_e(s: &Vec<char>, p: usize) -> (r: Option<(String, usize)>)
    requires
        p <= s@.len(),
        s@.len() + 16 <= usize::MAX,
    ensures
        pv_str(r) == comment(s@, p as int),
        r matches Some((_, q)) ==> p < q <= s@.len(),
{
    if !lit_at_e(s, p, "//") {
        return None;
    }
    proof {
        reveal_strlit("//");
    }
    let mut q: usize = p + 2;
    while q < s.len() && s[q] != '\n' && s[q] != '\r'
        invariant
            s@.len() + 16 <= usize::MAX,
            p + 2 <= q <= s@.len(),
            line_end(s@, q as int) == line_end(s@, p + 2),
        decreases s@.len() - q,
    {
        q = q + 1;
    }
    let raw = string_of_range(s.as_slice(), p + 2, q);
    Some((trim(raw.as_str()), q))
}

/// `use a::b;`
pub fn use_stmt_e(s: &Vec<char>, p: usize) -> (r: Option<(Vec<String>, usize)>)
    requires
        p <= s@.len(),
        s@.len() + 16 <= usize::MAX,
    ensures
        match r {
            Some((v, q)) => use_stmt(s@, p as int) == Some((strings_view(v@), q as int)),
            None => use_stmt(s@, p as int) is None,
        },
        r matches Some((_, q)) ==> p < q <= s@.len(),
{
    proof {
        reveal_strlit("use");
        reveal_strlit("::");
    }
    if !(lit_at_e(s, p, "use") && ws_e(s, p + 3) > p + 3) {
        return None;
    }
    let a = ws_e(s, p + 3);
    match word_e(s, a, CharClass::ModuleName) {
        Some((first, q0)) => {
            let ghost f = first@;
            let mut path: Vec<String> = Vec::new();
            path.push(first);
            let mut q = q0;
            assert(strings_view(path@) =~= seq![f]);
            while lit_at_e(s, q, "::")
                invariant
                    s@.len() + 16 <= usize::MAX,
            s@.len() + 16 <= usize::MAX,
                    p < q <= s@.len(),
                    module_path_rest(s@, q as int, strings_view(path@)) == module_path_rest(
                        s@,
                        q0 as int,
                        seq![f],
                    ),
                ensures
                    p < q <= s@.len(),
                    module_path_rest(s@, q as int, strings_view(path@)) == module_path_rest(
                        s@,
                        q0 as int,
                        seq![f],
                    ),
                    module_path_rest(s@, q as int, strings_view(path@)) == (strings_view(path@), q as int),
                decreases s@.len() - q,
            {
                proof {
                    reveal_strlit("::");
                }
                match word_e(s, q + 2, CharClass::ModuleName) {
                    Some((n, q2)) => {
                        proof {
                            lemma_strings_view_push(path@, n);
                        }
                        path.push(n);
                        q = q2;
                    },
                    None => {
                        break ;
                    },
                }
            }
            let t = ws_e(s, q);
            if char_at_e(s, t, ';') {
                Some((path, t + 1))
            } else {
                None
            }
        },
        None => None,
    }
}

/// Further `::name` parts of a function path.
fn fn_path_rest_e(s: &Vec<char>, p: usize, acc: Vec<String>) -> (r: (Vec<String>, usize))
    requires
        p <= s@.len(),
        s@.len() + 16 <= usize::MAX,
    ensures
        (strings_view(r.0@), r.1 as int) == fn_path_rest(s@, p as int, strings_view(acc@)),
        p <= r.1 <= s@.len(),
{
    proof {
        reveal_strlit("::");
    }
    let ghost a0 = strings_view(acc@);
    let mut path = acc;
    let mut q = p;
    while lit_at_e(s, q, "::")
        invariant
            s@.len() + 16 <= usize::MAX,
            p <= q <= s@.len(),
            fn_path_rest(s@, q as int, strings_view(path@)) == fn_path_rest(s@, p as int, a0),
        ensures
            p <= q <= s@.len(),
            fn_path_rest(s@, q as int, strings_view(path@)) == fn_path_rest(s@, p as int, a0),
            fn_path_rest(s@, q as int, strings_view(path@)) == (strings_view(path@), q as int),
        decreases s@.len() - q,
    {
        proof {
            reveal_strlit("::");
        }
        match var_name_e(s, q + 2) {
            Some((n, q2)) => {
                proof {
                    lemma_strings_view_push(path@, n);
                }
                path.push(n);
                q = q2;
            },
            None => {
                break ;
            },
        }
    }
    (path, q)
}


// ---------------------------------------------------------------------------
// Operators, parameters, dictionary entries, element items
// ---------------------------------------------------------------------------

fn level_op_e(s: &Vec<char>, p: usize, lv: usize) -> (r: Option<(CalculateMark, usize)>)
    requires
        p <= s@.len(),
        s@.len() + 16 <= usize::MAX,
    ensures
        match r {
            Some((m, n)) => level_op(s@, p as int, lv as nat) == Some((m, n as int)) && m
                != CalculateMark::NoOp && 1 <= n && p + n <= s@.len(),
            None => level_op(s@, p as int, lv as nat) is None,
        },
{
    proof {
        lemma_level_op(s@, p as int, lv as nat);
    }
    if lv == 0 {
        if lit_at_e(s, p, "||") {
            Some((CalculateMark::Or, 2))
        } else {
            None
        }
    } else if lv == 1 {
        if lit_at_e(s, p, "&&") {
            Some((CalculateMark::And, 2))
        } else {
            None
        }
    } else if lv == 2 {
        if lit_at_e(s, p, "==") {
            Some((CalculateMark::Equal, 2))
        } else if lit_at_e(s, p, "!=") {
            Some((CalculateMark::NotEqual, 2))
        } else if lit_at_e(s, p, ">=") {
            Some((CalculateMark::LargeOrEqual, 2))
        } else if lit_at_e(s, p, "<=") {
            Some((CalculateMark::SmallOrEqual, 2))
        } else if char_at_e(s, p, '>') {
            Some((CalculateMark::Large, 1))
        } else if char_at_e(s, p, '<') {
            Some((CalculateMark::Small, 1))
        } else {
            None
        }
    } else if lv == 3 {
        if char_at_e(s, p, '+') {
            Some((CalculateMark::Plus, 1))
        } else if char_at_e(s, p, '-') {
            Some((CalculateMark::Minus, 1))
        } else {
            None
        }
    } else {
        if char_at_e(s, p, '*') {
            Some((CalculateMark::Multiply, 1))
        } else if char_at_e(s, p, '/') {
            Some((CalculateMark::Divide, 1))
        } else if char_at_e(s, p, '%') {
            Some((CalculateMark::Mod, 1))
        } else {
            None
        }
    }
}

fn mk_binary_e(m: CalculateMark, l: CalcExpr, r: CalcExpr) -> (e: CalcExpr)
    requires
        m != CalculateMark::NoOp,
    ensures
        expr_view(e) == mk_binary(m, expr_view(l), expr_view(r)),
{
    let (a, b) = (Box::new(l), Box::new(r));
    match m {
        CalculateMark::Plus => CalcExpr::Add(a, b),
        CalculateMark::Minus => CalcExpr::Sub(a, b),
        CalculateMark::Multiply => CalcExpr::Mul(a, b),
        CalculateMark::Divide => CalcExpr::Div(a, b),
        CalculateMark::Mod => CalcExpr::Mod(a, b),
        CalculateMark::Equal => CalcExpr::Eq(a, b),
        CalculateMark::NotEqual => CalcExpr::Ne(a, b),
        CalculateMark::Large => CalcExpr::Gt(a, b),
        CalculateMark::Small => CalcExpr::Lt(a, b),
        CalculateMark::LargeOrEqual => CalcExpr::Ge(a, b),
        CalculateMark::SmallOrEqual => CalcExpr::Le(a, b),
        CalculateMark::And => CalcExpr::And(a, b),
        _ => CalcExpr::Or(a, b),
    }
}

fn closing_e(s: &Vec<char>, p: usize, c: char) -> (r: Option<usize>)
    requires
        p <= s@.len(),
        s@.len() + 16 <= usize::MAX,
    ensures
        match r {
            Some(q) => closing(s@, p as int, c) == Some(q as int) && p < q <= s@.len(),
            None => closing(s@, p as int, c) is None,
        },
{
    let a = if char_at_e(s, p, ',') {
        p + 1
    } else {
        p
    };
    let b = mws_e(s, a);
    if char_at_e(s, b, c) {
        Some(b + 1)
    } else {
        None
    }
}

/// The names and variadic marks of a parameter list.
pub open spec fn params_view(v: Seq<(String, bool)>) -> Seq<(Seq<char>, bool)> {
    Seq::new(v.len(), |i: int| (v[i].0@, v[i].1))
}

fn param_e(s: &Vec<char>, p: usize) -> (r: Option<(String, bool, usize)>)
    requires
        p <= s@.len(),
        s@.len() + 16 <= usize::MAX,
    ensures
        match r {
            Some((n, v, q)) => param(s@, p as int) == Some((n@, v, q as int)) && p < q <= s@.len(),
            None => param(s@, p as int) is None,
        },
{
    if char_at_e(s, p, '*') {
        match var_name_e(s, p + 1) {
            Some((n, q)) => Some((n, true, q)),
            None => None,
        }
    } else {
        match var_name_e(s, p) {
            Some((n, q)) => Some((n, false, q)),
            None => None,
        }
    }
}

fn spaced_param_e(s: &Vec<char>, p: usize) -> (r: Option<(String, bool, usize)>)
    requires
        p <= s@.len(),
        s@.len() + 16 <= usize::MAX,
    ensures
        match r {
            Some((n, v, q)) => spaced_param(s@, p as int) == Some((n@, v, q as int)) && p < q
                <= s@.len(),
            None => spaced_param(s@, p as int) is None,
        },
{
    let a = ws_e(s, p);
    match param_e(s, a) {
        Some((n, v, q)) => Some((n, v, ws_e(s, q))),
        None => None,
    }
}

fn params_list_e(s: &Vec<char>, p: usize) -> (r: (Vec<(String, bool)>, usize))
    requires
        p <= s@.len(),
        s@.len() + 16 <= usize::MAX,
    ensures
        (params_view(r.0@), r.1 as int) == params_list(s@, p as int),
        p <= r.1 <= s@.len(),
{
    match spaced_param_e(s, p) {
        Some((n, v, q0)) => {
            let mut ps: Vec<(String, bool)> = Vec::new();
            let ghost first = (n@, v);
            ps.push((n, v));
            assert(params_view(ps@) =~= seq![first]);
            let mut q = q0;
            while char_at_e(s, q, ',')
                invariant
                    s@.len() + 16 <= usize::MAX,
                    p < q <= s@.len(),
                    params_rest(s@, q as int, params_view(ps@)) == params_rest(
                        s@,
                        q0 as int,
                        seq![first],
                    ),
                ensures
                    p < q <= s@.len(),
                    params_rest(s@, q as int, params_view(ps@)) == params_rest(
                        s@,
                        q0 as int,
                        seq![first],
                    ),
                    params_rest(s@, q as int, params_view(ps@)) == (params_view(ps@), q as int),
                decreases s@.len() - q,
            {
                match spaced_param_e(s, q + 1) {
                    Some((n2, v2, q2)) => {
                        let ghost before = ps@;
                        ps.push((n2, v2));
                        assert(params_view(ps@) =~= params_view(before).push((n2@, v2)));
                        q = q2;
                    },
                    None => {
                        break ;
                    },
                }
            }
            (ps, q)
        },
        None => {
            let ps: Vec<(String, bool)> = Vec::new();
            assert(params_view(ps@) =~= Seq::<(Seq<char>, bool)>::empty());
            (ps, p)
        },
    }
}

fn split_params_e(ps: Vec<(String, bool)>) -> (r: Option<(Vec<String>, Option<String>)>)
    ensures
        match r {
            Some((names, var)) => split_params(params_view(ps@)) == Some(
                SpecParams { names: strings_view(names@), variadic: opt_string_view(var) },
            ),
            None => split_params(params_view(ps@)) is None,
        },
{
    let ghost pv = params_view(ps@);
    let ghost all = Seq::new(pv.len(), |i: int| pv[i].0);
    let n = ps.len();
    let mut i: usize = 0;
    while i < n
        invariant
            n == ps@.len(),
            pv == params_view(ps@),
            all == Seq::new(pv.len(), |k: int| pv[k].0),
            i <= n,
            forall|a: int, b: int| 0 <= a < b < n && a < i ==> all[a] != all[b],
        decreases n - i,
    {
        let mut j: usize = i + 1;
        while j < n
            invariant
                n == ps@.len(),
                pv == params_view(ps@),
                all == Seq::new(pv.len(), |k: int| pv[k].0),
                i < n,
                i < j <= n,
                forall|a: int, b: int| 0 <= a < b < n && a < i ==> all[a] != all[b],
                forall|b: int| i < b < j ==> all[i as int] != all[b],
            decreases n - j,
        {
            if str_eq(ps[i].0.as_str(), ps[j].0.as_str()) {
                assert(all[i as int] == all[j as int]);
                assert(!distinct_names(all));
                return None;
            }
            j = j + 1;
        }
        i = i + 1;
    }
    assert(distinct_names(all));
    let mut k: usize = 0;
    let mut bad = false;
    while k < n
        invariant
            n == ps@.len(),
            pv == params_view(ps@),
            k <= n,
            bad <==> exists|x: int| 0 <= x < k && x < n - 1 && (#[trigger] pv[x]).1,
        decreases n - k,
    {
        assert(pv[k as int] == (ps@[k as int].0@, ps@[k as int].1));
        if k + 1 < n && ps[k].1 {
            bad = true;
        }
        k = k + 1;
    }
    if bad {
        proof {
            let x = choose|x: int| 0 <= x < n && x < n - 1 && (#[trigger] pv[x]).1;
            assert(pv[x].1);
        }
        return None;
    }
    let mut names: Vec<String> = Vec::new();
    let mut variadic: Option<String> = None;
    let mut ps = ps;
    let last_var = n > 0 && ps[n - 1].1;
    if last_var {
        let (name, _) = ps.pop().unwrap();
        variadic = Some(name);
    }
    let ghost rest = ps@;
    let mut m: usize = 0;
    while m < ps.len()
        invariant
            rest == ps@,
            m <= ps@.len(),
            strings_view(names@) =~= Seq::new(m as nat, |x: int| rest[x].0@),
        decreases ps@.len() - m,
    {
        let x = copy_string(&ps[m].0);
        proof {
            lemma_strings_view_push(names@, x);
        }
        names.push(x);
        m = m + 1;
    }
    proof {
        if last_var {
            assert(strings_view(names@) =~= all.drop_last());
            assert forall|x: int| 0 <= x < pv.len() - 1 implies !(#[trigger] pv[x]).1 by {}
        } else {
            assert(strings_view(names@) =~= all);
            assert forall|x: int| 0 <= x < pv.len() implies !(#[trigger] pv[x]).1 by {
                if x < n - 1 {
                } else {
                }
            }
        }
    }
    Some((names, variadic))
}

/// Enters `k: v` into the entries of a dictionary literal.
fn dict_insert_e(d: &mut Vec<(String, CalcExpr)>, k: String, v: CalcExpr)
    ensures
        dict_exprs_view(final(d)@) == dict_insert(dict_exprs_view(old(d)@), k@, expr_view(v)),
{
    let ghost dv = dict_exprs_view(d@);
    proof {
        lemma_dict_exprs_view(d@);
    }
    match find_key(d, k.as_str()) {
        Some(i) => {
            proof {
                crate::value::lemma_key_index_first(dv, k@, i as int);
                lemma_dict_exprs_view_update(d@, i as int, (k, v));
            }
            d.set(i, (k, v));
        },
        None => {
            proof {
                crate::value::lemma_key_index_absent(dv, k@);
                lemma_dict_exprs_view_push(d@, (k, v));
            }
            d.push((k, v));
        },
    }
}

/// One item inside the braces of an element.
enum ElementPiece {
    Attribute(String, AstValue),
    Content(AstElementContentType),
}

spec fn piece_view(x: ElementPiece) -> ElementItem {
    match x {
        ElementPiece::Attribute(k, v) => ElementItem::Attribute(k@, ast_value_view(v)),
        ElementPiece::Content(c) => ElementItem::Content(ast_content_view(c)),
    }
}

spec fn pieces_view(v: Seq<ElementPiece>) -> Seq<ElementItem> {
    Seq::new(v.len(), |i: int| piece_view(v[i]))
}

proof fn lemma_build_element_none(name: Seq<char>, items: Seq<ElementItem>, k: int)
    requires
        0 <= k <= items.len(),
        build_element(name, items.take(k)) is None,
    ensures
        build_element(name, items) is None,
    decreases items.len() - k,
{
    if k < items.len() {
        assert(items.take(k + 1).drop_last() =~= items.take(k));
        lemma_build_element_none(name, items, k + 1);
    } else {
        assert(items.take(k) =~= items);
    }
}

fn build_element_e(name: String, items: Vec<ElementPiece>) -> (r: Option<AstElement>)
    ensures
        r matches Some(e) ==> build_element(name@, pieces_view(items@)) == Some(ast_element_view(e)),
        r is None ==> build_element(name@, pieces_view(items@)) is None,
{
    let ghost orig = pieces_view(items@);
    let ghost nm = name@;
    let mut rest = items;
    let mut el = AstElement { name, attributes: Vec::new(), content: Vec::new() };
    proof {
        assert(orig.take(0) =~= Seq::<ElementItem>::empty());
        assert(attrs_ast_view(el.attributes@) =~= Seq::<(Seq<char>, SpecAstValue)>::empty());
        assert(ast_contents_view(el.content@) =~= Seq::<SpecAstContent>::empty());
    }
    while rest.len() > 0
        invariant
            orig == pieces_view(items@),
            nm == name@,
            orig.len() >= rest@.len(),
            pieces_view(rest@) == orig.skip(orig.len() - rest@.len()),
            el.name@ == nm,
            build_element(nm, orig.take(orig.len() - rest@.len())) == Some(
                ast_element_view(el),
            ),
        decreases rest@.len(),
    {
        let ghost done = orig.len() - rest@.len();
        let ghost before = rest@;
        assert(pieces_view(before)[0] == piece_view(before[0]));
        let piece = rest.remove(0);
        proof {
            assert(piece == before[0]);
            assert(piece_view(piece) == orig[done]);
            assert forall|j: int| 0 <= j < rest@.len() implies #[trigger] pieces_view(rest@)[j]
                == orig.skip(done + 1)[j] by {
                assert(rest@[j] == before[j + 1]);
                assert(pieces_view(before)[j + 1] == piece_view(before[j + 1]));
            }
            assert(pieces_view(rest@) =~= orig.skip(done + 1));
            assert(orig.take(done + 1).drop_last() =~= orig.take(done));
            assert(orig.take(done + 1).last() == orig[done]);
            lemma_attrs_ast_view(el.attributes@);
        }
        match piece {
            ElementPiece::Attribute(k, v) => {
                match find_key(&el.attributes, k.as_str()) {
                    Some(i) => {
                        proof {
                            crate::value::lemma_key_index_first(
                                attrs_ast_view(el.attributes@),
                                k@,
                                i as int,
                            );
                            let t = orig.take(done + 1);
                            assert(t.last() == ElementItem::Attribute(k@, ast_value_view(v)));
                            assert(attr_insert(attrs_ast_view(el.attributes@), k@, ast_value_view(v))
                                is None);
                            assert(build_element(nm, t) is None);
                            lemma_build_element_none(nm, orig, done + 1);
                            assert(build_element(nm, orig) is None);
                        }
                        return None;
                    },
                    None => {
                        proof {
                            crate::value::lemma_key_index_absent(attrs_ast_view(el.attributes@), k@);
                            lemma_attrs_ast_view_push(el.attributes@, (k, v));
                        }
                        el.attributes.push((k, v));
                    },
                }
            },
            ElementPiece::Content(c) => {
                proof {
                    lemma_ast_contents_view_push(el.content@, c);
                }
                el.content.push(c);
            },
        }
    }
    proof {
        assert(orig.take(orig.len() as int) =~= orig);
    }
    Some(el)
}


// ---------------------------------------------------------------------------
// Expressions
// ---------------------------------------------------------------------------

fn expr_e(s: &Vec<char>, p: usize) -> (r: Option<(CalcExpr, usize)>)
    requires
        p <= s@.len(),
        s@.len() + 16 <= usize::MAX,
    ensures
        pv_expr(r) == expr(s@, p as int),
        r matches Some((_, q)) ==> p <= q <= s@.len(),
    decreases s@.len() - p, 20nat,
{
    level_e(s, p, 0)
}

fn level_e(s: &Vec<char>, p: usize, lv: usize) -> (r: Option<(CalcExpr, usize)>)
    requires
        p <= s@.len(),
        s@.len() + 16 <= usize::MAX,
        lv <= 4,
    ensures
        pv_expr(r) == level(s@, p as int, lv as nat),
        r matches Some((_, q)) ==> p <= q <= s@.len(),
    decreases s@.len() - p, 19 - lv,
{
    if lv >= 4 {
        match factor_e(s, p) {
            Some((e, q)) => if p < q {
                Some(level_rest_e(s, q, 4, e))
            } else {
                None
            },
            None => None,
        }
    } else {
        match level_e(s, p, lv + 1) {
            Some((e, q)) => if p < q {
                Some(level_rest_e(s, q, lv, e))
            } else {
                None
            },
            None => None,
        }
    }
}

fn level_rest_e(s: &Vec<char>, p: usize, lv: usize, acc: CalcExpr) -> (r: (CalcExpr, usize))
    requires
        p <= s@.len(),
        s@.len() + 16 <= usize::MAX,
        lv <= 4,
    ensures
        level_rest(s@, p as int, lv as nat, expr_view(acc)) == Some(
            (expr_view(r.0), r.1 as int),
        ),
        p <= r.1 <= s@.len(),
    decreases s@.len() - p, 30nat,
{
    let ghost acc0 = expr_view(acc);
    let mut cur = acc;
    let mut q = p;
    loop
        invariant
            acc0 == expr_view(acc),
            s@.len() + 16 <= usize::MAX,
            lv <= 4,
            p <= q <= s@.len(),
            level_rest(s@, q as int, lv as nat, expr_view(cur)) == level_rest(
                s@,
                p as int,
                lv as nat,
                acc0,
            ),
        decreases s@.len() - q,
    {
        let a = ws_e(s, q);
        match level_op_e(s, a, lv) {
            Some((m, n)) => {
                let b = ws_e(s, a + n);
                let operand = if lv >= 4 {
                    factor_e(s, b)
                } else {
                    level_e(s, b, lv + 1)
                };
                match operand {
                    Some((r, q2)) => {
                        if q < q2 {
                            cur = mk_binary_e(m, cur, r);
                            q = q2;
                        } else {
                            return (cur, q);
                        }
                    },
                    None => {
                        return (cur, q);
                    },
                }
            },
            None => {
                return (cur, q);
            },
        }
    }
}

/// A factor; a chain of parts after a value is tried first, then the value
/// alone, then a parenthesised expression.
fn factor_e(s: &Vec<char>, p: usize) -> (r: Option<(CalcExpr, usize)>)
    requires
        p <= s@.len(),
        s@.len() + 16 <= usize::MAX,
    ensures
        pv_expr(r) == factor(s@, p as int),
        r matches Some((_, q)) ==> p <= q <= s@.len(),
    decreases s@.len() - p, 14nat,
{
    let a = ws_e(s, p);
    match value_e(s, a) {
        Some((v, q)) => {
            let b = mws_e(s, q);
            if a < q && char_at_e(s, b, '.') {
                match link_part_e(s, mws_e(s, b + 1)) {
                    Some((part, r)) => {
                        if a < r {
                            let ghost pv = link_part_view(part);
                            let mut parts: Vec<LinkExprPart> = Vec::new();
                            parts.push(part);
                            assert(link_parts_view(parts@) =~= seq![pv]) by {
                                crate::ast::lemma_link_parts_view(parts@);
                            }
                            let (parts, t) = link_rest_e(s, r, parts);
                            let e = CalcExpr::LinkExpr(LinkExpr { this: v, list: parts });
                            return Some((e, ws_e(s, t)));
                        }
                    },
                    None => {},
                }
            }
            Some((CalcExpr::Value(v), ws_e(s, q)))
        },
        None => {
            if char_at_e(s, a, '(') {
                match expr_e(s, a + 1) {
                    Some((e, q)) => if char_at_e(s, q, ')') && a < q {
                        Some((e, ws_e(s, q + 1)))
                    } else {
                        None
                    },
                    None => None,
                }
            } else {
                None
            }
        },
    }
}

fn link_part_e(s: &Vec<char>, p: usize) -> (r: Option<(LinkExprPart, usize)>)
    requires
        p <= s@.len(),
        s@.len() + 16 <= usize::MAX,
    ensures
        match r {
            Some((x, q)) => link_part(s@, p as int) == Some((link_part_view(x), q as int)) && p
                <= q <= s@.len(),
            None => link_part(s@, p as int) is None,
        },
    decreases s@.len() - p, 12nat,
{
    match call_single_e(s, p) {
        Some((c, q)) => Some((LinkExprPart::FunctionCall(c), q)),
        None => match var_name_e(s, p) {
            Some((n, q)) => Some((LinkExprPart::Field(n), q)),
            None => match word_e(s, p, CharClass::Digit) {
                Some((n, q)) => Some((LinkExprPart::Field(n), q)),
                None => None,
            },
        },
    }
}

fn link_rest_e(s: &Vec<char>, p: usize, acc: Vec<LinkExprPart>) -> (r: (Vec<LinkExprPart>, usize))
    requires
        p <= s@.len(),
        s@.len() + 16 <= usize::MAX,
    ensures
        link_rest(s@, p as int, link_parts_view(acc@)) == (link_parts_view(r.0@), r.1 as int),
        p <= r.1 <= s@.len(),
    decreases s@.len() - p, 30nat,
{
    let ghost acc0 = link_parts_view(acc@);
    let mut cur = acc;
    let mut q = p;
    loop
        invariant
            acc0 == link_parts_view(acc@),
            s@.len() + 16 <= usize::MAX,
            p <= q <= s@.len(),
            link_rest(s@, q as int, link_parts_view(cur@)) == link_rest(s@, p as int, acc0),
        decreases s@.len() - q,
    {
        let a = mws_e(s, q);
        if !char_at_e(s, a, '.') {
            return (cur, q);
        }
        match link_part_e(s, mws_e(s, a + 1)) {
            Some((part, q2)) => {
                if q < q2 {
                    proof {
                        lemma_link_parts_view_push(cur@, part);
                    }
                    cur.push(part);
                    q = q2;
                } else {
                    return (cur, q);
                }
            },
            None => {
                return (cur, q);
            },
        }
    }
}

/// A value: the alternatives of the grammar in their order.
pub fn value_e(s: &Vec<char>, p: usize) -> (r: Option<(AstValue, usize)>)
    requires
        p <= s@.len(),
        s@.len() + 16 <= usize::MAX,
    ensures
        pv_value(r) == value(s@, p as int),
        r matches Some((_, q)) ==> p <= q <= s@.len(),
    decreases s@.len() - p, 11nat,
{
    match number_e(s, p) {
        Some((n, q)) => {
            return Some((AstValue::Number(n), q));
        },
        None => {},
    }
    match boolean_e(s, p) {
        Some((b, q)) => {
            return Some((AstValue::Boolean(b), q));
        },
        None => {},
    }
    match string_lit_e(s, p) {
        Some((t, q)) => {
            return Some((AstValue::String(t), q));
        },
        None => {},
    }
    match list_e(s, p) {
        Some((l, q)) => {
            return Some((AstValue::List(l), q));
        },
        None => {},
    }
    match dict_e(s, p) {
        Some((d, q)) => {
            return Some((AstValue::Dict(d), q));
        },
        None => {},
    }
    match tuple_e(s, p) {
        Some((a, b, q)) => {
            return Some((AstValue::Tuple((Box::new(a), Box::new(b))), q));
        },
        None => {},
    }
    match element_e(s, p) {
        Some((e, q)) => {
            return Some((AstValue::Element(e), q));
        },
        None => {},
    }
    match call_e(s, p) {
        Some((c, q)) => {
            return Some((AstValue::FunctionCaller(c), q));
        },
        None => {},
    }
    match define_e(s, p) {
        Some((d, q)) => {
            return Some((AstValue::FunctionDefine(Rc::new(d)), q));
        },
        None => {},
    }
    match var_index_e(s, p) {
        Some((n, i, q)) => {
            return Some((AstValue::VariableIndex((n, Box::new(i))), q));
        },
        None => {},
    }
    match var_name_e(s, p) {
        Some((n, q)) => Some((AstValue::Variable(n), q)),
        None => None,
    }
}

fn spaced_expr_e(s: &Vec<char>, p: usize) -> (r: Option<(CalcExpr, usize)>)
    requires
        p <= s@.len(),
        s@.len() + 16 <= usize::MAX,
    ensures
        pv_expr(r) == spaced_expr(s@, p as int),
        r matches Some((_, q)) ==> p <= q <= s@.len(),
    decreases s@.len() - p, 21nat,
{
    let a = mws_e(s, p);
    match expr_e(s, a) {
        Some((e, q)) => Some((e, mws_e(s, q))),
        None => None,
    }
}

fn space_expr_e(s: &Vec<char>, p: usize) -> (r: Option<(CalcExpr, usize)>)
    requires
        p <= s@.len(),
        s@.len() + 16 <= usize::MAX,
    ensures
        pv_expr(r) == space_expr(s@, p as int),
        r matches Some((_, q)) ==> p <= q <= s@.len(),
    decreases s@.len() - p, 21nat,
{
    let a = ws_e(s, p);
    match expr_e(s, a) {
        Some((e, q)) => Some((e, ws_e(s, q))),
        None => None,
    }
}

fn exprs_rest_e(s: &Vec<char>, p: usize, acc: Vec<CalcExpr>, spaced: bool) -> (r: (
    Vec<CalcExpr>,
    usize,
))
    requires
        p <= s@.len(),
        s@.len() + 16 <= usize::MAX,
    ensures
        exprs_rest(s@, p as int, exprs_view(acc@), spaced) == (exprs_view(r.0@), r.1 as int),
        p <= r.1 <= s@.len(),
    decreases s@.len() - p, 30nat,
{
    let ghost acc0 = exprs_view(acc@);
    let mut cur = acc;
    let mut q = p;
    loop
        invariant
            acc0 == exprs_view(acc@),
            s@.len() + 16 <= usize::MAX,
            p <= q <= s@.len(),
            exprs_rest(s@, q as int, exprs_view(cur@), spaced) == exprs_rest(
                s@,
                p as int,
                acc0,
                spaced,
            ),
        decreases s@.len() - q,
    {
        if !char_at_e(s, q, ',') {
            return (cur, q);
        }
        let item = if spaced {
            spaced_expr_e(s, q + 1)
        } else {
            space_expr_e(s, q + 1)
        };
        match item {
            Some((e, q2)) => {
                if q < q2 {
                    proof {
                        lemma_exprs_view_push(cur@, e);
                    }
                    cur.push(e);
                    q = q2;
                } else {
                    return (cur, q);
                }
            },
            None => {
                return (cur, q);
            },
        }
    }
}

fn exprs_list_e(s: &Vec<char>, p: usize, spaced: bool) -> (r: (Vec<CalcExpr>, usize))
    requires
        p <= s@.len(),
        s@.len() + 16 <= usize::MAX,
    ensures
        exprs_list(s@, p as int, spaced) == (exprs_view(r.0@), r.1 as int),
        p <= r.1 <= s@.len(),
    decreases s@.len() - p, 22nat,
{
    let item = if spaced {
        spaced_expr_e(s, p)
    } else {
        space_expr_e(s, p)
    };
    let mut acc: Vec<CalcExpr> = Vec::new();
    proof {
        crate::ast::lemma_exprs_view(acc@);
    }
    match item {
        Some((e, q)) => if p < q {
            proof {
                lemma_exprs_view_push(acc@, e);
                assert(acc@.push(e) =~= seq![e]);
                assert(exprs_view(acc@) =~= Seq::<SpecExpr>::empty());
            }
            acc.push(e);
            exprs_rest_e(s, q, acc, spaced)
        } else {
            (acc, p)
        },
        None => (acc, p),
    }
}

/// The list literal `[a, b, ...]` that starts at `p`, with the position
/// after it.
pub fn list_e(s: &Vec<char>, p: usize) -> (r: Option<(Vec<CalcExpr>, usize)>)
    requires
        p <= s@.len(),
        s@.len() + 16 <= usize::MAX,
    ensures
        match r {
            Some((x, q)) => list(s@, p as int) == Some((exprs_view(x@), q as int)) && p <= q
                <= s@.len(),
            None => list(s@, p as int) is None,
        },
    decreases s@.len() - p, 10nat,
{
    if !char_at_e(s, p, '[') {
        return None;
    }
    let (items, q) = exprs_list_e(s, p + 1, true);
    match closing_e(s, q, ']') {
        Some(r) => Some((items, r)),
        None => None,
    }
}

fn dict_entry_e(s: &Vec<char>, p: usize) -> (r: Option<(String, CalcExpr, usize)>)
    requires
        p <= s@.len(),
        s@.len() + 16 <= usize::MAX,
    ensures
        match r {
            Some((k, e, q)) => dict_entry(s@, p as int) == Some((k@, expr_view(e), q as int))
                && p <= q <= s@.len(),
            None => dict_entry(s@, p as int) is None,
        },
    decreases s@.len() - p, 23nat,
{
    match string_lit_e(s, mws_e(s, p)) {
        Some((k, q)) => {
            let a = mws_e(s, q);
            if char_at_e(s, a, ':') && p < a {
                match spaced_expr_e(s, a + 1) {
                    Some((e, r)) => Some((k, e, r)),
                    None => None,
                }
            } else {
                None
            }
        },
        None => None,
    }
}

fn dict_rest_e(s: &Vec<char>, p: usize, acc: Vec<(String, CalcExpr)>) -> (r: (
    Vec<(String, CalcExpr)>,
    usize,
))
    requires
        p <= s@.len(),
        s@.len() + 16 <= usize::MAX,
    ensures
        dict_rest(s@, p as int, dict_exprs_view(acc@)) == (dict_exprs_view(r.0@), r.1 as int),
        p <= r.1 <= s@.len(),
    decreases s@.len() - p, 30nat,
{
    let ghost acc0 = dict_exprs_view(acc@);
    let mut cur = acc;
    let mut q = p;
    loop
        invariant
            acc0 == dict_exprs_view(acc@),
            s@.len() + 16 <= usize::MAX,
            p <= q <= s@.len(),
            dict_rest(s@, q as int, dict_exprs_view(cur@)) == dict_rest(s@, p as int, acc0),
        decreases s@.len() - q,
    {
        if !char_at_e(s, q, ',') {
            return (cur, q);
        }
        match dict_entry_e(s, q + 1) {
            Some((k, e, q2)) => {
                if q < q2 {
                    dict_insert_e(&mut cur, k, e);
                    q = q2;
                } else {
                    return (cur, q);
                }
            },
            None => {
                return (cur, q);
            },
        }
    }
}

fn dict_e(s: &Vec<char>, p: usize) -> (r: Option<(Vec<(String, CalcExpr)>, usize)>)
    requires
        p <= s@.len(),
        s@.len() + 16 <= usize::MAX,
    ensures
        match r {
            Some((x, q)) => dict(s@, p as int) == Some((dict_exprs_view(x@), q as int)) && p
                <= q <= s@.len(),
            None => dict(s@, p as int) is None,
        },
    decreases s@.len() - p, 10nat,
{
    if !char_at_e(s, p, '{') {
        return None;
    }
    let mut acc: Vec<(String, CalcExpr)> = Vec::new();
    proof {
        lemma_dict_exprs_view(acc@);
        assert(dict_exprs_view(acc@) =~= Seq::<(Seq<char>, SpecExpr)>::empty());
    }
    let (entries, q) = match dict_entry_e(s, p + 1) {
        Some((k, e, q)) => if p < q {
            let ghost kv = (k@, expr_view(e));
            proof {
                lemma_dict_exprs_view_push(acc@, (k, e));
            }
            acc.push((k, e));
            assert(dict_exprs_view(acc@) =~= seq![kv]);
            dict_rest_e(s, q, acc)
        } else {
            (acc, p + 1)
        },
        None => (acc, p + 1),
    };
    match closing_e(s, q, '}') {
        Some(r) => Some((entries, r)),
        None => None,
    }
}

fn tuple_e(s: &Vec<char>, p: usize) -> (r: Option<(CalcExpr, CalcExpr, usize)>)
    requires
        p <= s@.len(),
        s@.len() + 16 <= usize::MAX,
    ensures
        match r {
            Some((a, b, q)) => tuple(s@, p as int) == Some(
                (expr_view(a), expr_view(b), q as int),
            ) && p <= q <= s@.len(),
            None => tuple(s@, p as int) is None,
        },
    decreases s@.len() - p, 10nat,
{
    if !char_at_e(s, p, '(') {
        return None;
    }
    match spaced_expr_e(s, p + 1) {
        Some((a, q)) => if char_at_e(s, q, ',') && p < q {
            match spaced_expr_e(s, q + 1) {
                Some((b, r)) => if char_at_e(s, r, ')') {
                    Some((a, b, r + 1))
                } else {
                    None
                },
                None => None,
            }
        } else {
            None
        },
        None => None,
    }
}

fn var_index_e(s: &Vec<char>, p: usize) -> (r: Option<(String, CalcExpr, usize)>)
    requires
        p <= s@.len(),
        s@.len() + 16 <= usize::MAX,
    ensures
        match r {
            Some((n, e, q)) => var_index(s@, p as int) == Some((n@, expr_view(e), q as int))
                && p <= q <= s@.len(),
            None => var_index(s@, p as int) is None,
        },
    decreases s@.len() - p, 10nat,
{
    match var_name_e(s, p) {
        Some((n, q)) => if char_at_e(s, q, '[') && p < q {
            match expr_e(s, q + 1) {
                Some((e, r)) => if char_at_e(s, r, ']') {
                    Some((n, e, r + 1))
                } else {
                    None
                },
                None => None,
            }
        } else {
            None
        },
        None => None,
    }
}

fn call_args_e(s: &Vec<char>, p: usize) -> (r: Option<(Vec<CalcExpr>, usize)>)
    requires
        p <= s@.len(),
        s@.len() + 16 <= usize::MAX,
    ensures
        match r {
            Some((x, q)) => call_args(s@, p as int) == Some((exprs_view(x@), q as int)) && p
                <= q <= s@.len(),
            None => call_args(s@, p as int) is None,
        },
    decreases s@.len() - p, 9nat,
{
    if !char_at_e(s, p, '(') {
        return None;
    }
    let (args, q) = exprs_list_e(s, ws_e(s, p + 1), false);
    let r = ws_e(s, q);
    if char_at_e(s, r, ')') {
        Some((args, r + 1))
    } else {
        None
    }
}

fn call_e(s: &Vec<char>, p: usize) -> (r: Option<(FunctionCall, usize)>)
    requires
        p <= s@.len(),
        s@.len() + 16 <= usize::MAX,
    ensures
        pv_call(r) == call(s@, p as int),
        r matches Some((_, q)) ==> p <= q <= s@.len(),
    decreases s@.len() - p, 9nat,
{
    match var_name_e(s, p) {
        Some((first, q)) => {
            let mut start: Vec<String> = Vec::new();
            start.push(copy_string(&first));
            assert(strings_view(start@) =~= seq![first@]);
            let (path, r) = fn_path_rest_e(s, q, start);
            if p < r {
                match call_args_e(s, r) {
                    Some((args, t)) => {
                        let name = if path.len() > 1 {
                            FunctionName::Namespace(path)
                        } else {
                            FunctionName::Single(first)
                        };
                        Some((FunctionCall { name, arguments: args }, t))
                    },
                    None => None,
                }
            } else {
                None
            }
        },
        None => None,
    }
}

fn call_single_e(s: &Vec<char>, p: usize) -> (r: Option<(FunctionCall, usize)>)
    requires
        p <= s@.len(),
        s@.len() + 16 <= usize::MAX,
    ensures
        pv_call(r) == call_single(s@, p as int),
        r matches Some((_, q)) ==> p <= q <= s@.len(),
    decreases s@.len() - p, 9nat,
{
    match var_name_e(s, p) {
        Some((n, q)) => if p < q {
            match call_args_e(s, q) {
                Some((args, t)) => Some(
                    (FunctionCall { name: FunctionName::Single(n), arguments: args }, t),
                ),
                None => None,
            }
        } else {
            None
        },
        None => None,
    }
}

// ---------------------------------------------------------------------------
// Blocks, definitions and control flow
// ---------------------------------------------------------------------------

fn braced_block_e(s: &Vec<char>, p: usize) -> (r: Option<(Vec<DioAstStatement>, usize)>)
    requires
        p <= s@.len(),
        s@.len() + 16 <= usize::MAX,
    ensures
        pv_block(r) == braced_block(s@, p as int),
        r matches Some((_, q)) ==> p <= q <= s@.len(),
    decreases s@.len() - p, 8nat,
{
    if !char_at_e(s, p, '{') {
        return None;
    }
    let acc: Vec<DioAstStatement> = Vec::new();
    assert(stmts_view(acc@) =~= Seq::<SpecStmt>::empty()) by {
        crate::ast::lemma_stmts_view(acc@);
    }
    let (stmts, q) = block_e(s, mws_e(s, p + 1), acc);
    let r = mws_e(s, q);
    if char_at_e(s, r, '}') {
        Some((stmts, r + 1))
    } else {
        None
    }
}

fn define_e(s: &Vec<char>, p: usize) -> (r: Option<(FunctionDefine, usize)>)
    requires
        p <= s@.len(),
        s@.len() + 16 <= usize::MAX,
    ensures
        pv_define(r) == define(s@, p as int),
        r matches Some((_, q)) ==> p <= q <= s@.len(),
    decreases s@.len() - p, 9nat,
{
    proof {
        reveal_strlit("fn");
    }
    if !(lit_at_e(s, p, "fn") && ws_e(s, p + 2) > p + 2) {
        return None;
    }
    let a = ws_e(s, p + 2);
    let (name, b) = match var_name_e(s, a) {
        Some((n, q)) => (Some(n), ws_e(s, q)),
        None => (None, a),
    };
    if !(char_at_e(s, b, '(') && p < b) {
        return None;
    }
    let (ps, c) = params_list_e(s, b + 1);
    if !(char_at_e(s, c, ')') && p < c) {
        return None;
    }
    match split_params_e(ps) {
        Some((names, variadic)) => match braced_block_e(s, ws_e(s, c + 1)) {
            Some((body, q)) => Some(
                (FunctionDefine { name, params: names, variadic_param: variadic, inner: body }, q),
            ),
            None => None,
        },
        None => None,
    }
}

fn if_stmt_e(s: &Vec<char>, p: usize) -> (r: Option<(ConditionalStatement, usize)>)
    requires
        p <= s@.len(),
        s@.len() + 16 <= usize::MAX,
    ensures
        pv_cond(r) == if_stmt(s@, p as int),
        r matches Some((_, q)) ==> p <= q <= s@.len(),
    decreases s@.len() - p, 30nat,
{
    proof {
        reveal_strlit("if");
        reveal_strlit("else");
    }
    if !(lit_at_e(s, p, "if") && ws_e(s, p + 2) > p + 2) {
        return None;
    }
    match expr_e(s, ws_e(s, p + 2)) {
        Some((cond, q)) => if p < q {
            match braced_block_e(s, ws_e(s, q)) {
                Some((inner, r)) => if p < r {
                    let a = ws_e(s, r);
                    if lit_at_e(s, a, "else") {
                        match braced_block_e(s, ws_e(s, a + 4)) {
                            Some((other, t)) => {
                                return Some(
                                    (
                                        ConditionalStatement {
                                            condition: cond,
                                            inner,
                                            otherwise: Some(other),
                                        },
                                        t,
                                    ),
                                );
                            },
                            None => {},
                        }
                    }
                    Some((ConditionalStatement { condition: cond, inner, otherwise: None }, r))
                } else {
                    None
                },
                None => None,
            }
        } else {
            None
        },
        None => None,
    }
}

fn for_stmt_e(s: &Vec<char>, p: usize) -> (r: Option<(LoopStatement, usize)>)
    requires
        p <= s@.len(),
        s@.len() + 16 <= usize::MAX,
    ensures
        pv_loop(r) == for_stmt(s@, p as int),
        r matches Some((_, q)) ==> p <= q <= s@.len(),
    decreases s@.len() - p, 30nat,
{
    proof {
        reveal_strlit("for");
        reveal_strlit("in");
    }
    if !(lit_at_e(s, p, "for") && ws_e(s, p + 3) > p + 3) {
        return None;
    }
    match var_name_e(s, ws_e(s, p + 3)) {
        Some((var, q)) => {
            let a = ws_e(s, q);
            if a > q && lit_at_e(s, a, "in") && ws_e(s, a + 2) > a + 2 {
                match expr_e(s, ws_e(s, a + 2)) {
                    Some((iter, r)) => if p < r {
                        match braced_block_e(s, ws_e(s, r)) {
                            Some((inner, t)) => Some(
                                (
                                    LoopStatement {
                                        execute_type: LoopExecuteType::Iter { iter, var },
                                        inner,
                                    },
                                    t,
                                ),
                            ),
                            None => None,
                        }
                    } else {
                        None
                    },
                    None => None,
                }
            } else {
                None
            }
        },
        None => None,
    }
}

fn while_stmt_e(s: &Vec<char>, p: usize) -> (r: Option<(LoopStatement, usize)>)
    requires
        p <= s@.len(),
        s@.len() + 16 <= usize::MAX,
    ensures
        pv_loop(r) == while_stmt(s@, p as int),
        r matches Some((_, q)) ==> p <= q <= s@.len(),
    decreases s@.len() - p, 30nat,
{
    proof {
        reveal_strlit("while");
    }
    if !(lit_at_e(s, p, "while") && ws_e(s, p + 5) > p + 5) {
        return None;
    }
    match expr_e(s, ws_e(s, p + 5)) {
        Some((cond, q)) => if p < q {
            match braced_block_e(s, ws_e(s, q)) {
                Some((inner, r)) => Some(
                    (
                        LoopStatement { execute_type: LoopExecuteType::Conditional(cond), inner },
                        r,
                    ),
                ),
                None => None,
            }
        } else {
            None
        },
        None => None,
    }
}

// ---------------------------------------------------------------------------
// Elements
// ---------------------------------------------------------------------------

spec fn pv_piece(r: Option<(ElementPiece, usize)>) -> Option<(ElementItem, int)> {
    match r {
        Some((x, q)) => Some((piece_view(x), q as int)),
        None => None,
    }
}

fn element_item_e(s: &Vec<char>, p: usize, last: bool) -> (r: Option<(ElementPiece, usize)>)
    requires
        p <= s@.len(),
        s@.len() + 16 <= usize::MAX,
    ensures
        pv_piece(r) == element_item(s@, p as int, last),
        r matches Some((_, q)) ==> p <= q <= s@.len(),
    decreases s@.len() - p, 37nat,
{
    let a = mws_e(s, p);
    let first = match attr_pair_e(s, p) {
        Some((k, v, q)) => Some((ElementPiece::Attribute(k, v), q)),
        None => match spaced_expr_e(s, p) {
            Some((e, q)) => Some(
                (ElementPiece::Content(AstElementContentType::InlineExpr(e)), q),
            ),
            None => None,
        },
    };
    match first {
        Some((it, q)) => {
            if last {
                return Some((it, q));
            } else if char_at_e(s, q, ',') {
                return Some((it, q + 1));
            }
        },
        None => {},
    }
    match element_e(s, a) {
        Some((e, q)) => {
            return Some(
                (ElementPiece::Content(AstElementContentType::Children(e)), mws_e(s, q)),
            );
        },
        None => {},
    }
    match if_stmt_e(s, a) {
        Some((c, q)) => {
            return Some(
                (ElementPiece::Content(AstElementContentType::Condition(c)), mws_e(s, q)),
            );
        },
        None => {},
    }
    match for_stmt_e(s, a) {
        Some((l, q)) => {
            return Some((ElementPiece::Content(AstElementContentType::Loop(l)), mws_e(s, q)));
        },
        None => {},
    }
    match while_stmt_e(s, a) {
        Some((l, q)) => Some((ElementPiece::Content(AstElementContentType::Loop(l)), mws_e(s, q))),
        None => None,
    }
}

fn attr_pair_e(s: &Vec<char>, p: usize) -> (r: Option<(String, AstValue, usize)>)
    requires
        p <= s@.len(),
        s@.len() + 16 <= usize::MAX,
    ensures
        match r {
            Some((k, v, q)) => attr_pair(s@, p as int) == Some((k@, ast_value_view(v), q as int))
                && p <= q <= s@.len(),
            None => attr_pair(s@, p as int) is None,
        },
    decreases s@.len() - p, 36nat,
{
    match word_e(s, mws_e(s, p), CharClass::AttrName) {
        Some((k, q)) => {
            let a = mws_e(s, q);
            if char_at_e(s, a, ':') && p < a {
                match value_e(s, mws_e(s, a + 1)) {
                    Some((v, r)) => Some((k, v, mws_e(s, r))),
                    None => None,
                }
            } else {
                None
            }
        },
        None => None,
    }
}

fn element_items_e(s: &Vec<char>, p: usize, acc: Vec<ElementPiece>) -> (r: (
    Vec<ElementPiece>,
    usize,
))
    requires
        p <= s@.len(),
        s@.len() + 16 <= usize::MAX,
    ensures
        element_items(s@, p as int, pieces_view(acc@)) == (pieces_view(r.0@), r.1 as int),
        p <= r.1 <= s@.len(),
    decreases s@.len() - p, 38nat,
{
    let ghost acc0 = pieces_view(acc@);
    let mut cur = acc;
    let mut q = p;
    loop
        invariant
            acc0 == pieces_view(acc@),
            s@.len() + 16 <= usize::MAX,
            p <= q <= s@.len(),
            element_items(s@, q as int, pieces_view(cur@)) == element_items(s@, p as int, acc0),
        decreases s@.len() - q,
    {
        match element_item_e(s, q, false) {
            Some((it, q2)) => {
                if q < q2 {
                    let ghost before = cur@;
                    cur.push(it);
                    assert(pieces_view(cur@) =~= pieces_view(before).push(piece_view(it)));
                    q = q2;
                } else {
                    return (cur, q);
                }
            },
            None => {
                match element_item_e(s, q, true) {
                    Some((it, q2)) => {
                        let ghost before = cur@;
                        cur.push(it);
                        assert(pieces_view(cur@) =~= pieces_view(before).push(piece_view(it)));
                        return (cur, q2);
                    },
                    None => {
                        return (cur, q);
                    },
                }
            },
        }
    }
}

fn element_e(s: &Vec<char>, p: usize) -> (r: Option<(AstElement, usize)>)
    requires
        p <= s@.len(),
        s@.len() + 16 <= usize::MAX,
    ensures
        pv_element(r) == element(s@, p as int),
        r matches Some((_, q)) ==> p <= q <= s@.len(),
    decreases s@.len() - p, 10nat,
{
    match word_e(s, p, CharClass::Alnum) {
        Some((name, q)) => {
            let a = mws_e(s, q);
            if char_at_e(s, a, '{') && p < a {
                let acc: Vec<ElementPiece> = Vec::new();
                assert(pieces_view(acc@) =~= Seq::<ElementItem>::empty());
                let (items, r0) = element_items_e(s, a + 1, acc);
                let r = mws_e(s, r0);
                if char_at_e(s, r, '}') {
                    match build_element_e(name, items) {
                        Some(e) => Some((e, r + 1)),
                        None => None,
                    }
                } else {
                    None
                }
            } else {
                None
            }
        },
        None => None,
    }
}

// ---------------------------------------------------------------------------
// Statements
// ---------------------------------------------------------------------------

fn var_define_e(s: &Vec<char>, p: usize) -> (r: Option<(DioAstStatement, usize)>)
    requires
        p <= s@.len(),
        s@.len() + 16 <= usize::MAX,
    ensures
        pv_stmt(r) == var_define(s@, p as int),
        r matches Some((_, q)) ==> p <= q <= s@.len(),
    decreases s@.len() - p, 35nat,
{
    proof {
        reveal_strlit("let");
    }
    let has_let = lit_at_e(s, p, "let") && ws_e(s, p + 3) > p + 3;
    let a = if has_let {
        ws_e(s, p + 3)
    } else {
        p
    };
    match var_name_e(s, a) {
        Some((name, q)) => {
            let b = ws_e(s, q);
            if char_at_e(s, b, '=') && p < b {
                match expr_e(s, ws_e(s, b + 1)) {
                    Some((e, r)) => if char_at_e(s, r, ';') {
                        Some(
                            (
                                DioAstStatement::VariableAss(
                                    VariableDefine { new: has_let, name, expr: e },
                                ),
                                r + 1,
                            ),
                        )
                    } else {
                        None
                    },
                    None => None,
                }
            } else {
                None
            }
        },
        None => None,
    }
}

fn return_stmt_e(s: &Vec<char>, p: usize) -> (r: Option<(CalcExpr, usize)>)
    requires
        p <= s@.len(),
        s@.len() + 16 <= usize::MAX,
    ensures
        pv_expr(r) == return_stmt(s@, p as int),
        r matches Some((_, q)) ==> p <= q <= s@.len(),
    decreases s@.len() - p, 35nat,
{
    proof {
        reveal_strlit("return ");
    }
    if !lit_at_e(s, p, "return ") {
        return None;
    }
    match expr_e(s, p + 7) {
        Some((e, q)) => if char_at_e(s, q, ';') {
            Some((e, q + 1))
        } else {
            None
        },
        None => None,
    }
}

#[verifier::spinoff_prover]
#[verifier::rlimit(40)]
fn stmt_e(s: &Vec<char>, p: usize) -> (r: Option<(DioAstStatement, usize)>)
    requires
        p <= s@.len(),
        s@.len() + 16 <= usize::MAX,
    ensures
        pv_stmt(r) == stmt(s@, p as int),
        r matches Some((_, q)) ==> p <= q <= s@.len(),
    decreases s@.len() - p, 39nat,
{
    match comment_e(s, p) {
        Some((c, q)) => {
            return Some((DioAstStatement::LineComment(c), q));
        },
        None => {},
    }
    match var_define_e(s, p) {
        Some(x) => {
            return Some(x);
        },
        None => {},
    }
    match return_stmt_e(s, p) {
        Some((e, q)) => {
            return Some((DioAstStatement::ReturnValue(e), q));
        },
        None => {},
    }
    match call_e(s, p) {
        Some((c, q)) => {
            let t = ws_e(s, q);
            if char_at_e(s, t, ';') {
                return Some((DioAstStatement::FunctionCall(c), t + 1));
            }
        },
        None => {},
    }
    expr_or_rest_e(s, p)
}

fn expr_or_rest_e(s: &Vec<char>, p: usize) -> (r: Option<(DioAstStatement, usize)>)
    requires
        p <= s@.len(),
        s@.len() + 16 <= usize::MAX,
    ensures
        pv_stmt(r) == expr_or_rest(s@, p as int),
        r matches Some((_, q)) ==> p <= q <= s@.len(),
    decreases s@.len() - p, 38nat,
{
    match if_stmt_e(s, p) {
        Some((c, q)) => {
            return Some((DioAstStatement::IfStatement(c), q));
        },
        None => {},
    }
    match for_stmt_e(s, p) {
        Some((l, q)) => {
            return Some((DioAstStatement::LoopStatement(l), q));
        },
        None => {},
    }
    match while_stmt_e(s, p) {
        Some((l, q)) => {
            return Some((DioAstStatement::LoopStatement(l), q));
        },
        None => {},
    }
    match define_e(s, p) {
        Some((d, q)) => {
            return Some((DioAstStatement::FunctionDefine(Rc::new(d)), q));
        },
        None => {},
    }
    match use_stmt_e(s, p) {
        Some((u, q)) => {
            return Some((DioAstStatement::ModuleUse(UseStatement(u)), q));
        },
        None => {},
    }
    match expr_e(s, p) {
        Some((e, q)) => {
            let t = ws_e(s, q);
            if char_at_e(s, t, ';') {
                Some((DioAstStatement::CalcExpr(e), t + 1))
            } else {
                None
            }
        },
        None => None,
    }
}

fn block_e(s: &Vec<char>, p: usize, acc: Vec<DioAstStatement>) -> (r: (
    Vec<DioAstStatement>,
    usize,
))
    requires
        p <= s@.len(),
        s@.len() + 16 <= usize::MAX,
    ensures
        block(s@, p as int, stmts_view(acc@)) == (stmts_view(r.0@), r.1 as int),
        p <= r.1 <= s@.len(),
    decreases s@.len() - p, 40nat,
{
    let ghost acc0 = stmts_view(acc@);
    let mut cur = acc;
    let mut q = p;
    loop
        invariant
            acc0 == stmts_view(acc@),
            s@.len() + 16 <= usize::MAX,
            p <= q <= s@.len(),
            block(s@, q as int, stmts_view(cur@)) == block(s@, p as int, acc0),
        decreases s@.len() - q,
    {
        let a = mws_e(s, q);
        match stmt_e(s, a) {
            Some((st, q2)) => {
                if a < q2 {
                    let b = mws_e(s, q2);
                    proof {
                        lemma_stmts_view_push(cur@, st);
                    }
                    cur.push(st);
                    if q < b {
                        q = b;
                    } else {
                        return (cur, q2);
                    }
                } else {
                    return (cur, q);
                }
            },
            None => {
                return (cur, q);
            },
        }
    }
}


// ---------------------------------------------------------------------------
// Whole scripts
// ---------------------------------------------------------------------------

/// What a script parses to: its statements, when they reach the end of the
/// text, or the message of the failure at the place where they stop.
pub open spec fn parse_script(s: Seq<char>) -> Result<Seq<SpecStmt>, Seq<char>> {
    let (stmts, q) = block(s, 0, Seq::empty());
    if q == s.len() {
        Ok(stmts)
    } else {
        Err(failure_text(s, q))
    }
}

impl DioscriptAst {
    /// Parses a script. A text too long to index with room to spare is
    /// refused with a message that says so.
    pub fn from_string(message: &str) -> (r: Result<DioscriptAst, ParseError>)
        ensures
            r is Ok <==> message@.len() + 16 <= usize::MAX && parse_script(message@) is Ok,
            match r {
                Ok(ast) => parse_script(message@) == Ok::<Seq<SpecStmt>, Seq<char>>(ast@),
                Err(ParseError::ParseFailure { text }) => if message@.len() + 16 <= usize::MAX {
                    parse_script(message@) == Err::<Seq<SpecStmt>, Seq<char>>(text@)
                } else {
                    text@ == "Parse Error: the text is too long"@
                },
                Err(ParseError::UnMatchContent { .. }) => false,
            },
    {
        let s = chars_of(message);
        if s.len() > usize::MAX - 16 {
            return Err(ParseError::ParseFailure { text: String::from_str("Parse Error: the text is too long") });
        }
        let acc: Vec<DioAstStatement> = Vec::new();
        assert(stmts_view(acc@) =~= Seq::<SpecStmt>::empty()) by {
            crate::ast::lemma_stmts_view(acc@);
        }
        let (stmts, q) = block_e(&s, 0, acc);
        if q == s.len() {
            Ok(DioscriptAst { stats: stmts })
        } else {
            Err(ParseError::ParseFailure { text: failure_message(&s, q) })
        }
    }
}

} // verus!
