//! The grammar of DioScript, as a recursive-descent definition on characters.
//!
//! Each definition reads from position `p` of the text `s` and yields the
//! syntax it recognised with the position after it, or nothing. Alternatives
//! are tried in order and the first that applies is taken, as an ordered
//! choice. The ranks in the `decreases` clauses order the definitions that
//! may call one another without consuming input.
use vstd::prelude::*;

use crate::ast::{
    CalculateMark, SpecAstContent, SpecAstElement, SpecAstValue, SpecCall, SpecCond, SpecExpr,
    SpecFnDefine, SpecFnName, SpecLinkPart, SpecLoop, SpecLoopKind, SpecStmt,
};
use crate::chars::{in_class, is_alpha, is_digit, skip, CharClass};
use crate::text::trimmed;
use crate::value::key_index;

verus! {

broadcast use crate::chars::lemma_skip_bounds;

pub open spec fn ws(s: Seq<char>, p: int) -> int {
    skip(s, p, CharClass::Space)
}

pub open spec fn mws(s: Seq<char>, p: int) -> int {
    skip(s, p, CharClass::Multi)
}

/// The text `t` stands at position `p`.
pub open spec fn lit_at(s: Seq<char>, p: int, t: Seq<char>) -> bool {
    0 <= p && p + t.len() <= s.len() && s.subrange(p, p + t.len()) == t
}

/// The character `c` stands at position `p`.
pub open spec fn char_at(s: Seq<char>, p: int, c: char) -> bool {
    0 <= p < s.len() && s[p] == c
}

/// Whether `c` is `t` once an uppercase ASCII letter is taken as lowercase.
pub open spec fn lower_is(c: char, t: char) -> bool {
    if 'A' <= c && c <= 'Z' {
        (c as u32) + 32 == (t as u32)
    } else {
        c == t
    }
}

/// The lowercase text `t` stands at position `p`, in any letter case.
pub open spec fn lit_at_nocase(s: Seq<char>, p: int, t: Seq<char>) -> bool {
    0 <= p && p + t.len() <= s.len() && forall|i: int|
        0 <= i < t.len() ==> lower_is(#[trigger] s[p + i], t[i])
}

// ---------------------------------------------------------------------------
// Names, numbers, booleans, strings, comments
// ---------------------------------------------------------------------------

/// A variable name: a letter followed by letters, digits and `_`.
pub open spec fn var_name(s: Seq<char>, p: int) -> Option<(Seq<char>, int)> {
    if 0 <= p < s.len() && is_alpha(s[p]) {
        let q = skip(s, p + 1, CharClass::VarTail);
        Some((s.subrange(p, q), q))
    } else {
        None
    }
}

/// A non-empty run of characters of class `k`.
pub open spec fn word(s: Seq<char>, p: int, k: CharClass) -> Option<(Seq<char>, int)> {
    let q = skip(s, p, k);
    if 0 <= p < q {
        Some((s.subrange(p, q), q))
    } else {
        None
    }
}

/// The value of a sequence of decimal digits.
pub open spec fn digits_value(ds: Seq<char>) -> nat
    decreases ds.len(),
{
    if ds.len() == 0 {
        0
    } else {
        digits_value(ds.drop_last()) * 10 + ((ds.last() as u32) - ('0' as u32)) as nat
    }
}

/// An integer literal: an optional sign and decimal digits, which must fit
/// in 64 bits. A decimal point followed by a digit is not accepted.
pub open spec fn number(s: Seq<char>, p: int) -> Option<(i64, int)> {
    let neg = char_at(s, p, '-');
    let d0 = if char_at(s, p, '-') || char_at(s, p, '+') {
        p + 1
    } else {
        p
    };
    let q = skip(s, d0, CharClass::Digit);
    if !(0 <= d0 < q) {
        None
    } else if char_at(s, q, '.') && q + 1 < s.len() && is_digit(s[q + 1]) {
        None
    } else {
        let v = digits_value(s.subrange(d0, q));
        let w: int = if neg {
            -v
        } else {
            v as int
        };
        if i64::MIN <= w <= i64::MAX {
            Some((w as i64, q))
        } else {
            None
        }
    }
}

/// `true` or `false`, in any letter case.
pub open spec fn boolean(s: Seq<char>, p: int) -> Option<(bool, int)> {
    if lit_at_nocase(s, p, "true"@) {
        Some((true, p + 4))
    } else if lit_at_nocase(s, p, "false"@) {
        Some((false, p + 5))
    } else {
        None
    }
}

/// The character that an escape `\c` stands for.
pub open spec fn escape(c: char) -> Option<char> {
    if c == '"' {
        Some('"')
    } else if c == '\\' {
        Some('\\')
    } else if c == '/' {
        Some('/')
    } else if c == 'b' {
        Some('\u{8}')
    } else if c == 'f' {
        Some('\u{c}')
    } else if c == 'n' {
        Some('\n')
    } else if c == 'r' {
        Some('\r')
    } else if c == 't' {
        Some('\t')
    } else {
        None
    }
}

pub open spec fn is_control(c: char) -> bool {
    (c as u32) < 0x20 || (c as u32) == 0x7f
}

/// The rest of a string literal after its opening quote.
pub open spec fn string_body(s: Seq<char>, p: int, acc: Seq<char>) -> Option<(Seq<char>, int)>
    decreases s.len() - p,
{
    if !(0 <= p < s.len()) {
        None
    } else if s[p] == '"' {
        Some((acc, p + 1))
    } else if s[p] == '\\' {
        if p + 1 < s.len() && escape(s[p + 1]) is Some {
            string_body(s, p + 2, acc.push(escape(s[p + 1])->0))
        } else {
            None
        }
    } else if is_control(s[p]) {
        None
    } else {
        string_body(s, p + 1, acc.push(s[p]))
    }
}

/// A string literal in double quotes, with the escapes `\"`, `\\`, `\/`,
/// `\b`, `\f`, `\n`, `\r` and `\t`; control characters must be escaped.
pub open spec fn string_lit(s: Seq<char>, p: int) -> Option<(Seq<char>, int)> {
    if char_at(s, p, '"') {
        string_body(s, p + 1, Seq::empty())
    } else {
        None
    }
}

/// The end of the line that starts at `p`.
pub open spec fn line_end(s: Seq<char>, p: int) -> int
    decreases s.len() - p,
{
    if 0 <= p < s.len() && s[p] != '\n' && s[p] != '\r' {
        line_end(s, p + 1)
    } else {
        p
    }
}

/// `// text`: the text up to the end of the line, trimmed.
pub open spec fn comment(s: Seq<char>, p: int) -> Option<(Seq<char>, int)> {
    if lit_at(s, p, "//"@) {
        let q = line_end(s, p + 2);
        Some((trimmed(s.subrange(p + 2, q)), q))
    } else {
        None
    }
}

/// `use a::b::c;`
pub open spec fn use_stmt(s: Seq<char>, p: int) -> Option<(Seq<Seq<char>>, int)> {
    if lit_at(s, p, "use"@) && ws(s, p + 3) > p + 3 {
        match word(s, ws(s, p + 3), CharClass::ModuleName) {
            Some((first, q)) => match module_path_rest(s, q, seq![first]) {
                (path, r) => {
                    let t = ws(s, r);
                    if char_at(s, t, ';') {
                        Some((path, t + 1))
                    } else {
                        None
                    }
                },
            },
            None => None,
        }
    } else {
        None
    }
}

/// Further `::name` parts of a module path.
pub open spec fn module_path_rest(s: Seq<char>, p: int, acc: Seq<Seq<char>>) -> (Seq<Seq<char>>, int)
    decreases s.len() - p,
{
    if lit_at(s, p, "::"@) {
        match word(s, p + 2, CharClass::ModuleName) {
            Some((n, q)) => if p < q <= s.len() {
                module_path_rest(s, q, acc.push(n))
            } else {
                (acc, p)
            },
            None => (acc, p),
        }
    } else {
        (acc, p)
    }
}

/// Whether the names are pairwise distinct.
pub open spec fn distinct_names(ns: Seq<Seq<char>>) -> bool {
    forall|i: int, j: int| 0 <= i < j < ns.len() ==> ns[i] != ns[j]
}

/// The entries of a dictionary literal, with a later entry replacing an
/// earlier one with the same key in its place.
pub open spec fn dict_insert(d: Seq<(Seq<char>, SpecExpr)>, k: Seq<char>, v: SpecExpr) -> Seq<
    (Seq<char>, SpecExpr),
> {
    match key_index(d, k) {
        Some(i) => d.update(i, (k, v)),
        None => d.push((k, v)),
    }
}

/// An element's attribute list gains an attribute, unless it already has one
/// of that name.
pub open spec fn attr_insert(
    d: Seq<(Seq<char>, SpecAstValue)>,
    k: Seq<char>,
    v: SpecAstValue,
) -> Option<Seq<(Seq<char>, SpecAstValue)>> {
    match key_index(d, k) {
        Some(_) => None,
        None => Some(d.push((k, v))),
    }
}

/// One item inside the braces of an element.
pub enum ElementItem {
    Attribute(Seq<char>, SpecAstValue),
    Content(SpecAstContent),
}

/// The element that the items build, or nothing when an attribute repeats.
pub open spec fn build_element(name: Seq<char>, items: Seq<ElementItem>) -> Option<SpecAstElement>
    decreases items.len(),
{
    if items.len() == 0 {
        Some(SpecAstElement { name, attributes: Seq::empty(), content: Seq::empty() })
    } else {
        match build_element(name, items.drop_last()) {
            Some(e) => match items.last() {
                ElementItem::Attribute(k, v) => match attr_insert(e.attributes, k, v) {
                    Some(a) => Some(SpecAstElement { name, attributes: a, content: e.content }),
                    None => None,
                },
                ElementItem::Content(c) => Some(
                    SpecAstElement { name, attributes: e.attributes, content: e.content.push(c) },
                ),
            },
            None => None,
        }
    }
}

/// The parameters of a function: names, of which the last may be marked
/// `*` as the one that collects the remaining arguments.
pub struct SpecParams {
    pub names: Seq<Seq<char>>,
    pub variadic: Option<Seq<char>>,
}

/// A parameter: a name, or `*name` for the variadic parameter.
pub open spec fn param(s: Seq<char>, p: int) -> Option<(Seq<char>, bool, int)> {
    if char_at(s, p, '*') {
        match var_name(s, p + 1) {
            Some((n, q)) => Some((n, true, q)),
            None => None,
        }
    } else {
        match var_name(s, p) {
            Some((n, q)) => Some((n, false, q)),
            None => None,
        }
    }
}

/// A parameter with the spaces around it.
pub open spec fn spaced_param(s: Seq<char>, p: int) -> Option<(Seq<char>, bool, int)> {
    match param(s, ws(s, p)) {
        Some((n, v, q)) => Some((n, v, ws(s, q))),
        None => None,
    }
}

/// The rest of a parameter list after its first parameter.
pub open spec fn params_rest(s: Seq<char>, p: int, acc: Seq<(Seq<char>, bool)>) -> (
    Seq<(Seq<char>, bool)>,
    int,
)
    decreases s.len() - p,
{
    if char_at(s, p, ',') {
        match spaced_param(s, p + 1) {
            Some((n, v, q)) => if p < q <= s.len() {
                params_rest(s, q, acc.push((n, v)))
            } else {
                (acc, p)
            },
            None => (acc, p),
        }
    } else {
        (acc, p)
    }
}

/// The parameters between the parentheses of a definition.
pub open spec fn params_list(s: Seq<char>, p: int) -> (Seq<(Seq<char>, bool)>, int) {
    match spaced_param(s, p) {
        Some((n, v, q)) => if p < q <= s.len() {
            params_rest(s, q, seq![(n, v)])
        } else {
            (Seq::empty(), p)
        },
        None => (Seq::empty(), p),
    }
}

/// The parameter list as fixed names and the variadic one; nothing when a
/// `*` parameter is not the last or a name repeats.
pub open spec fn split_params(ps: Seq<(Seq<char>, bool)>) -> Option<SpecParams> {
    let all = Seq::new(ps.len(), |i: int| ps[i].0);
    if !distinct_names(all) {
        None
    } else if ps.len() > 0 && ps.last().1 {
        if forall|i: int| 0 <= i < ps.len() - 1 ==> !(#[trigger] ps[i]).1 {
            Some(SpecParams { names: all.drop_last(), variadic: Some(ps.last().0) })
        } else {
            None
        }
    } else if forall|i: int| 0 <= i < ps.len() ==> !(#[trigger] ps[i]).1 {
        Some(SpecParams { names: all, variadic: None })
    } else {
        None
    }
}

// ---------------------------------------------------------------------------
// Expressions and statements
// ---------------------------------------------------------------------------

/// A statement, or a sequence of statements, as the parser builds them.
pub open spec fn mk_binary(m: CalculateMark, l: SpecExpr, r: SpecExpr) -> SpecExpr {
    SpecExpr::Binary(m, Box::new(l), Box::new(r))
}

/// The operator of the multiplicative level at `p`.
pub open spec fn mul_op(s: Seq<char>, p: int) -> Option<CalculateMark> {
    if char_at(s, p, '*') {
        Some(CalculateMark::Multiply)
    } else if char_at(s, p, '/') {
        Some(CalculateMark::Divide)
    } else if char_at(s, p, '%') {
        Some(CalculateMark::Mod)
    } else {
        None
    }
}

pub open spec fn add_op(s: Seq<char>, p: int) -> Option<CalculateMark> {
    if char_at(s, p, '+') {
        Some(CalculateMark::Plus)
    } else if char_at(s, p, '-') {
        Some(CalculateMark::Minus)
    } else {
        None
    }
}

/// A comparison operator; the two-character ones are tried first.
pub open spec fn cmp_op(s: Seq<char>, p: int) -> Option<(CalculateMark, int)> {
    if lit_at(s, p, "=="@) {
        Some((CalculateMark::Equal, 2))
    } else if lit_at(s, p, "!="@) {
        Some((CalculateMark::NotEqual, 2))
    } else if lit_at(s, p, ">="@) {
        Some((CalculateMark::LargeOrEqual, 2))
    } else if lit_at(s, p, "<="@) {
        Some((CalculateMark::SmallOrEqual, 2))
    } else if char_at(s, p, '>') {
        Some((CalculateMark::Large, 1))
    } else if char_at(s, p, '<') {
        Some((CalculateMark::Small, 1))
    } else {
        None
    }
}

/// The operator of level `level` at `p` and its length: level 0 is `||`,
/// 1 is `&&`, 2 the comparisons, 3 `+ -`, 4 `* / %`.
pub open spec fn level_op(s: Seq<char>, p: int, level: nat) -> Option<(CalculateMark, int)> {
    if level == 0 {
        if lit_at(s, p, "||"@) {
            Some((CalculateMark::Or, 2))
        } else {
            None
        }
    } else if level == 1 {
        if lit_at(s, p, "&&"@) {
            Some((CalculateMark::And, 2))
        } else {
            None
        }
    } else if level == 2 {
        cmp_op(s, p)
    } else if level == 3 {
        match add_op(s, p) {
            Some(m) => Some((m, 1)),
            None => None,
        }
    } else {
        match mul_op(s, p) {
            Some(m) => Some((m, 1)),
            None => None,
        }
    }
}

pub proof fn lemma_level_op(s: Seq<char>, p: int, lv: nat)
    ensures
        level_op(s, p, lv) matches Some((m, n)) ==> 1 <= n && 0 <= p && p + n <= s.len(),
{
    reveal_strlit("||");
    reveal_strlit("&&");
    reveal_strlit("==");
    reveal_strlit("!=");
    reveal_strlit(">=");
    reveal_strlit("<=");
}

/// The result of a parse at a position: the syntax and the position after it.
pub type PExpr = Option<(SpecExpr, int)>;

/// An expression: the operator levels from `||` (loosest) to `* / %`
/// (tightest), each left-associative, over factors.
pub open spec fn expr(s: Seq<char>, p: int) -> PExpr
    decreases s.len() - p, 20nat,
{
    level(s, p, 0)
}

/// One operator level: an operand of the next level, then any number of
/// `op operand` pairs, folded to the left.
pub open spec fn level(s: Seq<char>, p: int, lv: nat) -> PExpr
    decreases s.len() - p, 19nat - (if lv <= 4 {
        lv
    } else {
        4
    }),
{
    if lv >= 4 {
        match factor(s, p) {
            Some((e, q)) => if p < q <= s.len() {
                level_rest(s, q, 4, e)
            } else {
                None
            },
            None => None,
        }
    } else {
        match level(s, p, lv + 1) {
            Some((e, q)) => if p < q <= s.len() {
                level_rest(s, q, lv, e)
            } else {
                None
            },
            None => None,
        }
    }
}

/// The `op operand` pairs of a level after its first operand.
pub open spec fn level_rest(s: Seq<char>, p: int, lv: nat, acc: SpecExpr) -> PExpr
    decreases s.len() - p, 30nat,
{
    let a = ws(s, p);
    match level_op(s, a, lv) {
        Some((m, n)) => {
            proof {
                lemma_level_op(s, a, lv);
            }
            let b = ws(s, a + n);
            let operand = if lv >= 4 {
                factor(s, b)
            } else {
                level(s, b, lv + 1)
            };
            match operand {
                Some((r, q)) => if p < q <= s.len() {
                    level_rest(s, q, lv, mk_binary(m, acc, r))
                } else {
                    Some((acc, p))
                },
                None => Some((acc, p)),
            }
        },
        None => Some((acc, p)),
    }
}

/// A factor: a chain `value.part...`, a value, or `( expr )`, with spaces
/// around it.
pub open spec fn factor(s: Seq<char>, p: int) -> PExpr
    decreases s.len() - p, 14nat,
{
    let a = ws(s, p);
    if !(p <= a <= s.len()) {
        None
    } else {
        match link(s, a) {
            Some((e, q)) => Some((e, ws(s, q))),
            None => match value(s, a) {
                Some((v, q)) => Some((SpecExpr::Value(v), ws(s, q))),
                None => if char_at(s, a, '(') {
                    match expr(s, a + 1) {
                        Some((e, q)) => if char_at(s, q, ')') && a < q {
                            Some((e, ws(s, q + 1)))
                        } else {
                            None
                        },
                        None => None,
                    }
                } else {
                    None
                },
            },
        }
    }
}

/// A chain `value . part . part ...` of at least one part; a part is a
/// method call `name(args)`, a name or a number.
pub open spec fn link(s: Seq<char>, p: int) -> PExpr
    decreases s.len() - p, 13nat,
{
    match value(s, p) {
        Some((v, q)) => {
            let a = mws(s, q);
            if p < q <= s.len() && char_at(s, a, '.') {
                match link_part(s, mws(s, a + 1)) {
                    Some((part, r)) => if p < r <= s.len() {
                        let (parts, t) = link_rest(s, r, seq![part]);
                        Some((SpecExpr::Link { this: v, list: parts }, t))
                    } else {
                        None
                    },
                    None => None,
                }
            } else {
                None
            }
        },
        None => None,
    }
}

pub open spec fn link_part(s: Seq<char>, p: int) -> Option<(SpecLinkPart, int)>
    decreases s.len() - p, 12nat,
{
    match call_single(s, p) {
        Some((c, q)) => Some((SpecLinkPart::Call(c), q)),
        None => match var_name(s, p) {
            Some((n, q)) => Some((SpecLinkPart::Field(n), q)),
            None => match word(s, p, CharClass::Digit) {
                Some((n, q)) => Some((SpecLinkPart::Field(n), q)),
                None => None,
            },
        },
    }
}

pub open spec fn link_rest(s: Seq<char>, p: int, acc: Seq<SpecLinkPart>) -> (Seq<SpecLinkPart>, int)
    decreases s.len() - p, 30nat,
{
    let a = mws(s, p);
    if char_at(s, a, '.') {
        match link_part(s, mws(s, a + 1)) {
            Some((part, q)) => if p < q <= s.len() {
                link_rest(s, q, acc.push(part))
            } else {
                (acc, p)
            },
            None => (acc, p),
        }
    } else {
        (acc, p)
    }
}

/// A value: a number, a boolean, a string, a list, a dictionary, a pair,
/// an element, a call, a function definition, an indexed variable or a
/// variable, tried in this order.
pub open spec fn value(s: Seq<char>, p: int) -> Option<(SpecAstValue, int)>
    decreases s.len() - p, 11nat,
{
    match number(s, p) {
        Some((n, q)) => Some((SpecAstValue::Number(n), q)),
        None => match boolean(s, p) {
            Some((b, q)) => Some((SpecAstValue::Boolean(b), q)),
            None => match string_lit(s, p) {
                Some((t, q)) => Some((SpecAstValue::String(t), q)),
                None => match list(s, p) {
                    Some((l, q)) => Some((SpecAstValue::List(l), q)),
                    None => match dict(s, p) {
                        Some((d, q)) => Some((SpecAstValue::Dict(d), q)),
                        None => match tuple(s, p) {
                            Some((a, b, q)) => Some(
                                (SpecAstValue::Tuple(Box::new(a), Box::new(b)), q),
                            ),
                            None => match element(s, p) {
                                Some((e, q)) => Some((SpecAstValue::Element(e), q)),
                                None => match call(s, p) {
                                    Some((c, q)) => Some((SpecAstValue::FunctionCaller(c), q)),
                                    None => match define(s, p) {
                                        Some((d, q)) => Some((SpecAstValue::FunctionDefine(d), q)),
                                        None => match var_index(s, p) {
                                            Some((n, i, q)) => Some(
                                                (SpecAstValue::VariableIndex(n, Box::new(i)), q),
                                            ),
                                            None => match var_name(s, p) {
                                                Some((n, q)) => Some(
                                                    (SpecAstValue::Variable(n), q),
                                                ),
                                                None => None,
                                            },
                                        },
                                    },
                                },
                            },
                        },
                    },
                },
            },
        },
    }
}

/// An expression with line breaks and spaces around it.
pub open spec fn spaced_expr(s: Seq<char>, p: int) -> PExpr
    decreases s.len() - p, 21nat,
{
    let a = mws(s, p);
    if p <= a <= s.len() {
        match expr(s, a) {
            Some((e, q)) => Some((e, mws(s, q))),
            None => None,
        }
    } else {
        None
    }
}

/// Items separated by `,`; an item that does not follow a `,` ends the list
/// before that `,`.
pub open spec fn exprs_rest(s: Seq<char>, p: int, acc: Seq<SpecExpr>, spaced: bool) -> (
    Seq<SpecExpr>,
    int,
)
    decreases s.len() - p, 30nat,
{
    if char_at(s, p, ',') {
        match (if spaced {
            spaced_expr(s, p + 1)
        } else {
            space_expr(s, p + 1)
        }) {
            Some((e, q)) => if p < q <= s.len() {
                exprs_rest(s, q, acc.push(e), spaced)
            } else {
                (acc, p)
            },
            None => (acc, p),
        }
    } else {
        (acc, p)
    }
}

/// An expression with spaces (not line breaks) around it.
pub open spec fn space_expr(s: Seq<char>, p: int) -> PExpr
    decreases s.len() - p, 21nat,
{
    let a = ws(s, p);
    if p <= a <= s.len() {
        match expr(s, a) {
            Some((e, q)) => Some((e, ws(s, q))),
            None => None,
        }
    } else {
        None
    }
}

/// A possibly empty list of expressions separated by `,`.
pub open spec fn exprs_list(s: Seq<char>, p: int, spaced: bool) -> (Seq<SpecExpr>, int)
    decreases s.len() - p, 22nat,
{
    match (if spaced {
        spaced_expr(s, p)
    } else {
        space_expr(s, p)
    }) {
        Some((e, q)) => if p < q <= s.len() {
            exprs_rest(s, q, seq![e], spaced)
        } else {
            (Seq::empty(), p)
        },
        None => (Seq::empty(), p),
    }
}

/// The end of a list or dictionary: an optional `,`, line breaks, and the
/// closing character.
pub open spec fn closing(s: Seq<char>, p: int, c: char) -> Option<int> {
    let a = if char_at(s, p, ',') {
        p + 1
    } else {
        p
    };
    let b = mws(s, a);
    if char_at(s, b, c) {
        Some(b + 1)
    } else {
        None
    }
}

/// `[ expr, ... ]`
pub open spec fn list(s: Seq<char>, p: int) -> Option<(Seq<SpecExpr>, int)>
    decreases s.len() - p, 10nat,
{
    if char_at(s, p, '[') {
        let (items, q) = exprs_list(s, p + 1, true);
        match closing(s, q, ']') {
            Some(r) => Some((items, r)),
            None => None,
        }
    } else {
        None
    }
}

/// One `"key": expr` entry of a dictionary.
pub open spec fn dict_entry(s: Seq<char>, p: int) -> Option<(Seq<char>, SpecExpr, int)>
    decreases s.len() - p, 23nat,
{
    match string_lit(s, mws(s, p)) {
        Some((k, q)) => {
            let a = mws(s, q);
            if char_at(s, a, ':') && p < a {
                match spaced_expr(s, a + 1) {
                    Some((e, r)) => Some((k, e, r)),
                    None => None,
                }
            } else {
                None
            }
        },
        None => None,
    }
}

pub open spec fn dict_rest(s: Seq<char>, p: int, acc: Seq<(Seq<char>, SpecExpr)>) -> (
    Seq<(Seq<char>, SpecExpr)>,
    int,
)
    decreases s.len() - p, 30nat,
{
    if char_at(s, p, ',') {
        match dict_entry(s, p + 1) {
            Some((k, e, q)) => if p < q <= s.len() {
                dict_rest(s, q, dict_insert(acc, k, e))
            } else {
                (acc, p)
            },
            None => (acc, p),
        }
    } else {
        (acc, p)
    }
}

/// `{ "key": expr, ... }`; a repeated key keeps its last value.
pub open spec fn dict(s: Seq<char>, p: int) -> Option<(Seq<(Seq<char>, SpecExpr)>, int)>
    decreases s.len() - p, 10nat,
{
    if char_at(s, p, '{') {
        let (entries, q) = match dict_entry(s, p + 1) {
            Some((k, e, q)) => if p < q <= s.len() {
                dict_rest(s, q, seq![(k, e)])
            } else {
                (Seq::empty(), p + 1)
            },
            None => (Seq::empty(), p + 1),
        };
        match closing(s, q, '}') {
            Some(r) => Some((entries, r)),
            None => None,
        }
    } else {
        None
    }
}

/// `( expr, expr )`
pub open spec fn tuple(s: Seq<char>, p: int) -> Option<(SpecExpr, SpecExpr, int)>
    decreases s.len() - p, 10nat,
{
    if char_at(s, p, '(') {
        match spaced_expr(s, p + 1) {
            Some((a, q)) => if char_at(s, q, ',') && p < q {
                match spaced_expr(s, q + 1) {
                    Some((b, r)) => if char_at(s, r, ')') {
                        Some((a, b, r + 1))
                    } else {
                        None
                    },
                    None => None,
                }
            } else {
                None
            },
            None => None,
        }
    } else {
        None
    }
}

/// `name [ expr ]`
pub open spec fn var_index(s: Seq<char>, p: int) -> Option<(Seq<char>, SpecExpr, int)>
    decreases s.len() - p, 10nat,
{
    match var_name(s, p) {
        Some((n, q)) => if char_at(s, q, '[') && p < q {
            match expr(s, q + 1) {
                Some((e, r)) => if char_at(s, r, ']') {
                    Some((n, e, r + 1))
                } else {
                    None
                },
                None => None,
            }
        } else {
            None
        },
        None => None,
    }
}

/// The arguments of a call: `( expr, ... )` after the name.
pub open spec fn call_args(s: Seq<char>, p: int) -> Option<(Seq<SpecExpr>, int)>
    decreases s.len() - p, 9nat,
{
    if char_at(s, p, '(') {
        let (args, q) = exprs_list(s, ws(s, p + 1), false);
        let r = ws(s, q);
        if char_at(s, r, ')') {
            Some((args, r + 1))
        } else {
            None
        }
    } else {
        None
    }
}

/// Further `::name` parts of a function path.
pub open spec fn fn_path_rest(s: Seq<char>, p: int, acc: Seq<Seq<char>>) -> (Seq<Seq<char>>, int)
    decreases s.len() - p,
{
    if lit_at(s, p, "::"@) {
        match var_name(s, p + 2) {
            Some((n, q)) => if p < q <= s.len() {
                fn_path_rest(s, q, acc.push(n))
            } else {
                (acc, p)
            },
            None => (acc, p),
        }
    } else {
        (acc, p)
    }
}

/// `name(args)` or `a::b::name(args)`.
pub open spec fn call(s: Seq<char>, p: int) -> Option<(SpecCall, int)>
    decreases s.len() - p, 9nat,
{
    match var_name(s, p) {
        Some((first, q)) => {
            let (path, r) = fn_path_rest(s, q, seq![first]);
            if p < r <= s.len() {
                match call_args(s, r) {
                    Some((args, t)) => Some(
                        (
                            SpecCall {
                                name: if path.len() > 1 {
                                    SpecFnName::Namespace(path)
                                } else {
                                    SpecFnName::Single(first)
                                },
                                arguments: args,
                            },
                            t,
                        ),
                    ),
                    None => None,
                }
            } else {
                None
            }
        },
        None => None,
    }
}

/// `name(args)` with a single name, as in a method call.
pub open spec fn call_single(s: Seq<char>, p: int) -> Option<(SpecCall, int)>
    decreases s.len() - p, 9nat,
{
    match var_name(s, p) {
        Some((n, q)) => if p < q <= s.len() {
            match call_args(s, q) {
                Some((args, t)) => Some(
                    (SpecCall { name: SpecFnName::Single(n), arguments: args }, t),
                ),
                None => None,
            }
        } else {
            None
        },
        None => None,
    }
}

/// `{ statements }` after a keyword: the statements with line breaks
/// around them.
pub open spec fn braced_block(s: Seq<char>, p: int) -> Option<(Seq<SpecStmt>, int)>
    decreases s.len() - p, 8nat,
{
    if char_at(s, p, '{') {
        let (stmts, q) = block(s, mws(s, p + 1), Seq::empty());
        let r = mws(s, q);
        if char_at(s, r, '}') {
            Some((stmts, r + 1))
        } else {
            None
        }
    } else {
        None
    }
}

/// `fn name(params) { statements }`, the name being optional.
pub open spec fn define(s: Seq<char>, p: int) -> Option<(SpecFnDefine, int)>
    decreases s.len() - p, 9nat,
{
    if lit_at(s, p, "fn"@) && ws(s, p + 2) > p + 2 {
        let a = ws(s, p + 2);
        let (name, b) = match var_name(s, a) {
            Some((n, q)) => (Some(n), ws(s, q)),
            None => (None, a),
        };
        if char_at(s, b, '(') && p < b {
            let (ps, c) = params_list(s, b + 1);
            if char_at(s, c, ')') && p < c {
                match split_params(ps) {
                    Some(sp) => match braced_block(s, ws(s, c + 1)) {
                        Some((body, q)) => Some(
                            (
                                SpecFnDefine {
                                    name,
                                    params: sp.names,
                                    variadic_param: sp.variadic,
                                    inner: body,
                                },
                                q,
                            ),
                        ),
                        None => None,
                    },
                    None => None,
                }
            } else {
                None
            }
        } else {
            None
        }
    } else {
        None
    }
}

/// `if expr { statements }`, optionally followed by `else { statements }`.
pub open spec fn if_stmt(s: Seq<char>, p: int) -> Option<(SpecCond, int)>
    decreases s.len() - p, 30nat,
{
    if lit_at(s, p, "if"@) && ws(s, p + 2) > p + 2 {
        match expr(s, ws(s, p + 2)) {
            Some((cond, q)) => if p < q <= s.len() {
                match braced_block(s, ws(s, q)) {
                    Some((inner, r)) => if p < r <= s.len() {
                        let a = ws(s, r);
                        proof {
                            reveal_strlit("else");
                        }
                        if lit_at(s, a, "else"@) {
                            match braced_block(s, ws(s, a + 4)) {
                                Some((other, t)) => Some(
                                    (SpecCond { condition: cond, inner, otherwise: Some(other) }, t),
                                ),
                                None => Some((SpecCond { condition: cond, inner, otherwise: None }, r)),
                            }
                        } else {
                            Some((SpecCond { condition: cond, inner, otherwise: None }, r))
                        }
                    } else {
                        None
                    },
                    None => None,
                }
            } else {
                None
            },
            None => None,
        }
    } else {
        None
    }
}

/// `for name in expr { statements }`
pub open spec fn for_stmt(s: Seq<char>, p: int) -> Option<(SpecLoop, int)>
    decreases s.len() - p, 30nat,
{
    if lit_at(s, p, "for"@) && ws(s, p + 3) > p + 3 {
        match var_name(s, ws(s, p + 3)) {
            Some((var, q)) => {
                let a = ws(s, q);
                if a > q && lit_at(s, a, "in"@) && ws(s, a + 2) > a + 2 {
                    match expr(s, ws(s, a + 2)) {
                        Some((iter, r)) => if p < r <= s.len() {
                            match braced_block(s, ws(s, r)) {
                                Some((inner, t)) => Some(
                                    (SpecLoop { kind: SpecLoopKind::Iter { iter, var }, inner }, t),
                                ),
                                None => None,
                            }
                        } else {
                            None
                        },
                        None => None,
                    }
                } else {
                    None
                }
            },
            None => None,
        }
    } else {
        None
    }
}

/// `while expr { statements }`
pub open spec fn while_stmt(s: Seq<char>, p: int) -> Option<(SpecLoop, int)>
    decreases s.len() - p, 30nat,
{
    if lit_at(s, p, "while"@) && ws(s, p + 5) > p + 5 {
        match expr(s, ws(s, p + 5)) {
            Some((cond, q)) => if p < q <= s.len() {
                match braced_block(s, ws(s, q)) {
                    Some((inner, r)) => Some(
                        (SpecLoop { kind: SpecLoopKind::Conditional(cond), inner }, r),
                    ),
                    None => None,
                }
            } else {
                None
            },
            None => None,
        }
    } else {
        None
    }
}

/// One item inside an element, with what surrounds it: `attr: value` or an
/// expression, followed by `,` (or ending the items when `last`); or a child
/// element, `if`, `for` or `while`.
pub open spec fn element_item(s: Seq<char>, p: int, last: bool) -> Option<(ElementItem, int)>
    decreases s.len() - p, 37nat,
{
    let a = mws(s, p);
    if !(p <= a <= s.len()) {
        None
    } else {
        let first: Option<(ElementItem, int)> = match attr_pair(s, p) {
            Some((k, v, q)) => Some((ElementItem::Attribute(k, v), q)),
            None => match spaced_expr(s, p) {
                Some((e, q)) => Some((ElementItem::Content(SpecAstContent::InlineExpr(e)), q)),
                None => None,
            },
        };
        let with_comma: Option<(ElementItem, int)> = match first {
            Some((it, q)) => if last {
                Some((it, q))
            } else if char_at(s, q, ',') {
                Some((it, q + 1))
            } else {
                None
            },
            None => None,
        };
        match with_comma {
            Some(x) => Some(x),
            None => match element(s, a) {
                Some((e, q)) => Some((ElementItem::Content(SpecAstContent::Children(e)), mws(s, q))),
                None => match if_stmt(s, a) {
                    Some((c, q)) => Some((ElementItem::Content(SpecAstContent::Condition(c)), mws(s, q))),
                    None => match for_stmt(s, a) {
                        Some((l, q)) => Some((ElementItem::Content(SpecAstContent::Loop(l)), mws(s, q))),
                        None => match while_stmt(s, a) {
                            Some((l, q)) => Some(
                                (ElementItem::Content(SpecAstContent::Loop(l)), mws(s, q)),
                            ),
                            None => None,
                        },
                    },
                },
            },
        }
    }
}

/// `attr: value` with line breaks and spaces around its parts.
pub open spec fn attr_pair(s: Seq<char>, p: int) -> Option<(Seq<char>, SpecAstValue, int)>
    decreases s.len() - p, 36nat,
{
    match word(s, mws(s, p), CharClass::AttrName) {
        Some((k, q)) => {
            let a = mws(s, q);
            if char_at(s, a, ':') && p < a {
                match value(s, mws(s, a + 1)) {
                    Some((v, r)) => Some((k, v, mws(s, r))),
                    None => None,
                }
            } else {
                None
            }
        },
        None => None,
    }
}

/// The items of an element, until none applies; then a last item that
/// needs no `,`.
pub open spec fn element_items(s: Seq<char>, p: int, acc: Seq<ElementItem>) -> (
    Seq<ElementItem>,
    int,
)
    decreases s.len() - p, 38nat,
{
    match element_item(s, p, false) {
        Some((it, q)) => if p < q <= s.len() {
            element_items(s, q, acc.push(it))
        } else {
            (acc, p)
        },
        None => match element_item(s, p, true) {
            Some((it, q)) => (acc.push(it), q),
            None => (acc, p),
        },
    }
}

/// `name { items }`; the attribute names must be distinct.
pub open spec fn element(s: Seq<char>, p: int) -> Option<(SpecAstElement, int)>
    decreases s.len() - p, 10nat,
{
    match word(s, p, CharClass::Alnum) {
        Some((name, q)) => {
            let a = mws(s, q);
            if char_at(s, a, '{') && p < a {
                let (items, r0) = element_items(s, a + 1, Seq::empty());
                let r = mws(s, r0);
                if char_at(s, r, '}') {
                    match build_element(name, items) {
                        Some(e) => Some((e, r + 1)),
                        None => None,
                    }
                } else {
                    None
                }
            } else {
                None
            }
        },
        None => None,
    }
}

/// `let name = expr;` or `name = expr;`
pub open spec fn var_define(s: Seq<char>, p: int) -> Option<(SpecStmt, int)>
    decreases s.len() - p, 35nat,
{
    let has_let = lit_at(s, p, "let"@) && ws(s, p + 3) > p + 3;
    let a = if has_let {
        ws(s, p + 3)
    } else {
        p
    };
    match var_name(s, a) {
        Some((name, q)) => {
            let b = ws(s, q);
            if char_at(s, b, '=') && p < b {
                match expr(s, ws(s, b + 1)) {
                    Some((e, r)) => if char_at(s, r, ';') {
                        Some((SpecStmt::VariableAss { new: has_let, name, expr: e }, r + 1))
                    } else {
                        None
                    },
                    None => None,
                }
            } else {
                None
            }
        },
        None => None,
    }
}

/// `return expr;`
pub open spec fn return_stmt(s: Seq<char>, p: int) -> Option<(SpecExpr, int)>
    decreases s.len() - p, 35nat,
{
    proof {
        reveal_strlit("return ");
    }
    if lit_at(s, p, "return "@) {
        match expr(s, p + 7) {
            Some((e, q)) => if char_at(s, q, ';') {
                Some((e, q + 1))
            } else {
                None
            },
            None => None,
        }
    } else {
        None
    }
}

/// A statement: a comment, a variable definition, `return`, a call, `if`,
/// `for`, `while`, a function definition, `use`, or an expression followed
/// by `;`, tried in this order.
pub open spec fn stmt(s: Seq<char>, p: int) -> Option<(SpecStmt, int)>
    decreases s.len() - p, 39nat,
{
    match comment(s, p) {
        Some((c, q)) => Some((SpecStmt::LineComment(c), q)),
        None => match var_define(s, p) {
            Some(x) => Some(x),
            None => match return_stmt(s, p) {
                Some((e, q)) => Some((SpecStmt::ReturnValue(e), q)),
                None => match call(s, p) {
                    Some((c, q)) => if char_at(s, ws(s, q), ';') {
                        Some((SpecStmt::FunctionCall(c), ws(s, q) + 1))
                    } else {
                        expr_or_rest(s, p)
                    },
                    None => expr_or_rest(s, p),
                },
            },
        },
    }
}

/// The statements that are tried after a call statement.
pub open spec fn expr_or_rest(s: Seq<char>, p: int) -> Option<(SpecStmt, int)>
    decreases s.len() - p, 38nat,
{
    match if_stmt(s, p) {
        Some((c, q)) => Some((SpecStmt::IfStatement(c), q)),
        None => match for_stmt(s, p) {
            Some((l, q)) => Some((SpecStmt::LoopStatement(l), q)),
            None => match while_stmt(s, p) {
                Some((l, q)) => Some((SpecStmt::LoopStatement(l), q)),
                None => match define(s, p) {
                    Some((d, q)) => Some((SpecStmt::FunctionDefine(d), q)),
                    None => match use_stmt(s, p) {
                        Some((u, q)) => Some((SpecStmt::ModuleUse(u), q)),
                        None => match expr(s, p) {
                            Some((e, q)) => if char_at(s, ws(s, q), ';') {
                                Some((SpecStmt::CalcExpr(e), ws(s, q) + 1))
                            } else {
                                None
                            },
                            None => None,
                        },
                    },
                },
            },
        },
    }
}

/// Statements, each with line breaks and spaces around it, until none applies.
pub open spec fn block(s: Seq<char>, p: int, acc: Seq<SpecStmt>) -> (Seq<SpecStmt>, int)
    decreases s.len() - p, 40nat,
{
    let a = mws(s, p);
    if !(p <= a <= s.len()) {
        (acc, p)
    } else {
        match stmt(s, a) {
            Some((st, q)) => if a < q <= s.len() {
                let b = mws(s, q);
                if q <= b <= s.len() && p < b {
                    block(s, b, acc.push(st))
                } else {
                    (acc.push(st), q)
                }
            } else {
                (acc, p)
            },
            None => (acc, p),
        }
    }
}

} // verus!
