//! Character classes and runs of characters of one class.
use vstd::prelude::*;

verus! {

/// Classes of characters that the grammar skips or collects.
#[derive(Clone, Copy, PartialEq, Eq, Structural)]
pub enum CharClass {
    /// Spaces and tabs.
    Space,
    /// Spaces, tabs, line feeds and carriage returns.
    Multi,
    /// Letters, digits and `_`: the rest of a variable name.
    VarTail,
    /// Letters and digits: an element name.
    Alnum,
    /// Letters, digits and `-`: an attribute name.
    AttrName,
    /// Lowercase letters and `_`: a module name.
    ModuleName,
    /// Decimal digits.
    Digit,
}

pub open spec fn is_alpha(c: char) -> bool {
    ('a' <= c && c <= 'z') || ('A' <= c && c <= 'Z')
}

pub open spec fn is_digit(c: char) -> bool {
    '0' <= c && c <= '9'
}

pub open spec fn is_alnum(c: char) -> bool {
    is_alpha(c) || is_digit(c)
}

pub open spec fn in_class(k: CharClass, c: char) -> bool {
    match k {
        CharClass::Space => c == ' ' || c == '\t',
        CharClass::Multi => c == ' ' || c == '\t' || c == '\n' || c == '\r',
        CharClass::VarTail => is_alnum(c) || c == '_',
        CharClass::Alnum => is_alnum(c),
        CharClass::AttrName => is_alnum(c) || c == '-',
        CharClass::ModuleName => ('a' <= c && c <= 'z') || c == '_',
        CharClass::Digit => is_digit(c),
    }
}

/// The end of the run of characters of class `k` that starts at `p`.
pub open spec fn skip(s: Seq<char>, p: int, k: CharClass) -> int
    decreases s.len() - p,
{
    if 0 <= p < s.len() && in_class(k, s[p]) {
        skip(s, p + 1, k)
    } else {
        p
    }
}

/// Skipping never moves back, and stays within the text.
pub broadcast proof fn lemma_skip_bounds(s: Seq<char>, p: int, k: CharClass)
    ensures
        p <= #[trigger] skip(s, p, k),
        p <= s.len() ==> skip(s, p, k) <= s.len(),
        p > s.len() ==> skip(s, p, k) == p,
    decreases s.len() - p,
{
    if 0 <= p < s.len() && in_class(k, s[p]) {
        lemma_skip_bounds(s, p + 1, k);
    }
}

pub proof fn lemma_skip(s: Seq<char>, p: int, k: CharClass)
    requires
        0 <= p <= s.len(),
    ensures
        p <= skip(s, p, k) <= s.len(),
        forall|i: int| p <= i < skip(s, p, k) ==> in_class(k, #[trigger] s[i]),
        skip(s, p, k) < s.len() ==> !in_class(k, s[skip(s, p, k)]),
    decreases s.len() - p,
{
    if p < s.len() && in_class(k, s[p]) {
        lemma_skip(s, p + 1, k);
    }
}

/// Whether a character may continue a variable name: an ASCII letter, a
/// digit or `_`.
pub fn var_name_style(c: char) -> (r: bool)
    ensures
        r == in_class(CharClass::VarTail, c),
{
    ('a' <= c && c <= 'z') || ('A' <= c && c <= 'Z') || ('0' <= c && c <= '9') || c == '_'
}

/// Whether a character may appear in an attribute name: an ASCII letter, a
/// digit or `-`.
pub fn attr_name_style(c: char) -> (r: bool)
    ensures
        r == in_class(CharClass::AttrName, c),
{
    ('a' <= c && c <= 'z') || ('A' <= c && c <= 'Z') || ('0' <= c && c <= '9') || c == '-'
}

/// Whether a character may appear in a module name: a lowercase ASCII letter
/// or `_`.
pub fn module_name_style(c: char) -> (r: bool)
    ensures
        r == in_class(CharClass::ModuleName, c),
{
    ('a' <= c && c <= 'z') || c == '_'
}

pub fn in_class_exec(k: CharClass, c: char) -> (r: bool)
    ensures
        r == in_class(k, c),
{
    match k {
        CharClass::Space => c == ' ' || c == '\t',
        CharClass::Multi => c == ' ' || c == '\t' || c == '\n' || c == '\r',
        CharClass::VarTail => var_name_style(c),
        CharClass::Alnum => ('a' <= c && c <= 'z') || ('A' <= c && c <= 'Z') || ('0' <= c && c
            <= '9'),
        CharClass::AttrName => attr_name_style(c),
        CharClass::ModuleName => module_name_style(c),
        CharClass::Digit => '0' <= c && c <= '9',
    }
}

/// The end of the run of characters of class `k` from `p`.
pub fn skip_exec(s: &Vec<char>, p: usize, k: CharClass) -> (q: usize)
    requires
        p <= s@.len(),
    ensures
        q as int == skip(s@, p as int, k),
{
    let mut q = p;
    while q < s.len() && in_class_exec(k, s[q])
        invariant
            p <= q <= s@.len(),
            skip(s@, q as int, k) == skip(s@, p as int, k),
        decreases s@.len() - q,
    {
        q = q + 1;
    }
    q
}

} // verus!
