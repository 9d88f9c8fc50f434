//! What the parser reads string literals as.
use vstd::prelude::*;

use crate::grammar::{escape, is_control, string_body, string_lit};

verus! {

/// Text without quotes, backslashes and control characters.
pub open spec fn plain_text(t: Seq<char>) -> bool {
    forall|i: int| 0 <= i < t.len() ==> #[trigger] t[i] != '"' && t[i] != '\\' && !is_control(t[i])
}

proof fn lemma_plain_body(s: Seq<char>, p: int, t: Seq<char>, acc: Seq<char>, k: int)
    requires
        0 <= p,
        0 <= k <= t.len(),
        p + t.len() < s.len(),
        s[p + t.len()] == '"',
        plain_text(t),
        forall|i: int| 0 <= i < t.len() ==> #[trigger] s[p + i] == t[i],
        acc == t.take(k),
    ensures
        string_body(s, p + k, acc) == Some((t, p + t.len() + 1int)),
    decreases t.len() - k,
{
    if k < t.len() {
        assert(s[p + k] == t[k]);
        assert(t.take(k).push(t[k]) =~= t.take(k + 1));
        lemma_plain_body(s, p, t, acc.push(t[k]), k + 1);
    } else {
        assert(t.take(k) =~= t);
    }
}

/// A string literal of plain text stands for that text, and ends after its
/// closing quote, whatever follows.
pub proof fn law_plain_string_literal(t: Seq<char>, rest: Seq<char>)
    requires
        plain_text(t),
    ensures
        string_lit(seq!['"'] + t + seq!['"'] + rest, 0) == Some((t, t.len() + 2int)),
{
    let s = seq!['"'] + t + seq!['"'] + rest;
    assert(s[0] == '"');
    assert(s[1 + t.len() as int] == '"');
    assert forall|i: int| 0 <= i < t.len() implies #[trigger] s[1 + i] == t[i] by {}
    assert(t.take(0) =~= Seq::<char>::empty());
    lemma_plain_body(s, 1, t, Seq::empty(), 0);
}

/// The escapes of string literals: `\"`, `\\`, `\/`, `\b`, `\f`, `\n`, `\r`
/// and `\t` stand for the quote, the backslash, the slash, backspace, form
/// feed, line feed, carriage return and tab; any other escape is refused.
pub proof fn law_string_escapes(c: char)
    ensures
        escape('"') == Some('"'),
        escape('\\') == Some('\\'),
        escape('/') == Some('/'),
        escape('b') == Some('\u{8}'),
        escape('f') == Some('\u{c}'),
        escape('n') == Some('\n'),
        escape('r') == Some('\r'),
        escape('t') == Some('\t'),
        !(c == '"' || c == '\\' || c == '/' || c == 'b' || c == 'f' || c == 'n' || c == 'r' || c
            == 't') ==> escape(c) is None,
{
}

/// A backslash and an escape letter in a literal add the character the
/// escape stands for; a backslash before anything else ends the literal
/// unread.
pub proof fn law_escape_in_literal(s: Seq<char>, p: int, acc: Seq<char>)
    requires
        0 <= p,
        p + 1 < s.len(),
        s[p] == '\\',
    ensures
        escape(s[p + 1]) matches Some(x) ==> string_body(s, p, acc) == string_body(s, p + 2, acc.push(x)),
        escape(s[p + 1]) is None ==> string_body(s, p, acc) is None,
{
}

} // verus!
