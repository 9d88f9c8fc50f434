//! The text of a parse failure: the line of the failure, and the lines
//! around it with a mark under the place where the text stopped matching.
use vstd::prelude::*;

use crate::text::{nat_numeral, push_char, push_numeral_u64, push_str, string_of_range};

verus! {

broadcast use vstd::string::group_string_axioms;

/// The number of line feeds in `s`.
pub open spec fn newline_count(s: Seq<char>) -> nat
    decreases s.len(),
{
    if s.len() == 0 {
        0
    } else {
        newline_count(s.drop_last()) + if s.last() == '\n' {
            1nat
        } else {
            0nat
        }
    }
}

/// The position of the first line feed at or after `p`, or the end.
pub open spec fn next_newline(s: Seq<char>, p: int) -> int
    decreases s.len() - p,
{
    if 0 <= p < s.len() && s[p] != '\n' {
        next_newline(s, p + 1)
    } else {
        p
    }
}

pub proof fn lemma_next_newline(s: Seq<char>, p: int)
    requires
        0 <= p <= s.len(),
    ensures
        p <= next_newline(s, p) <= s.len(),
        next_newline(s, p) < s.len() ==> s[next_newline(s, p)] == '\n',
        forall|i: int| p <= i < next_newline(s, p) ==> s[i] != '\n',
    decreases s.len() - p,
{
    if p < s.len() && s[p] != '\n' {
        lemma_next_newline(s, p + 1);
    }
}

/// The lines of `s` from `p` on, as `str::lines` yields them: split at line
/// feeds, a carriage return before a line feed dropped, and no empty line
/// after a final line feed.
pub open spec fn lines_from(s: Seq<char>, p: int) -> Seq<Seq<char>>
    decreases s.len() + 1 - p,
{
    if 0 <= p < s.len() {
        proof {
            lemma_next_newline(s, p);
        }
        let e = next_newline(s, p);
        let raw = s.subrange(p, e);
        let line = if e < s.len() && raw.len() > 0 && raw.last() == '\r' {
            raw.drop_last()
        } else {
            raw
        };
        seq![line] + lines_from(s, e + 1)
    } else {
        Seq::empty()
    }
}

/// The position at which the line that holds position `q` starts.
pub open spec fn line_start(s: Seq<char>, q: int) -> int
    decreases q,
{
    if q <= 0 {
        0
    } else if s[q - 1] == '\n' {
        q
    } else {
        line_start(s, q - 1)
    }
}

/// `k` spaces.
pub open spec fn spaces(k: nat) -> Seq<char> {
    Seq::new(k, |i: int| ' ')
}

/// Line `i` (counted from 1) with its number, and the mark under column
/// `col` when it is line `n`.
pub open spec fn context_line(ls: Seq<Seq<char>>, i: int, n: int, col: nat) -> Seq<char> {
    "["@ + nat_numeral(i as nat) + "] | "@ + ls[i - 1] + "\n"@ + if i == n {
        "      "@ + spaces(col) + "^\n"@
    } else {
        Seq::empty()
    }
}

/// The numbered lines `i` to `end`.
pub open spec fn context_from(ls: Seq<Seq<char>>, i: int, end: int, n: int, col: nat) -> Seq<char>
    decreases end + 1 - i,
{
    if 1 <= i <= end {
        context_line(ls, i, n, col) + context_from(ls, i + 1, end, n, col)
    } else {
        Seq::empty()
    }
}

/// The message of a failure at position `q` of `s`: the line number and up
/// to two lines before and after it.
pub open spec fn failure_text(s: Seq<char>, q: int) -> Seq<char> {
    let n = newline_count(s.take(q)) + 1;
    let ls = lines_from(s, 0);
    let start: int = if n > 2 {
        n - 2
    } else {
        1
    };
    let end: int = if n + 2 < ls.len() {
        n + 2int
    } else {
        ls.len() as int
    };
    let col = (q - line_start(s, q)) as nat;
    "Parse Error At Line "@ + nat_numeral(n) + ": syntax error\n\n"@ + context_from(
        ls,
        start,
        end,
        n as int,
        col,
    )
}

proof fn lemma_lines_len(s: Seq<char>, p: int)
    requires
        0 <= p,
    ensures
        lines_from(s, p).len() <= s.len() + 1 - p || lines_from(s, p).len() == 0,
    decreases s.len() + 1 - p,
{
    if 0 <= p < s.len() {
        lemma_next_newline(s, p);
        lemma_lines_len(s, next_newline(s, p) + 1);
    }
}

proof fn lemma_line_start(s: Seq<char>, q: int)
    requires
        0 <= q <= s.len(),
    ensures
        0 <= line_start(s, q) <= q,
    decreases q,
{
    if q > 0 && s[q - 1] != '\n' {
        lemma_line_start(s, q - 1);
    }
}

/// The lines of a text.
fn text_lines(s: &Vec<char>) -> (r: Vec<String>)
    requires
        s@.len() + 16 <= usize::MAX,
    ensures
        r@.map_values(|x: String| x@) == lines_from(s@, 0),
{
    let mut ls: Vec<String> = Vec::new();
    let mut p: usize = 0;
    while p < s.len()
        invariant
            s@.len() + 16 <= usize::MAX,
            p <= s@.len() + 1,
            ls@.map_values(|x: String| x@) + lines_from(s@, p as int) == lines_from(s@, 0),
        decreases s@.len() + 1 - p,
    {
        let mut e = p;
        while e < s.len() && s[e] != '\n'
            invariant
                p <= e <= s@.len(),
                next_newline(s@, e as int) == next_newline(s@, p as int),
            decreases s@.len() - e,
        {
            e = e + 1;
        }
        proof {
            lemma_next_newline(s@, p as int);
        }
        let stop = if e < s.len() && e > p && s[e - 1] == '\r' {
            e - 1
        } else {
            e
        };
        let line = string_of_range(s.as_slice(), p, stop);
        let ghost before = ls@;
        ls.push(line);
        proof {
            let raw = s@.subrange(p as int, e as int);
            if e < s@.len() && raw.len() > 0 && raw.last() == '\r' {
                assert(raw.drop_last() =~= s@.subrange(p as int, stop as int));
            } else {
                assert(raw =~= s@.subrange(p as int, stop as int));
            }
            assert(ls@.map_values(|x: String| x@) =~= before.map_values(|x: String| x@).push(
                line@,
            ));
            assert(lines_from(s@, p as int) == seq![line@] + lines_from(s@, e + 1));
            assert(ls@.map_values(|x: String| x@) + lines_from(s@, e + 1) =~= before.map_values(
                |x: String| x@,
            ) + lines_from(s@, p as int));
        }
        p = e + 1;
    }
    proof {
        assert(lines_from(s@, p as int) =~= Seq::<Seq<char>>::empty());
        assert(ls@.map_values(|x: String| x@) + lines_from(s@, p as int) =~= ls@.map_values(
            |x: String| x@,
        ));
    }
    ls
}

proof fn lemma_newline_count_step(s: Seq<char>, i: int)
    requires
        0 <= i < s.len(),
    ensures
        newline_count(s.take(i + 1)) == newline_count(s.take(i)) + if s[i] == '\n' {
            1nat
        } else {
            0nat
        },
{
    assert(s.take(i + 1).drop_last() =~= s.take(i));
}

proof fn lemma_line_start_step(s: Seq<char>, i: int)
    requires
        0 <= i < s.len(),
    ensures
        line_start(s, i + 1) == if s[i] == '\n' {
            i + 1
        } else {
            line_start(s, i)
        },
{
}

/// The message of a parse failure at position `q` of the text `s`.
pub fn failure_message(s: &Vec<char>, q: usize) -> (r: String)
    requires
        q <= s@.len(),
        s@.len() + 16 <= usize::MAX,
    ensures
        r@ == failure_text(s@, q as int),
{
    // The line of the failure and the start of that line.
    let mut n: usize = 1;
    let mut start_of_line: usize = 0;
    let mut i: usize = 0;
    while i < q
        invariant
            q <= s@.len(),
            s@.len() + 16 <= usize::MAX,
            i <= q,
            n as int == newline_count(s@.take(i as int)) + 1,
            n <= i + 1,
            start_of_line as int == line_start(s@, i as int),
        decreases q - i,
    {
        proof {
            lemma_newline_count_step(s@, i as int);
            lemma_line_start_step(s@, i as int);
        }
        if s[i] == '\n' {
            n = n + 1;
            start_of_line = i + 1;
        }
        i = i + 1;
    }
    proof {
        lemma_line_start(s@, q as int);
    }
    let col = q - start_of_line;
    let ls = text_lines(s);
    let ghost lv = ls@.map_values(|x: String| x@);
    proof {
        lemma_lines_len(s@, 0);
        assert(lv.len() == ls@.len());
    }
    let first: usize = if n > 2 {
        n - 2
    } else {
        1
    };
    let last: usize = if n + 2 < ls.len() {
        n + 2
    } else {
        ls.len()
    };
    let mut r = String::new();
    push_str(&mut r, "Parse Error At Line ");
    push_numeral_u64(&mut r, n as u64);
    push_str(&mut r, ": syntax error\n\n");
    let ghost head = r@;
    let mut k: usize = first;
    while k <= last
        invariant
            lv == ls@.map_values(|x: String| x@),
            last <= ls@.len(),
            ls@.len() <= s@.len() + 1,
            s@.len() + 16 <= usize::MAX,
            1 <= first <= k,
            k <= last + 1 || k == first,
            r@ + context_from(lv, k as int, last as int, n as int, col as nat) == head
                + context_from(lv, first as int, last as int, n as int, col as nat),
        decreases last + 1 - k,
    {
        let ghost before = r@;
        push_str(&mut r, "[");
        push_numeral_u64(&mut r, k as u64);
        push_str(&mut r, "] | ");
        push_str(&mut r, ls[k - 1].as_str());
        push_str(&mut r, "\n");
        if k == n {
            push_str(&mut r, "      ");
            let mut c: usize = 0;
            while c < col
                invariant
                    c <= col,
                    r@ == before + "["@ + nat_numeral(k as nat) + "] | "@ + lv[k - 1] + "\n"@
                        + "      "@ + spaces(c as nat),
                decreases col - c,
            {
                push_char(&mut r, ' ');
                c = c + 1;
                assert(spaces(c as nat) =~= spaces((c - 1) as nat).push(' '));
            }
            push_str(&mut r, "^\n");
        }
        proof {
            assert(r@ == before + context_line(lv, k as int, n as int, col as nat)) by {
                assert(r@ =~= before + context_line(lv, k as int, n as int, col as nat));
            }
            assert(context_from(lv, k as int, last as int, n as int, col as nat) == context_line(
                lv,
                k as int,
                n as int,
                col as nat,
            ) + context_from(lv, k + 1, last as int, n as int, col as nat));
            assert(r@ + context_from(lv, k + 1, last as int, n as int, col as nat) =~= before
                + context_from(lv, k as int, last as int, n as int, col as nat));
        }
        k = k + 1;
    }
    proof {
        assert(context_from(lv, k as int, last as int, n as int, col as nat) =~= Seq::<
            char,
        >::empty());
        assert(r@ =~= r@ + context_from(lv, k as int, last as int, n as int, col as nat));
    }
    r
}

} // verus!
