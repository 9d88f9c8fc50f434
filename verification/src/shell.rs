//! The decisions of the interactive shell: what each line typed does.
use vstd::prelude::*;

use crate::ast::strings_view;
use crate::text::{chars_of, trim, trimmed};

verus! {

/// Whether a multi-line input is open, and the lines it holds so far.
pub struct ReplState {
    pub multiline: bool,
    pub current: Vec<String>,
}

/// What the shell does after a line.
pub enum ReplAction {
    /// Run the shell command (a line that starts with `.`, trimmed).
    Command(String),
    /// Run these lines as a script. With `record_first` they join the code
    /// buffer before they run; otherwise they join it only if they succeed.
    Run { code: Vec<String>, record_first: bool },
    /// Wait for the next line.
    Wait,
}

/// The model of the shell's state.
pub struct SpecRepl {
    pub multiline: bool,
    pub current: Seq<Seq<char>>,
}

pub enum SpecReplAction {
    Command(Seq<char>),
    Run { code: Seq<Seq<char>>, record_first: bool },
    Wait,
}

pub open spec fn repl_view(s: ReplState) -> SpecRepl {
    SpecRepl { multiline: s.multiline, current: strings_view(s.current@) }
}

pub open spec fn repl_action_view(a: ReplAction) -> SpecReplAction {
    match a {
        ReplAction::Command(c) => SpecReplAction::Command(c@),
        ReplAction::Run { code, record_first } => SpecReplAction::Run {
            code: strings_view(code@),
            record_first,
        },
        ReplAction::Wait => SpecReplAction::Wait,
    }
}

/// The state with no input open.
pub open spec fn repl_idle() -> SpecRepl {
    SpecRepl { multiline: false, current: Seq::empty() }
}

/// One line typed into the shell. A line starting with `.` is a command and
/// closes any open input. In a multi-line input an empty line runs what was
/// typed and any other line is added to it. Otherwise a line that ends with
/// `:` or `{` opens a multi-line input, and any other line runs at once.
pub open spec fn repl_step_spec(st: SpecRepl, line: Seq<char>) -> (SpecRepl, SpecReplAction) {
    let t = trimmed(line);
    if t.len() > 0 && t[0] == '.' {
        (repl_idle(), SpecReplAction::Command(t))
    } else if st.multiline {
        if t.len() == 0 {
            (repl_idle(), SpecReplAction::Run { code: st.current, record_first: true })
        } else {
            (SpecRepl { multiline: true, current: st.current.push(line) }, SpecReplAction::Wait)
        }
    } else if t.len() > 0 && (t.last() == ':' || t.last() == '{') {
        (SpecRepl { multiline: true, current: st.current.push(line) }, SpecReplAction::Wait)
    } else {
        (repl_idle(), SpecReplAction::Run { code: st.current.push(line), record_first: false })
    }
}

impl ReplState {
    /// A shell with no input open.
    pub fn new() -> (r: Self)
        ensures
            repl_view(r) == repl_idle(),
    {
        let r = ReplState { multiline: false, current: Vec::new() };
        assert(strings_view(r.current@) =~= Seq::<Seq<char>>::empty());
        r
    }
}

/// The shell's next state and action after `line`.
pub fn repl_step(state: ReplState, line: String) -> (r: (ReplState, ReplAction))
    ensures
        (repl_view(r.0), repl_action_view(r.1)) == repl_step_spec(repl_view(state), line@),
{
    let t = trim(line.as_str());
    let cs = chars_of(t.as_str());
    let n = cs.len();
    if n > 0 && cs[0] == '.' {
        return (ReplState::new(), ReplAction::Command(t));
    }
    let mut current = state.current;
    let ghost before = current@;
    if state.multiline {
        if n == 0 {
            return (ReplState::new(), ReplAction::Run { code: current, record_first: true });
        }
        current.push(line);
        assert(strings_view(current@) =~= strings_view(before).push(current@[before.len() as int]@));
        return (ReplState { multiline: true, current }, ReplAction::Wait);
    }
    if n > 0 && (cs[n - 1] == ':' || cs[n - 1] == '{') {
        current.push(line);
        assert(strings_view(current@) =~= strings_view(before).push(current@[before.len() as int]@));
        return (ReplState { multiline: true, current }, ReplAction::Wait);
    }
    current.push(line);
    assert(strings_view(current@) =~= strings_view(before).push(current@[before.len() as int]@));
    (ReplState::new(), ReplAction::Run { code: current, record_first: false })
}

} // verus!
