//! The commands of an interactive debugger, read from the words of a line.

use vstd::prelude::*;
use vstd::string::StrSliceExecFns;

verus! {

pub enum DebuggerCommand {
    Quit,
    Run(Vec<String>),
    Continue,
    Backtrace,
    Breakpoint(String),
}

/// A command as plain values.
pub enum CommandView {
    Quit,
    Run(Seq<Seq<char>>),
    Continue,
    Backtrace,
    Breakpoint(Seq<char>),
}

/// The words of a vector of strings, position by position.
pub open spec fn words_of(v: Seq<String>) -> Seq<Seq<char>> {
    Seq::new(v.len(), |i: int| v[i]@)
}

/// The words of a vector of string slices, position by position.
pub open spec fn tokens_of(v: Seq<&str>) -> Seq<Seq<char>> {
    Seq::new(v.len(), |i: int| v[i]@)
}

impl View for DebuggerCommand {
    type V = CommandView;

    open spec fn view(&self) -> CommandView {
        match self {
            DebuggerCommand::Quit => CommandView::Quit,
            DebuggerCommand::Run(args) => CommandView::Run(words_of(args@)),
            DebuggerCommand::Continue => CommandView::Continue,
            DebuggerCommand::Backtrace => CommandView::Backtrace,
            DebuggerCommand::Breakpoint(address) => CommandView::Breakpoint(address@),
        }
    }
}

/// The first word of a line that sets a breakpoint.
pub open spec fn is_break_word(word: Seq<char>) -> bool {
    word == "b"@ || word == "break"@
}

/// The command that a line's words stand for, if they stand for one. The
/// first word names the command. `r` and `run` take the other words as
/// arguments. `b` and `break` take one argument, a star followed by an
/// address, and stand for nothing without the star.
pub open spec fn command_of(tokens: Seq<Seq<char>>) -> Option<CommandView>
    recommends
        tokens.len() > 0,
        is_break_word(tokens[0]) ==> tokens.len() > 1,
{
    let word = tokens[0];
    if word == "q"@ || word == "quit"@ {
        Some(CommandView::Quit)
    } else if word == "r"@ || word == "run"@ {
        Some(CommandView::Run(tokens.skip(1)))
    } else if word == "c"@ || word == "cont"@ || word == "continue"@ {
        Some(CommandView::Continue)
    } else if word == "bt"@ || word == "back"@ || word == "backtrace"@ {
        Some(CommandView::Backtrace)
    } else if is_break_word(word) {
        if tokens[1].len() > 0 && tokens[1][0] == '*' {
            Some(CommandView::Breakpoint(tokens[1].skip(1)))
        } else {
            None
        }
    } else {
        None
    }
}

/// The views of an optional command.
pub open spec fn command_view(command: Option<DebuggerCommand>) -> Option<CommandView> {
    match command {
        None => None,
        Some(c) => Some(c@),
    }
}

/// Whether a token is the given word.
fn is_word(token: &str, word: &str) -> (same: bool)
    ensures
        same == (token@ == word@),
{
    token.to_owned() == word.to_owned()
}

impl DebuggerCommand {
    /// Reads a command from the words of a line. There is at least one
    /// word, and a second one behind `b` or `break`.
    pub fn from_tokens(tokens: &Vec<&str>) -> (command: Option<DebuggerCommand>)
        requires
            tokens@.len() > 0,
            is_break_word(tokens@[0]@) ==> tokens@.len() > 1,
        ensures
            command_view(command) == command_of(tokens_of(tokens@)),
    {
        let word: &str = tokens[0];
        assert(tokens_of(tokens@)[0] == word@);
        if is_word(word, "q") || is_word(word, "quit") {
            Some(DebuggerCommand::Quit)
        } else if is_word(word, "r") || is_word(word, "run") {
            let mut args: Vec<String> = Vec::new();
            let mut i: usize = 1;
            while i < tokens.len()
                invariant
                    1 <= i <= tokens@.len(),
                    args@.len() == i - 1,
                    forall|k: int| 0 <= k < args@.len() ==> args@[k]@ == tokens@[k + 1]@,
                decreases tokens.len() - i,
            {
                args.push(tokens[i].to_owned());
                i += 1;
            }
            assert(words_of(args@) =~= tokens_of(tokens@).skip(1));
            Some(DebuggerCommand::Run(args))
        } else if is_word(word, "c") || is_word(word, "cont") || is_word(word, "continue") {
            Some(DebuggerCommand::Continue)
        } else if is_word(word, "bt") || is_word(word, "back") || is_word(word, "backtrace") {
            Some(DebuggerCommand::Backtrace)
        } else if is_word(word, "b") || is_word(word, "break") {
            let target: &str = tokens[1];
            assert(tokens_of(tokens@)[1] == target@);
            let length: usize = target.unicode_len();
            if length > 0 && target.get_char(0) == '*' {
                let address = target.substring_char(1, length).to_owned();
                assert(address@ =~= target@.skip(1));
                Some(DebuggerCommand::Breakpoint(address))
            } else {
                None
            }
        } else {
            None
        }
    }
}

} // verus!
