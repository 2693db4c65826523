//! The commands that an action renders, and their descriptions for the
//! `subprocess` crate.
//!
//! A description says what to run, and the crate shows it as a line.
//! Running it is the caller's work.

use crate::text::{option_text, text_of, texts};
use vstd::prelude::*;

verus! {

#[verifier::external_type_specification]
#[verifier::external_body]
pub struct ExExec(subprocess::Exec);

/// What a process description asks to run: a program, its arguments, and the
/// text to feed to its standard input, if any.
pub struct Invocation {
    pub program: Seq<char>,
    pub args: Seq<Seq<char>>,
    pub stdin: Option<Seq<char>>,
}

/// What a process description asks to run.
pub uninterp spec fn invocation_of(e: subprocess::Exec) -> Invocation;

/// Whether a process description sets no environment of its own, so that
/// the process runs in that of its parent.
pub uninterp spec fn inherits_env(e: subprocess::Exec) -> bool;

/// `Exec::cmd`: the description of a run of a program without arguments,
/// with no environment set.
#[verifier::external_body]
pub(crate) fn exec_cmd(program: &str) -> (e: subprocess::Exec)
    ensures
        invocation_of(e) == (Invocation { program: program@, args: Seq::empty(), stdin: None }),
        inherits_env(e),
{
    subprocess::Exec::cmd(program)
}

/// `Exec::arg`: the description with one more argument at the end. The
/// environment stays as it was.
#[verifier::external_body]
pub(crate) fn exec_arg(e: subprocess::Exec, arg: &str) -> (r: subprocess::Exec)
    ensures
        invocation_of(r) == (Invocation {
            args: invocation_of(e).args.push(arg@),
            ..invocation_of(e)
        }),
        inherits_env(r) == inherits_env(e),
{
    e.arg(arg)
}

/// `Exec::stdin` with a text: the description with the text to feed to the
/// standard input. The environment stays as it was. The crate panics where
/// an input is set already.
#[verifier::external_body]
pub(crate) fn exec_stdin(e: subprocess::Exec, text: &str) -> (r: subprocess::Exec)
    requires
        invocation_of(e).stdin is None,
    ensures
        invocation_of(r) == (Invocation { stdin: Some(text@), ..invocation_of(e) }),
        inherits_env(r) == inherits_env(e),
{
    e.stdin(text)
}

/// `Exec::to_cmdline_lossy`: the program and its arguments as one line for
/// display. Each word stands as it is where all its characters are plain,
/// else between single quotes with each single quote of its own written as
/// `'\''`; a blank stands between the words.
///
/// A description that sets an environment shows that first, held against
/// the environment of the process: the description has to set none.
#[verifier::external_body]
pub(crate) fn exec_line(e: &subprocess::Exec) -> (line: String)
    requires
        inherits_env(*e),
    ensures
        line@ == command_line(invocation_of(*e).program, invocation_of(*e).args),
{
    e.to_cmdline_lossy()
}

/// Describes the run of a program with arguments and, where there is one,
/// a text for its standard input.
pub fn describe_run(program: &str, args: &Vec<String>, stdin: Option<&str>) -> (cmd:
    subprocess::Exec)
    ensures
        invocation_of(cmd) == (Invocation {
            program: program@,
            args: texts(args@),
            stdin: option_text(stdin),
        }),
        inherits_env(cmd),
{
    let mut cmd = exec_cmd(program);
    let mut i: usize = 0;
    while i < args.len()
        invariant
            i <= args@.len(),
            invocation_of(cmd).program == program@,
            invocation_of(cmd).stdin is None,
            inherits_env(cmd),
            invocation_of(cmd).args == texts(args@).subrange(0, i as int),
        decreases args@.len() - i,
    {
        let ghost before = invocation_of(cmd).args;
        cmd = exec_arg(cmd, args[i].as_str());
        proof {
            assert(before.push(args@[i as int]@) =~= texts(args@).subrange(0, i + 1));
        }
        i = i + 1;
    }
    proof {
        assert(texts(args@).subrange(0, args@.len() as int) =~= texts(args@));
    }
    match stdin {
        Some(text) => exec_stdin(cmd, text),
        None => cmd,
    }
}

/// A character that a shell takes as it stands: a letter or digit of
/// ASCII, or one of `-`, `_`, `.`, `,`, `/`.
pub open spec fn is_plain(c: char) -> bool {
    ||| c == '-'
    ||| c == '_'
    ||| c == '.'
    ||| c == ','
    ||| c == '/'
    ||| 48 <= c as u32 <= 57
    ||| 65 <= c as u32 <= 90
    ||| 97 <= c as u32 <= 122
}

/// Whether every character of a word is plain.
pub open spec fn all_plain(word: Seq<char>) -> bool {
    forall|i: int| 0 <= i < word.len() ==> is_plain(#[trigger] word[i])
}

/// A word with each single quote written as `'\''`.
pub open spec fn quotes_closed(word: Seq<char>) -> Seq<char>
    decreases word.len(),
{
    if word.len() == 0 {
        Seq::empty()
    } else if word.last() == '\'' {
        quotes_closed(word.drop_last()) + "'\\''"@
    } else {
        quotes_closed(word.drop_last()).push(word.last())
    }
}

/// A word as it is shown in a command line: as it stands where all its
/// characters are plain, else between single quotes, with each single quote
/// of its own written as `'\''`.
pub open spec fn shown(word: Seq<char>) -> Seq<char> {
    if all_plain(word) {
        word
    } else {
        "'"@ + quotes_closed(word) + "'"@
    }
}

/// The first `n` arguments as they are shown, each after a blank.
pub open spec fn shown_args(args: Seq<Seq<char>>, n: nat) -> Seq<char>
    decreases n,
{
    if n == 0 {
        Seq::empty()
    } else {
        shown_args(args, (n - 1) as nat) + " "@ + shown(args[n - 1])
    }
}

/// The command line of a program and its arguments, quoted for display.
pub open spec fn command_line(program: Seq<char>, args: Seq<Seq<char>>) -> Seq<char> {
    shown(program) + shown_args(args, args.len())
}

/// A command that an action rendered for one record: a program, its
/// arguments, and the text for its standard input, if any.
#[derive(Debug)]
pub struct Command {
    pub program: String,
    pub args: Vec<String>,
    pub stdin: Option<String>,
}

impl View for Command {
    type V = Invocation;

    open spec fn view(&self) -> Invocation {
        Invocation { program: self.program@, args: texts(self.args@), stdin: text_of(self.stdin) }
    }
}

impl Command {
    /// Writes the command as one line for display, as the `subprocess` crate
    /// shows it: the program and each argument as they are shown, with a
    /// blank between them.
    pub fn line(&self) -> (text: String)
        ensures
            text@ == command_line(self@.program, self@.args),
    {
        let cmd = self.exec();
        exec_line(&cmd)
    }

    /// Describes the run of this command for the `subprocess` crate.
    pub fn exec(&self) -> (cmd: subprocess::Exec)
        ensures
            invocation_of(cmd) == self@,
            inherits_env(cmd),
    {
        match &self.stdin {
            Some(text) => describe_run(self.program.as_str(), &self.args, Some(text.as_str())),
            None => describe_run(self.program.as_str(), &self.args, None),
        }
    }
}

} // verus!
