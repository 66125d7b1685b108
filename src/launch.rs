use vstd::prelude::*;
use vstd::string::StrSliceExecFns;

use crate::text::{find_char, occurs, position, texts, tokenize, tokens_of, trim, trimmed};

verus! {

/// Descriptor of standard input.
pub const STDIN_FD: i32 = 0;

/// Descriptor of standard output.
pub const STDOUT_FD: i32 = 1;

/// How a child runs a command line: the command to execute, and at most one
/// standard stream taken from or sent to a file.
#[derive(Debug, Clone, PartialEq, Eq)]
pub enum Launch {
    /// Run the command with the streams it inherits.
    Plain(String),
    /// Run `command` with its standard output written to `file`.
    ToFile { command: String, file: String },
    /// Run `command` with its standard input read from `file`.
    FromFile { command: String, file: String },
}

/// The mathematical value of a [`Launch`].
pub enum LaunchSpec {
    Plain(Seq<char>),
    ToFile { command: Seq<char>, file: Seq<char> },
    FromFile { command: Seq<char>, file: Seq<char> },
}

impl View for Launch {
    type V = LaunchSpec;

    open spec fn view(&self) -> LaunchSpec {
        match self {
            Launch::Plain(c) => LaunchSpec::Plain(c@),
            Launch::ToFile { command, file } => LaunchSpec::ToFile {
                command: command@,
                file: file@,
            },
            Launch::FromFile { command, file } => LaunchSpec::FromFile {
                command: command@,
                file: file@,
            },
        }
    }
}

/// How the command line `c` is launched. A `>` is looked for first: where
/// there is one, what stands before the first `>` is the command and what
/// follows it, trimmed, is the output file. Only where there is no `>` is a
/// `<` looked for, in the same way, for the input file. A line with neither
/// is run unchanged.
pub open spec fn launch_of(c: Seq<char>) -> LaunchSpec {
    let o = position(c, '>') as int;
    let i = position(c, '<') as int;
    if occurs(c, '>') {
        LaunchSpec::ToFile { command: c.take(o), file: trimmed(c.skip(o + 1)) }
    } else if occurs(c, '<') {
        LaunchSpec::FromFile { command: c.take(i), file: trimmed(c.skip(i + 1)) }
    } else {
        LaunchSpec::Plain(c)
    }
}

/// The command that a launch executes.
pub open spec fn command_of(l: LaunchSpec) -> Seq<char> {
    match l {
        LaunchSpec::Plain(c) => c,
        LaunchSpec::ToFile { command, .. } => command,
        LaunchSpec::FromFile { command, .. } => command,
    }
}

/// The standard stream that a launch connects to a file, if any.
pub open spec fn descriptor_of(l: LaunchSpec) -> Option<i32> {
    match l {
        LaunchSpec::Plain(_) => None,
        LaunchSpec::ToFile { .. } => Some(STDOUT_FD),
        LaunchSpec::FromFile { .. } => Some(STDIN_FD),
    }
}

/// Why a command cannot be turned into an argument vector.
#[derive(Debug, Clone, Copy, PartialEq, Eq)]
pub enum ExecError {
    /// The command has no words, so there is no program to run.
    EmptyCommand,
    /// The command holds a NUL character, which no argument can carry.
    NulInArgument,
}

/// Splits a command line into the command to run and its redirection.
pub fn plan_launch(c: &str) -> (r: Launch)
    ensures
        r@ == launch_of(c@),
{
    let n = c.unicode_len();
    let o = find_char(c, '>');
    if o < n {
        let command = c.substring_char(0, o).to_owned();
        let file = trim(c.substring_char(o + 1, n)).to_owned();
        proof {
            assert(c@.subrange(0, o as int) =~= c@.take(o as int));
            assert(c@.subrange(o + 1, n as int) =~= c@.skip(o + 1));
        }
        return Launch::ToFile { command, file };
    }
    let i = find_char(c, '<');
    if i < n {
        let command = c.substring_char(0, i).to_owned();
        let file = trim(c.substring_char(i + 1, n)).to_owned();
        proof {
            assert(c@.subrange(0, i as int) =~= c@.take(i as int));
            assert(c@.subrange(i + 1, n as int) =~= c@.skip(i + 1));
        }
        return Launch::FromFile { command, file };
    }
    Launch::Plain(c.to_owned())
}

impl Launch {
    /// The command that this launch executes.
    pub fn command(&self) -> (r: &String)
        ensures
            r@ == command_of(self@),
    {
        match self {
            Launch::Plain(c) => c,
            Launch::ToFile { command, .. } => command,
            Launch::FromFile { command, .. } => command,
        }
    }

    /// The file that a standard stream is connected to, if any.
    pub fn file(&self) -> (r: Option<&String>)
        ensures
            match self@ {
                LaunchSpec::Plain(_) => r.is_none(),
                LaunchSpec::ToFile { file, .. } => r.is_some() && r.unwrap()@ == file,
                LaunchSpec::FromFile { file, .. } => r.is_some() && r.unwrap()@ == file,
            },
    {
        match self {
            Launch::Plain(_) => None,
            Launch::ToFile { file, .. } => Some(file),
            Launch::FromFile { file, .. } => Some(file),
        }
    }

    /// The standard stream that this launch connects to its file, if any.
    pub fn descriptor(&self) -> (r: Option<i32>)
        ensures
            r == descriptor_of(self@),
    {
        match self {
            Launch::Plain(_) => None,
            Launch::ToFile { .. } => Some(STDOUT_FD),
            Launch::FromFile { .. } => Some(STDIN_FD),
        }
    }
}

/// The argument vector that executes `command`: its words, the first of
/// them naming the program. A command without words, or one that holds a
/// NUL character, has none.
pub fn exec_args(command: &str) -> (r: Result<Vec<String>, ExecError>)
    ensures
        match r {
            Ok(v) => {
                &&& tokens_of(command@).len() > 0
                &&& !occurs(command@, '\0')
                &&& texts(v@) == tokens_of(command@)
            },
            Err(ExecError::EmptyCommand) => tokens_of(command@).len() == 0,
            Err(ExecError::NulInArgument) => {
                &&& tokens_of(command@).len() > 0
                &&& occurs(command@, '\0')
            },
        },
{
    let words = tokenize(command);
    if words.len() == 0 {
        return Err(ExecError::EmptyCommand);
    }
    if find_char(command, '\0') < command.unicode_len() {
        return Err(ExecError::NulInArgument);
    }
    Ok(words)
}

/// A command line without `>` or `<` runs unchanged with the streams it
/// inherits. How a line is launched depends on that line alone, so a stream
/// that an earlier command sent to a file is never sent there again for a
/// later one.
pub proof fn lemma_plain_line_keeps_streams(line: Seq<char>)
    requires
        !occurs(line, '>'),
        !occurs(line, '<'),
    ensures
        launch_of(line) == LaunchSpec::Plain(line),
        descriptor_of(launch_of(line)) == None::<i32>,
        command_of(launch_of(line)) == line,
{
}

/// Where a line holds both `>` and `<`, only the output is redirected: the
/// command is what stands before the first `>`.
pub proof fn lemma_output_redirect_first(c: Seq<char>)
    requires
        occurs(c, '>'),
    ensures
        descriptor_of(launch_of(c)) == Some(STDOUT_FD),
        command_of(launch_of(c)) == c.take(position(c, '>') as int),
{
}

} // verus!
