//! The command to run: a program and its arguments.

use vstd::prelude::*;

verus! {

/// What a [`CommandSpec`] stands for.
pub ghost struct CommandLine {
    /// The name or path of the program.
    pub program: Seq<char>,
    /// The arguments, in order.
    pub args: Seq<Seq<char>>,
}

/// The texts of a run of strings.
pub open spec fn texts(parts: Seq<String>) -> Seq<Seq<char>> {
    parts.map_values(|part: String| part@)
}

/// The parts that `str::split_whitespace` yields for `text`, in order: its
/// runs of characters that are not Unicode white space.
pub uninterp spec fn whitespace_split(text: Seq<char>) -> Seq<Seq<char>>;

/// Calls `str::split_whitespace` and collects the parts as strings of
/// their own.  Trusted: the parts depend on the text alone and are named
/// `whitespace_split`.
#[verifier::external_body]
fn split_whitespace(text: &str) -> (parts: Vec<String>)
    ensures
        texts(parts@) == whitespace_split(text@),
{
    text.split_whitespace().map(|part| part.to_string()).collect()
}

/// The command that a run of parts names: the first part is the program,
/// the others are its arguments.  No parts name no command.
pub open spec fn command_of(parts: Seq<Seq<char>>) -> Option<CommandLine> {
    if parts.len() == 0 {
        None
    } else {
        Some(CommandLine { program: parts[0], args: parts.skip(1) })
    }
}

/// A program and its arguments.
#[derive(Debug)]
pub struct CommandSpec {
    program: String,
    args: Vec<String>,
}

impl View for CommandSpec {
    type V = CommandLine;

    closed spec fn view(&self) -> CommandLine {
        CommandLine { program: self.program@, args: texts(self.args@) }
    }
}

impl CommandSpec {
    /// The command of a program and its arguments.
    pub fn new(program: String, args: Vec<String>) -> (command: Self)
        ensures
            command@ == (CommandLine { program: program@, args: texts(args@) }),
    {
        CommandSpec { program, args }
    }

    /// The command that `parts` name, where they name one.
    pub fn from_parts(parts: Vec<String>) -> (command: Option<Self>)
        ensures
            match command {
                Some(found) => command_of(texts(parts@)) == Some(found@),
                None => command_of(texts(parts@)) is None,
            },
    {
        let mut parts = parts;
        if parts.len() == 0 {
            None
        } else {
            let ghost all = texts(parts@);
            let program = parts.remove(0);
            assert(texts(parts@) =~= all.skip(1));
            Some(CommandSpec { program, args: parts })
        }
    }

    /// Reads a command line: the first part that white space delimits is
    /// the program, the parts after it are the arguments.  A line without
    /// any part names no command.
    pub fn parse(line: &str) -> (command: Option<Self>)
        ensures
            match command {
                Some(found) => command_of(whitespace_split(line@)) == Some(found@),
                None => command_of(whitespace_split(line@)) is None,
            },
    {
        Self::from_parts(split_whitespace(line))
    }

    /// The name or path of the program.
    pub fn program(&self) -> (program: &str)
        ensures
            program@ == self@.program,
    {
        self.program.as_str()
    }

    /// The arguments, in order.
    pub fn args(&self) -> (args: &Vec<String>)
        ensures
            texts(args@) == self@.args,
    {
        &self.args
    }
}

} // verus!
