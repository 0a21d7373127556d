//! The plain values that pass between this library and whoever runs commands
//! for it: which system it runs on, what to run, and how the run ended.

use vstd::prelude::*;

verus! {

/// The operating system whose commands are to be used.
#[derive(Clone, Copy, Debug, PartialEq, Eq, Structural)]
pub enum Platform {
    MacOs,
    Windows,
    /// Any other system: every platform action fails on it.
    Unsupported,
}

/// A command to run: the program and its arguments.
#[derive(Debug, PartialEq, Eq)]
pub struct CommandLine {
    pub program: String,
    pub args: Vec<String>,
}

/// The text of a [`CommandLine`].
pub struct CommandLineView {
    pub program: Seq<char>,
    pub args: Seq<Seq<char>>,
}

impl View for CommandLine {
    type V = CommandLineView;

    open spec fn view(&self) -> CommandLineView {
        CommandLineView {
            program: self.program@,
            args: Seq::new(self.args@.len(), |i: int| self.args@[i]@),
        }
    }
}

impl CommandLine {
    /// The command that runs `program` with the one argument `first`.
    pub fn with_one(program: &str, first: &str) -> (command: CommandLine)
        ensures
            command@ == (CommandLineView { program: program@, args: seq![first@] }),
    {
        let mut args: Vec<String> = Vec::new();
        args.push(String::from_str(first));
        let command = CommandLine { program: String::from_str(program), args };
        assert(command@.args =~= seq![first@]);
        command
    }

    /// This command with `arg` as one more argument at the end.
    pub fn and(self, arg: &str) -> (command: CommandLine)
        ensures
            command@ == (CommandLineView { program: self@.program, args: self@.args.push(arg@) }),
    {
        let mut args = self.args;
        args.push(String::from_str(arg));
        let command = CommandLine { program: self.program, args };
        assert(command@.args =~= self@.args.push(arg@));
        command
    }
}

/// How the run of a command ended.
#[derive(Debug, PartialEq, Eq)]
pub enum CommandOutcome {
    /// The command could not be started at all; the text says why.
    NotStarted(String),
    /// The command ran and ended, with or without `success`; `stdout` and
    /// `stderr` hold what it wrote.
    Exited { success: bool, stdout: String, stderr: String },
}

} // verus!
