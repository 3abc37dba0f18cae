use vstd::prelude::*;

verus! {

/// Where a command came from.
#[derive(Clone, Copy, Debug, PartialEq, Eq, Structural)]
pub enum CommandSender {
    /// The operator at the process's standard input.
    Console,
}

/// One command for the command handler, with its origin.
#[derive(Clone, Debug)]
pub struct Command {
    pub sender: CommandSender,
    pub line: String,
}

/// The command for one line read from standard input: the line verbatim,
/// from the console.
pub fn console_command(line: String) -> (r: Command)
    ensures
        r.sender == CommandSender::Console,
        r.line@ == line@,
{
    Command { sender: CommandSender::Console, line }
}

} // verus!
