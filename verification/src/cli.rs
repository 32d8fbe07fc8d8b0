//! The command line: its options, and what the interactive shell makes of a
//! line that was typed and of the outcome of a command.

use vstd::prelude::*;
use vstd::string::StringExecFns;

use crate::base::{RchatCommand, RcommandResult};

verus! {

/// The options of the command line: `--command`, with one of `start`,
/// `login`, `chat` and `p2p`.
#[derive(Debug, Clone, PartialEq, Eq)]
pub struct CliOpt {
    pub command: String,
}

/// A command that was typed in the shell, with its argument.
#[derive(Debug, Clone, PartialEq, Eq)]
pub struct RchatCommandRequest {
    pub command: RchatCommand,
    pub args: String,
}

/// What the shell does with a line.
#[derive(Debug, Clone, PartialEq, Eq)]
pub enum CliStep {
    /// Print the message and prompt again.
    Prompt(String),
    /// Send the request to be carried out.
    Send(RchatCommandRequest),
}

/// What the shell does with a line whose first word is `command` and whose
/// second word is `args`. A line without a first word, or without a second,
/// is answered with a message; a line with both is a request.
pub fn read_request(command: Option<&str>, args: Option<&str>) -> (step: CliStep)
    requires
        command matches Some(word) ==> RchatCommand::is_name(word@),
    ensures
        command is None ==> (step matches CliStep::Prompt(msg) && msg@ == "command is null ! \n"@),
        command is Some && args is None ==> (step matches CliStep::Prompt(msg) && msg@
            == "args is null ! \n"@),
        command is Some && args is Some ==> (step matches CliStep::Send(req) && req.command.name()
            == command->0@ && req.args@ == args->0@),
{
    match command {
        None => CliStep::Prompt("command is null ! \n".to_owned()),
        Some(word) => {
            let command = RchatCommand::from_string(word);
            match args {
                None => CliStep::Prompt("args is null ! \n".to_owned()),
                Some(args) => CliStep::Send(RchatCommandRequest { command, args: args.to_owned() }),
            }
        },
    }
}

/// What the shell prints of a command that failed for the reason `cause`.
pub open spec fn failure_report(cause: Seq<char>) -> Seq<char> {
    "执行失败! cause:"@ + cause + "\n"@
}

/// What the shell prints when a command has been carried out.
pub fn report(result: &RcommandResult) -> (line: String)
    ensures
        line@ == (if result.is_success {
            "执行完成\n"@
        } else {
            failure_report(result.err_msg@)
        }),
{
    if result.is_success {
        "执行完成\n".to_owned()
    } else {
        let mut line = "执行失败! cause:".to_owned();
        line.append(result.err_msg.as_str());
        line.append("\n");
        line
    }
}

} // verus!
