//! The command line: which of the program's commands an invocation asks for.

use crate::text::str_eq;
use vstd::prelude::*;
use vstd::string::*;

verus! {

/// The arguments of an invocation that names a command.
#[derive(Debug)]
pub struct Args {
    _prog: String,
    option: String,
}

impl Args {
    /// The name the program was called by.
    pub closed spec fn prog_view(&self) -> Seq<char> {
        self._prog@
    }

    /// The command that was asked for, as it was written.
    pub closed spec fn option_view(&self) -> Seq<char> {
        self.option@
    }

    /// The arguments of the program `prog` called with `option`.
    pub fn new(prog: &str, option: &str) -> (args: Args)
        ensures
            args.prog_view() == prog@,
            args.option_view() == option@,
    {
        Args { _prog: prog.to_owned(), option: option.to_owned() }
    }

    /// The command that was asked for, as it was written.
    pub fn get_option(&self) -> (option: String)
        ensures
            option@ == self.option_view(),
    {
        self.option.clone()
    }
}

impl Clone for Args {
    fn clone(&self) -> (copy: Args)
        ensures
            copy.prog_view() == self.prog_view(),
            copy.option_view() == self.option_view(),
    {
        Args { _prog: self._prog.clone(), option: self.option.clone() }
    }
}

/// Reads the arguments of the process: the program's name and exactly one
/// option. Anything else is no command.
pub fn args_parser(args: &Vec<String>) -> (parsed: Option<Args>)
    ensures
        match parsed {
            Some(parsed) => args@.len() == 2 && parsed.prog_view() == args@[0]@
                && parsed.option_view() == args@[1]@,
            None => args@.len() != 2,
        },
{
    if args.len() == 2 {
        Some(Args::new(args[0].as_str(), args[1].as_str()))
    } else {
        None
    }
}

/// What the program can be asked to do.
#[derive(Debug, Clone, Copy, PartialEq, Eq, Structural)]
pub enum Command {
    /// Serve the webhook.
    RunServer,
    /// Create the table of sessions.
    Migrate,
    /// Say how the program is called.
    Help,
}

/// The command that the arguments of a process ask for: `runserver` or
/// `migrate` as the only option, and help for anything else.
pub open spec fn chosen(args: Seq<String>) -> Command {
    if args.len() != 2 {
        Command::Help
    } else if args[1]@ == "runserver"@ {
        Command::RunServer
    } else if args[1]@ == "migrate"@ {
        Command::Migrate
    } else {
        Command::Help
    }
}

/// Picks the command that the arguments of the process ask for.
pub fn command(args: &Vec<String>) -> (picked: Command)
    ensures
        picked == chosen(args@),
{
    match args_parser(args) {
        Some(parsed) => {
            let option = parsed.get_option();
            if str_eq(option.as_str(), "runserver") {
                Command::RunServer
            } else if str_eq(option.as_str(), "migrate") {
                Command::Migrate
            } else {
                Command::Help
            }
        },
        None => Command::Help,
    }
}

} // verus!
