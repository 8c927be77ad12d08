//! What the command line asks for.
use vstd::prelude::*;

use crate::scan::{same_text, texts};

verus! {

/// What the command line asks for.
#[derive(Debug, PartialEq, Eq)]
pub enum Invocation {
    /// Say whether the file at a path would be accepted, and start nothing.
    CheckConfig(String),
    /// The same, without a path.
    CheckNothing,
    /// Be a compositor, and run a command in it; the compositor ends when the command does.
    RunCommand(String),
    /// Be a compositor.
    Run,
}

/// The same, as values.
pub ghost enum Asked {
    CheckConfig(Seq<char>),
    CheckNothing,
    RunCommand(Seq<char>),
    Run,
}

impl View for Invocation {
    type V = Asked;

    open spec fn view(&self) -> Asked {
        match *self {
            Invocation::CheckConfig(path) => Asked::CheckConfig(path@),
            Invocation::CheckNothing => Asked::CheckNothing,
            Invocation::RunCommand(command) => Asked::RunCommand(command@),
            Invocation::Run => Asked::Run,
        }
    }
}

/// What arguments ask for, the program's name left out.
pub open spec fn asked(args: Seq<Seq<char>>) -> Asked {
    if args.len() > 0 && args[0] == "--check-config"@ {
        if args.len() > 1 {
            Asked::CheckConfig(args[1])
        } else {
            Asked::CheckNothing
        }
    } else if args.len() > 1 && (args[0] == "-c"@ || args[0] == "--command"@) {
        Asked::RunCommand(args[1])
    } else {
        Asked::Run
    }
}

/// What arguments ask for, the program's name left out.
pub fn parse(args: &[String]) -> (invocation: Invocation)
    ensures
        invocation@ == asked(texts(args@)),
{
    if args.len() > 0 && same_text(args[0].as_str(), "--check-config") {
        if args.len() > 1 {
            Invocation::CheckConfig(args[1].as_str().to_owned())
        } else {
            Invocation::CheckNothing
        }
    } else if args.len() > 1 && (same_text(args[0].as_str(), "-c") || same_text(
        args[0].as_str(),
        "--command",
    )) {
        Invocation::RunCommand(args[1].as_str().to_owned())
    } else {
        Invocation::Run
    }
}

/// A check starts nothing, whatever else is there, and is of the path that follows; a command is
/// run only where one follows; anything else is to be a compositor and nothing more.
pub proof fn a_check_starts_nothing(args: Seq<Seq<char>>)
    ensures
        args.len() > 0 && args[0] == "--check-config"@ ==> {
            &&& args.len() == 1 <==> asked(args) is CheckNothing
            &&& args.len() > 1 ==> asked(args) == Asked::CheckConfig(args[1])
        },
        args.len() == 2 && args[0] == "-c"@ ==> asked(args) == Asked::RunCommand(args[1]),
        args.len() == 2 && args[0] == "--command"@ ==> asked(args) == Asked::RunCommand(args[1]),
        asked(args) is CheckConfig || asked(args) is CheckNothing ==> args.len() > 0 && args[0]
            == "--check-config"@,
        asked(args) matches Asked::RunCommand(command) ==> args.len() > 1 && command == args[1],
        args.len() == 0 ==> asked(args) is Run,
{
    reveal_strlit("--check-config");
    reveal_strlit("-c");
    reveal_strlit("--command");
    assert("--check-config"@.len() == 14);
    assert("-c"@.len() == 2);
    assert("--command"@.len() == 9);
}

} // verus!
