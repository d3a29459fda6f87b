//! The command line: no argument runs the dashboard; `--help` and `--version` print.
use vstd::prelude::*;

use crate::model::equal_text;

verus! {

/// What the command line asks for.
#[derive(Clone, Copy, Debug, PartialEq, Eq, Structural)]
pub enum Command {
    Run,
    Help,
    Version,
}

/// The words joined with single spaces.
pub open spec fn joined(words: Seq<Seq<char>>) -> Seq<char>
    decreases words.len(),
{
    if words.len() == 0 {
        Seq::empty()
    } else if words.len() == 1 {
        words[0]
    } else {
        joined(words.drop_last()) + " "@ + words.last()
    }
}

/// The texts of `args`.
pub open spec fn texts(args: Seq<String>) -> Seq<Seq<char>> {
    Seq::new(args.len(), |i: int| args[i]@)
}

/// What the arguments (without the program name) ask for: nothing means run, `-h` or
/// `--help` alone means help, `-V` or `--version` alone means version; anything else is
/// refused with a message that repeats the arguments.
pub open spec fn command_for(args: Seq<Seq<char>>) -> Result<Command, Seq<char>> {
    if args.len() == 0 {
        Ok(Command::Run)
    } else if args.len() == 1 && (args[0] == "-h"@ || args[0] == "--help"@) {
        Ok(Command::Help)
    } else if args.len() == 1 && (args[0] == "-V"@ || args[0] == "--version"@) {
        Ok(Command::Version)
    } else {
        Err("unexpected argument(s): "@ + joined(args) + "\n\nRun `who-me --help` for usage."@)
    }
}

/// Reads the command line arguments that follow the program name.
pub fn parse_args(args: Vec<String>) -> (command: Result<Command, String>)
    ensures
        command matches Ok(c) ==> command_for(texts(args@)) == Ok::<Command, Seq<char>>(c),
        command matches Err(m) ==> command_for(texts(args@)) == Err::<Command, Seq<char>>(m@),
{
    let ghost words = texts(args@);
    if args.len() == 0 {
        return Ok(Command::Run);
    }
    if args.len() == 1 {
        let a = args[0].as_str();
        if equal_text(a, "-h") || equal_text(a, "--help") {
            return Ok(Command::Help);
        }
        if equal_text(a, "-V") || equal_text(a, "--version") {
            return Ok(Command::Version);
        }
    }
    let mut message = String::from_str("unexpected argument(s): ");
    let mut i: usize = 0;
    while i < args.len()
        invariant
            i <= args@.len(),
            words == texts(args@),
            message@ == "unexpected argument(s): "@ + joined(words.take(i as int)),
        decreases args@.len() - i,
    {
        if i > 0 {
            message.append(" ");
        }
        message.append(args[i].as_str());
        proof {
            assert(words.take(i + 1).drop_last() =~= words.take(i as int));
            if i > 0 {
                assert("unexpected argument(s): "@ + joined(words.take(i as int)) + " "@ + args@[i as int]@
                    =~= "unexpected argument(s): "@ + joined(words.take(i + 1)));
            } else {
                assert(words.take(1)[0] == args@[0]@);
                assert("unexpected argument(s): "@ + joined(words.take(0)) + args@[0]@
                    =~= "unexpected argument(s): "@ + joined(words.take(1)));
            }
        }
        i = i + 1;
    }
    proof {
        assert(words.take(args@.len() as int) =~= words);
    }
    message.append("\n\nRun `who-me --help` for usage.");
    Err(message)
}

} // verus!
