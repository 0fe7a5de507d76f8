//! The names of the commands, and how the program is used.

use super::say::{err, said, silent, start, warn, warn_text, Line, Outcome, Said};
use crate::glyph::{plain, put_text, Glyph};
use crate::text::{same_text, texts};
use vstd::prelude::*;

verus! {

/// A command.
#[derive(Debug, Clone, Copy, PartialEq, Eq)]
pub enum Command {
    Run,
    Status,
    Show,
    SetSpeed,
    Selftest,
    Curve,
    Keys,
    Validate,
    Reload,
    Version,
    Probe,
    ForceRpm,
    Help,
}

/// The command that a name stands for.
pub open spec fn named(s: Seq<char>) -> Option<Command> {
    if s == "run"@ {
        Some(Command::Run)
    } else if s == "status"@ {
        Some(Command::Status)
    } else if s == "show"@ {
        Some(Command::Show)
    } else if s == "set"@ {
        Some(Command::SetSpeed)
    } else if s == "selftest"@ {
        Some(Command::Selftest)
    } else if s == "curve"@ {
        Some(Command::Curve)
    } else if s == "keys"@ {
        Some(Command::Keys)
    } else if s == "validate"@ {
        Some(Command::Validate)
    } else if s == "reload"@ {
        Some(Command::Reload)
    } else if s == "version"@ || s == "--version"@ || s == "-V"@ {
        Some(Command::Version)
    } else if s == "probe"@ {
        Some(Command::Probe)
    } else if s == "force-rpm"@ {
        Some(Command::ForceRpm)
    } else if s == "--help"@ || s == "-h"@ {
        Some(Command::Help)
    } else {
        None
    }
}

/// What a name that is not known comes to.
pub open spec fn unknown(s: Seq<char>) -> (u8, Seq<Said>) {
    (
        64,
        seq![
            err(plain("fand: unknown subcommand '"@) + plain(s) + plain("'"@)),
            err(
                plain(
                    "usage: fand [run|curve|status|show|set|keys|validate|reload|version]"@,
                ),
            ),
        ],
    )
}

/// The command of a command line, whose first word is the program: `status` if
/// there is none.
pub open spec fn command_of(words: Seq<Seq<char>>) -> Result<Command, (u8, Seq<Said>)> {
    if words.len() < 2 {
        Ok(Command::Status)
    } else {
        match named(words[1]) {
            Some(c) => Ok(c),
            None => Err(unknown(words[1])),
        }
    }
}

/// Finds the command of a command line.
pub fn dispatch(args: &Vec<String>) -> (r: Result<Command, Outcome>)
    ensures
        match r {
            Ok(c) => command_of(texts(args@)) == Ok::<Command, (u8, Seq<Said>)>(c),
            Err(o) => command_of(texts(args@)) == Err::<Command, (u8, Seq<Said>)>(o@),
        },
{
    if args.len() < 2 {
        return Ok(Command::Status);
    }
    let name: &str = args[1].as_str();
    assert(texts(args@)[1] == name@);
    if same_text(name, "run") {
        Ok(Command::Run)
    } else if same_text(name, "status") {
        Ok(Command::Status)
    } else if same_text(name, "show") {
        Ok(Command::Show)
    } else if same_text(name, "set") {
        Ok(Command::SetSpeed)
    } else if same_text(name, "selftest") {
        Ok(Command::Selftest)
    } else if same_text(name, "curve") {
        Ok(Command::Curve)
    } else if same_text(name, "keys") {
        Ok(Command::Keys)
    } else if same_text(name, "validate") {
        Ok(Command::Validate)
    } else if same_text(name, "reload") {
        Ok(Command::Reload)
    } else if same_text(name, "version") || same_text(name, "--version") || same_text(name, "-V") {
        Ok(Command::Version)
    } else if same_text(name, "probe") {
        Ok(Command::Probe)
    } else if same_text(name, "force-rpm") {
        Ok(Command::ForceRpm)
    } else if same_text(name, "--help") || same_text(name, "-h") {
        Ok(Command::Help)
    } else {
        let mut m: Vec<Glyph> = start("fand: unknown subcommand '");
        put_text(&mut m, name);
        put_text(&mut m, "'");
        let mut lines: Vec<Line> = silent();
        warn(&mut lines, m);
        warn_text(
            &mut lines,
            "usage: fand [run|curve|status|show|set|keys|validate|reload|version]",
        );
        assert(said(lines@) =~= unknown(name@).1);
        Err(Outcome { code: 64, lines })
    }
}

/// How the program is used.
pub open spec fn help() -> (u8, Seq<Said>) {
    (
        0,
        seq![
            err(plain("usage: fand [subcommand] [options]"@)),
            err(plain(""@)),
            err(plain("subcommands:"@)),
            err(plain("  run        Start the fan control daemon"@)),
            err(plain("  status     Show current thermal and fan state"@)),
            err(plain("  show       Live curve plot with operating point"@)),
            err(plain("  set        Temporarily override fan speed"@)),
            err(plain("  keys       List available fans and sensors"@)),
            err(plain("  validate   Check a config file for errors"@)),
            err(plain("  reload     Reload daemon config"@)),
            err(plain("  version    Print version info"@)),
            err(plain(""@)),
            err(plain("Without a subcommand, `fand` is equivalent to `fand status`."@)),
        ],
    )
}

/// Says how the program is used.
pub fn execute() -> (r: Outcome)
    ensures
        r@ == help(),
{
    let mut lines: Vec<Line> = silent();
    warn_text(&mut lines, "usage: fand [subcommand] [options]");
    warn_text(&mut lines, "");
    warn_text(&mut lines, "subcommands:");
    warn_text(&mut lines, "  run        Start the fan control daemon");
    warn_text(&mut lines, "  status     Show current thermal and fan state");
    warn_text(&mut lines, "  show       Live curve plot with operating point");
    warn_text(&mut lines, "  set        Temporarily override fan speed");
    warn_text(&mut lines, "  keys       List available fans and sensors");
    warn_text(&mut lines, "  validate   Check a config file for errors");
    warn_text(&mut lines, "  reload     Reload daemon config");
    warn_text(&mut lines, "  version    Print version info");
    warn_text(&mut lines, "");
    warn_text(&mut lines, "Without a subcommand, `fand` is equivalent to `fand status`.");
    assert(said(lines@) =~= help().1);
    Outcome { code: 0, lines }
}

/// Without a name the program does what it does with `status`.
pub proof fn law_no_command_means_status(program: Seq<char>)
    ensures
        command_of(seq![program]) == command_of(seq![program, "status"@]),
{
    reveal_strlit("run");
    reveal_strlit("status");
    assert("run"@.len() != "status"@.len());
}

} // verus!
