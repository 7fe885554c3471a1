//! The command line: commands, the options of a run, and the exit status.

use crate::strings::str_eq;
use crate::types::{Finding, FindingModel};
use vstd::prelude::*;
use vstd::string::StringExecFns;

verus! {

/// What the first argument asks for.
#[derive(Debug, Clone, Copy, PartialEq, Eq, Structural)]
pub enum Command {
    Run,
    Version,
    Help,
    Unknown,
}

/// The command that a first argument names.
pub open spec fn command_of(word: Seq<char>) -> Command {
    if word == "run"@ {
        Command::Run
    } else if word == "version"@ || word == "--version"@ || word == "-v"@ {
        Command::Version
    } else if word == "help"@ || word == "--help"@ || word == "-h"@ {
        Command::Help
    } else {
        Command::Unknown
    }
}

/// Reads the command that the first argument names.
pub fn parse_command(word: &str) -> (command: Command)
    ensures
        command == command_of(word@),
{
    if str_eq(word, "run") {
        Command::Run
    } else if str_eq(word, "version") || str_eq(word, "--version") || str_eq(word, "-v") {
        Command::Version
    } else if str_eq(word, "help") || str_eq(word, "--help") || str_eq(word, "-h") {
        Command::Help
    } else {
        Command::Unknown
    }
}

/// The modes that a run can be asked for.
pub open spec fn known_mode(mode: Seq<char>) -> bool {
    ||| mode == "gaming"@
    ||| mode == "ai"@
    ||| mode == "creator"@
    ||| mode == "streaming"@
    ||| mode == "full"@
}

/// Whether `mode` is one of the modes that a run can be asked for.
pub fn is_known_mode(mode: &str) -> (yes: bool)
    ensures
        yes == known_mode(mode@),
{
    str_eq(mode, "gaming") || str_eq(mode, "ai") || str_eq(mode, "creator") || str_eq(
        mode,
        "streaming",
    ) || str_eq(mode, "full")
}

/// The options of a run.
#[derive(Debug, Clone)]
pub struct RunOptions {
    pub mode: String,
    pub verbose: bool,
}

/// Model of [`RunOptions`].
pub struct RunOptionsModel {
    pub mode: Seq<char>,
    pub verbose: bool,
}

impl View for RunOptions {
    type V = RunOptionsModel;

    open spec fn view(&self) -> RunOptionsModel {
        RunOptionsModel { mode: self.mode@, verbose: self.verbose }
    }
}

/// The options that the arguments leave, read from left to right on top of
/// `start`: `--mode` takes the next argument as the mode, and is ignored
/// where it stands last; `--verbose` asks for verbose output; anything else
/// is passed over.
pub open spec fn options_from(args: Seq<Seq<char>>, start: RunOptionsModel) -> RunOptionsModel
    decreases args.len(),
{
    if args.len() == 0 {
        start
    } else if args[0] == "--mode"@ {
        if args.len() >= 2 {
            options_from(args.skip(2), RunOptionsModel { mode: args[1], verbose: start.verbose })
        } else {
            start
        }
    } else if args[0] == "--verbose"@ {
        options_from(args.skip(1), RunOptionsModel { mode: start.mode, verbose: true })
    } else {
        options_from(args.skip(1), start)
    }
}

/// The options of a run with the given arguments: mode `full` and quiet
/// output, unless the arguments say otherwise.
pub open spec fn run_options(args: Seq<Seq<char>>) -> RunOptionsModel {
    options_from(args, RunOptionsModel { mode: "full"@, verbose: false })
}

/// Reads the options of a run from the arguments behind the command.
pub fn parse_run_args(args: &[String]) -> (options: RunOptions)
    ensures
        options@ == run_options(args.deep_view()),
{
    let ghost all = args.deep_view();
    let mut mode = String::from_str("full");
    let mut verbose = false;
    let mut i: usize = 0;
    assert(all.skip(0) =~= all);
    while i < args.len()
        invariant
            i <= args.len(),
            all == args.deep_view(),
            options_from(all.skip(i as int), RunOptionsModel { mode: mode@, verbose })
                == run_options(all),
        decreases args.len() - i,
    {
        let ghost rest = all.skip(i as int);
        assert(rest[0] == args@[i as int]@);
        let word = args[i].as_str();
        if str_eq(word, "--mode") {
            if i + 1 < args.len() {
                assert(rest[1] == args@[i + 1]@);
                assert(rest.skip(2) =~= all.skip(i + 2));
                mode = args[i + 1].clone();
                i += 1;
            } else {
                assert(all.skip(i + 1).len() == 0);
            }
        } else if str_eq(word, "--verbose") {
            assert(rest.skip(1) =~= all.skip(i + 1));
            verbose = true;
        } else {
            assert(rest.skip(1) =~= all.skip(i + 1));
        }
        i += 1;
    }
    RunOptions { mode, verbose }
}

/// The exit status that a list of findings calls for: 2 where a critical
/// finding is among them, else 1 where a warning is, else 0.
pub open spec fn exit_status(findings: Seq<FindingModel>) -> int {
    if exists|i: int| 0 <= i < findings.len() && findings[i].severity == "CRIT"@ {
        2
    } else if exists|i: int| 0 <= i < findings.len() && findings[i].severity == "WARN"@ {
        1
    } else {
        0
    }
}

/// The exit status of a run with the given findings.
pub fn exit_code(findings: &[Finding]) -> (status: i32)
    ensures
        status == exit_status(findings.deep_view()),
{
    let ghost all = findings.deep_view();
    let mut has_warn = false;
    let mut i: usize = 0;
    while i < findings.len()
        invariant
            i <= findings.len(),
            all == findings.deep_view(),
            forall|j: int| 0 <= j < i ==> all[j].severity != "CRIT"@,
            has_warn == exists|j: int| 0 <= j < i && all[j].severity == "WARN"@,
        decreases findings.len() - i,
    {
        let severity = findings[i].severity.as_str();
        if str_eq(severity, "CRIT") {
            assert(all[i as int].severity == "CRIT"@);
            return 2;
        }
        if str_eq(severity, "WARN") {
            assert(all[i as int].severity == "WARN"@);
            has_warn = true;
        }
        i += 1;
    }
    if has_warn {
        1
    } else {
        0
    }
}

} // verus!
