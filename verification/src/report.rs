//! What is printed, and the exit code.
use vstd::prelude::*;

use crate::options::Options;
use crate::session::Stats;
use crate::text;
use crate::text::{join2, join3, signed_decimal_text};

verus! {

/// What is printed has color: it goes to a terminal, and the environment variable
/// `NO_COLOR` is not set, or empty.
pub open spec fn colored(no_color: Option<Seq<char>>, is_terminal: bool) -> bool {
    is_terminal && (no_color matches Some(value) ==> value.len() == 0)
}

/// Whether to color what is printed: to a terminal, unless the environment variable
/// `NO_COLOR` is set and not empty.
pub fn use_color(no_color: Option<&str>, is_terminal: bool) -> (b: bool)
    ensures
        b == colored(
            match no_color {
                Some(value) => Some(value@),
                None => None,
            },
            is_terminal,
        ),
        b == (is_terminal && (no_color is None || no_color->0@.len() == 0)),
{
    match no_color {
        Some(value) => is_terminal && value.is_empty(),
        None => is_terminal,
    }
}

/// A text between an escape sequence and the one that resets it.
pub open spec fn painted(escape: Seq<char>, s: Seq<char>, color: bool) -> Seq<char> {
    if color {
        escape + s + "\x1b[0m"@
    } else {
        s
    }
}

/// Puts a text between an escape sequence and the one that resets it.
fn paint(escape: &str, s: &str, color: bool) -> (r: String)
    ensures
        r@ == painted(escape@, s@, color),
{
    if color {
        join3(escape, s, "\x1b[0m")
    } else {
        s.to_owned()
    }
}

/// The line for an error message.
pub open spec fn error_line(message: Seq<char>, color: bool) -> Seq<char> {
    painted("\x1b[1;31m"@, "Error:"@, color) + " "@ + message
}

/// The line for an error message.
pub fn error_text(message: &str, color: bool) -> (r: String)
    ensures
        r@ == error_line(message@, color),
{
    let head: String = paint("\x1b[1;31m", "Error:", color);
    join3(head.as_str(), " ", message)
}

/// The question whether to run a command.
pub open spec fn confirm_question(command: Seq<char>, color: bool) -> Seq<char> {
    painted("\x1b[1;33m"@, "Execute:"@, color) + " "@ + command + " ? "@ + painted(
        "\x1b[1m"@,
        "[y/N]"@,
        color,
    ) + " "@
}

/// The question whether to run a command.
pub fn confirm_text(command: &str, color: bool) -> (r: String)
    ensures
        r@ == confirm_question(command@, color),
{
    let head: String = paint("\x1b[1;33m", "Execute:", color);
    let choice: String = paint("\x1b[1m", "[y/N]", color);
    let start: String = join3(head.as_str(), " ", command);
    let middle: String = join3(start.as_str(), " ? ", choice.as_str());
    join2(middle.as_str(), " ")
}

/// A command as it is printed.
pub fn echo_text(command: &str, color: bool) -> (r: String)
    ensures
        r@ == painted("\x1b[36m"@, command@, color),
{
    paint("\x1b[36m", command, color)
}

/// The message about the command that is the reason to stop.
pub open spec fn stop_message(status: int) -> Seq<char> {
    "command failed (exit "@ + text::signed_decimal(status) + "), stopping."@
}

/// The message about the command that is the reason to stop.
pub fn stop_text(status: i32) -> (r: String)
    ensures
        r@ == stop_message(status as int),
{
    let n: String = signed_decimal_text(status);
    join3("command failed (exit ", n.as_str(), "), stopping.")
}

/// The line that sums up a run. Failures are red, and their absence is green.
pub open spec fn summary_line(stats: Stats, color: bool) -> Seq<char> {
    painted("\x1b[1m"@, "Summary:"@, color) + " "@ + painted(
        "\x1b[1;32m"@,
        text::signed_decimal(stats.files_matched as int),
        color,
    ) + " matched, "@ + painted(
        "\x1b[1;33m"@,
        text::signed_decimal(stats.commands_run as int),
        color,
    ) + " run, "@ + painted(
        if stats.commands_failed > 0 {
            "\x1b[1;31m"@
        } else {
            "\x1b[1;32m"@
        },
        text::signed_decimal(stats.commands_failed as int),
        color,
    ) + " failed"@
}

/// The line that sums up a run.
pub fn summary_text(stats: &Stats, color: bool) -> (r: String)
    ensures
        r@ == summary_line(*stats, color),
{
    let head: String = paint("\x1b[1m", "Summary:", color);
    let matched_number: String = signed_decimal_text(stats.files_matched);
    let matched: String = paint("\x1b[1;32m", matched_number.as_str(), color);
    let run_number: String = signed_decimal_text(stats.commands_run);
    let run: String = paint("\x1b[1;33m", run_number.as_str(), color);
    let failed_number: String = signed_decimal_text(stats.commands_failed);
    let failed: String = if stats.commands_failed > 0 {
        paint("\x1b[1;31m", failed_number.as_str(), color)
    } else {
        paint("\x1b[1;32m", failed_number.as_str(), color)
    };
    let a: String = join3(head.as_str(), " ", matched.as_str());
    let b: String = join3(a.as_str(), " matched, ", run.as_str());
    let c: String = join3(b.as_str(), " run, ", failed.as_str());
    join2(c.as_str(), " failed")
}

/// How a run ends: whether it is summed up, and the exit code.
#[derive(Debug, Clone, Copy, PartialEq, Eq, Structural)]
pub struct Ending {
    pub summary: bool,
    pub exit_code: i32,
}

/// The end of a run that went through the entries one by one.
pub open spec fn ended(interrupted: bool, stats: Stats, o: Options) -> Ending {
    if interrupted {
        Ending {
            summary: stats.commands_run > 0 || stats.commands_failed > 0,
            exit_code: 130,
        }
    } else {
        Ending {
            summary: o.verbose || o.dry_run || stats.commands_failed > 0,
            exit_code: if stats.commands_failed > 0 {
                1
            } else {
                0
            },
        }
    }
}

/// How a run ends that went through the entries one by one. An interrupted one
/// exits with 130 and is summed up if a command ran or failed; else the exit code
/// says whether a command failed, and the run is summed up if one did, or in
/// verbose mode or a dry run.
pub fn ending(interrupted: bool, stats: &Stats, opts: &Options) -> (e: Ending)
    ensures
        e == ended(interrupted, *stats, *opts),
        interrupted ==> e == (Ending {
            summary: stats.commands_run > 0 || stats.commands_failed > 0,
            exit_code: 130,
        }),
        !interrupted ==> e == (Ending {
            summary: opts.verbose || opts.dry_run || stats.commands_failed > 0,
            exit_code: if stats.commands_failed > 0 {
                1
            } else {
                0
            },
        }),
{
    if interrupted {
        return Ending {
            summary: stats.commands_run > 0 || stats.commands_failed > 0,
            exit_code: 130,
        };
    }
    Ending {
        summary: opts.verbose || opts.dry_run || stats.commands_failed > 0,
        exit_code: if stats.commands_failed > 0 {
            1
        } else {
            0
        },
    }
}

/// The exit code of a run on all matches at once.
pub open spec fn list_exit_code(proceed: bool, stats: Stats) -> int {
    if proceed && stats.commands_failed <= 0 {
        0
    } else {
        1
    }
}

/// How a run on all matches at once ends: the exit code is 0 if the command did
/// not fail and nothing asked to stop, else 1.
pub fn list_all_ending(proceed: bool, stats: &Stats) -> (exit_code: i32)
    ensures
        exit_code == list_exit_code(proceed, *stats),
        exit_code == (if proceed && stats.commands_failed <= 0 {
            0int
        } else {
            1
        }),
{
    if proceed && stats.commands_failed <= 0 {
        0
    } else {
        1
    }
}

/// What is printed when one command ran on all matches.
pub open spec fn list_success_line(files: Seq<char>) -> Seq<char> {
    "Success command file list: "@ + files + " ."@
}

/// What is printed when one command ran on all matches.
pub fn list_success_text(files: &str) -> (r: String)
    ensures
        r@ == list_success_line(files@),
{
    join3("Success command file list: ", files, " .")
}

} // verus!
