//! What printed lines say, with and without color, and what exit codes mean.
use vstd::prelude::*;

use crate::help;
#[allow(unused_imports)]
use crate::options::Options;
use crate::report;
#[allow(unused_imports)]
use crate::session::Stats;
use crate::text;
use crate::text_laws;
use crate::walk;

verus! {

/// Only a terminal gets color, and any value of `NO_COLOR` but an empty one prevents it.
pub proof fn color_is_for_terminals(no_color: Option<Seq<char>>, is_terminal: bool)
    ensures
        !is_terminal ==> !report::colored(no_color, is_terminal),
        is_terminal && no_color is None ==> report::colored(no_color, is_terminal),
        is_terminal && no_color is Some ==> (report::colored(no_color, is_terminal)
            <==> no_color->0.len() == 0),
{
}

/// Without color a text is printed as it is; with color it stands between its escape
/// sequence and the one that resets it.
pub proof fn colored_text_is_reset(escape: Seq<char>, s: Seq<char>)
    ensures
        report::painted(escape, s, false) == s,
        report::painted(escape, s, true) == escape + s + seq!['\u{1b}', '[', '0', 'm'],
{
    reveal_strlit("\x1b[0m");
    assert("\x1b[0m"@ =~= seq!['\u{1b}', '[', '0', 'm']);
}

/// Without color the lines hold nothing but words: the message after `Error: `, the
/// command in the question, and the three counters in order.
pub proof fn plain_lines(message: Seq<char>, stats: Stats)
    ensures
        report::error_line(message, false) == "Error:"@ + seq![' '] + message,
        report::confirm_question(message, false) == "Execute:"@ + seq![' '] + message + seq![
            ' ',
            '?',
            ' ',
            '[',
            'y',
            '/',
            'N',
            ']',
            ' ',
        ],
        report::summary_line(stats, false) == "Summary:"@ + seq![' '] + text::signed_decimal(
            stats.files_matched as int,
        ) + " matched, "@ + text::signed_decimal(stats.commands_run as int) + " run, "@
            + text::signed_decimal(stats.commands_failed as int) + " failed"@,
{
    reveal_strlit(" ");
    reveal_strlit(" ? ");
    reveal_strlit("[y/N]");
    assert(" "@ =~= seq![' ']);
    assert(report::confirm_question(message, false) =~= "Execute:"@ + seq![' '] + message + seq![
        ' ',
        '?',
        ' ',
        '[',
        'y',
        '/',
        'N',
        ']',
        ' ',
    ]);
}

/// With color the number of failures is red exactly where there are any, and else
/// green; nothing else in the summary depends on that.
pub proof fn failures_are_red(stats: Stats)
    ensures
        ({
            let number = text::signed_decimal(stats.commands_failed as int);
            let head = report::painted("\x1b[1m"@, "Summary:"@, true) + " "@ + report::painted(
                "\x1b[1;32m"@,
                text::signed_decimal(stats.files_matched as int),
                true,
            ) + " matched, "@ + report::painted(
                "\x1b[1;33m"@,
                text::signed_decimal(stats.commands_run as int),
                true,
            ) + " run, "@;
            &&& stats.commands_failed > 0 ==> report::summary_line(stats, true) == head
                + report::painted("\x1b[1;31m"@, number, true) + " failed"@
            &&& stats.commands_failed <= 0 ==> report::summary_line(stats, true) == head
                + report::painted("\x1b[1;32m"@, number, true) + " failed"@
        }),
{
}

/// Messages hold what they are about, between fixed words: the status of the command
/// that was a reason to stop, the list of matches, the directory and the reason.
pub proof fn messages_name_their_subject(status: int, files: Seq<char>, reason: Seq<char>)
    ensures
        report::stop_message(status) == "command failed (exit "@ + text::signed_decimal(status)
            + "), stopping."@,
        report::list_success_line(files) == "Success command file list: "@ + files + " ."@,
        walk::not_opened_message(files, reason) == "could not open directory: "@ + files + ": "@
            + reason,
{
}

/// A run exits with 130 exactly where it was interrupted, with 1 where a command
/// failed, and else with 0.
pub proof fn exit_codes(interrupted: bool, stats: Stats, o: Options)
    ensures
        report::ended(interrupted, stats, o).exit_code == 130 <==> interrupted,
        !interrupted ==> (report::ended(interrupted, stats, o).exit_code == 1
            <==> stats.commands_failed > 0),
        !interrupted ==> (report::ended(interrupted, stats, o).exit_code == 0
            <==> stats.commands_failed <= 0),
{
}

/// A run is summed up where a command failed, in any case; where none did, an
/// interrupted one is if a command ran, and any other in verbose mode and in a dry run.
pub proof fn runs_are_summed_up(interrupted: bool, stats: Stats, o: Options)
    ensures
        stats.commands_failed > 0 ==> report::ended(interrupted, stats, o).summary,
        stats.commands_failed <= 0 && interrupted ==> (report::ended(interrupted, stats, o).summary
            <==> stats.commands_run > 0),
        stats.commands_failed <= 0 && !interrupted ==> (report::ended(
            interrupted,
            stats,
            o,
        ).summary <==> o.verbose || o.dry_run),
{
}

/// A run on all matches at once exits with 0 exactly where it went through and nothing
/// failed, and else with 1.
pub proof fn list_exit_codes(proceed: bool, stats: Stats)
    ensures
        report::list_exit_code(proceed, stats) == 0 <==> proceed && stats.commands_failed <= 0,
        report::list_exit_code(proceed, stats) == 1 <==> !proceed || stats.commands_failed > 0,
{
}

// ---------------------------------------------------------------------------
// Marks
// ---------------------------------------------------------------------------

/// A mark of one letter.
pub open spec fn mark(letter: char) -> Seq<char> {
    seq!['{', letter, '}']
}

proof fn other_mark_stays(
    before: Seq<char>,
    letter: char,
    other: char,
    after: Seq<char>,
    to: Seq<char>,
)
    requires
        letter != other,
        letter != '{',
        !before.contains('{'),
        !after.contains('{'),
    ensures
        text::replaced(before + mark(letter) + after, mark(other), to) == before + mark(letter)
            + after,
{
    let s = before + mark(letter) + after;
    let pat = mark(other);
    assert forall|i: int| !text::occurs_at(s, pat, i) by {
        if text::occurs_at(s, pat, i) {
            let sub = s.subrange(i, i + pat.len());
            assert(sub[0] == '{' && sub[1] == other);
            assert(s[i] == '{' && s[i + 1] == other);
            if i < before.len() {
                assert(before[i] == '{');
            } else if i > before.len() + 2 {
                assert(after[i - before.len() - 3] == '{');
            } else {
                assert(s[i] == mark(letter)[i - before.len()]);
                assert(s[(before.len() + 1) as int] == letter);
            }
        }
    }
    text::replacing_absent_text(s, pat, to);
}

proof fn own_mark_is_replaced(before: Seq<char>, letter: char, after: Seq<char>, to: Seq<char>)
    requires
        !before.contains('{'),
        !after.contains('{'),
        letter != '{',
    ensures
        text::replaced(before + mark(letter) + after, mark(letter), to) == before + to + after,
{
    let s = before + mark(letter) + after;
    let pat = mark(letter);
    assert forall|i: int| 0 <= i < before.len() implies #[trigger] s.subrange(i, i + pat.len())
        != pat by {
        if s.subrange(i, i + pat.len()) == pat {
            assert(s.subrange(i, i + pat.len())[0] == s[i]);
            assert(before[i] == '{');
        }
    }
    text_laws::first_occurrence_is_replaced(before, pat, after, to);
    unmarked_stays(after, letter, to);
}

proof fn unmarked_stays(s: Seq<char>, letter: char, to: Seq<char>)
    requires
        !s.contains('{'),
    ensures
        text::replaced(s, mark(letter), to) == s,
{
    let pat = mark(letter);
    assert forall|i: int| !text::occurs_at(s, pat, i) by {
        if text::occurs_at(s, pat, i) {
            assert(s.subrange(i, i + pat.len())[0] == '{');
            assert(s[i] == '{');
        }
    }
    text::replacing_absent_text(s, pat, to);
}

proof fn marks_and_escapes()
    ensures
        "{b}"@ == mark('b'),
        "{w}"@ == mark('w'),
        "{c}"@ == mark('c'),
        "{y}"@ == mark('y'),
        "{g}"@ == mark('g'),
        "{r}"@ == mark('r'),
        ""@ == Seq::<char>::empty(),
{
    reveal_strlit("{b}");
    reveal_strlit("{w}");
    reveal_strlit("{c}");
    reveal_strlit("{y}");
    reveal_strlit("{g}");
    reveal_strlit("{r}");
    reveal_strlit("");
    assert("{b}"@ =~= mark('b'));
    assert("{w}"@ =~= mark('w'));
    assert("{c}"@ =~= mark('c'));
    assert("{y}"@ =~= mark('y'));
    assert("{g}"@ =~= mark('g'));
    assert("{r}"@ =~= mark('r'));
    assert(""@ =~= Seq::<char>::empty());
}

/// A text without marks is printed as it is, with color or without.
pub proof fn text_without_marks_stays(s: Seq<char>, color: bool)
    requires
        !s.contains('{'),
    ensures
        help::styled(s, color) == s,
{
    marks_and_escapes();
    let e: Seq<char> = Seq::empty();
    unmarked_stays(s, 'b', if color { "\x1b[1m"@ } else { e });
    unmarked_stays(s, 'w', if color { "\x1b[1;37m"@ } else { e });
    unmarked_stays(s, 'c', if color { "\x1b[1;36m"@ } else { e });
    unmarked_stays(s, 'y', if color { "\x1b[1;33m"@ } else { e });
    unmarked_stays(s, 'g', if color { "\x1b[32m"@ } else { e });
    unmarked_stays(s, 'r', if color { "\x1b[0m"@ } else { e });
}

/// The escape sequence that a mark stands for.
pub open spec fn escape_of(letter: char) -> Seq<char> {
    if letter == 'b' {
        seq!['\u{1b}', '[', '1', 'm']
    } else if letter == 'w' {
        seq!['\u{1b}', '[', '1', ';', '3', '7', 'm']
    } else if letter == 'c' {
        seq!['\u{1b}', '[', '1', ';', '3', '6', 'm']
    } else if letter == 'y' {
        seq!['\u{1b}', '[', '1', ';', '3', '3', 'm']
    } else if letter == 'g' {
        seq!['\u{1b}', '[', '3', '2', 'm']
    } else {
        seq!['\u{1b}', '[', '0', 'm']
    }
}

/// A mark becomes its escape sequence, and is taken out where there is no color; what
/// stands around it stays.
pub proof fn mark_becomes_its_escape(before: Seq<char>, letter: char, after: Seq<char>)
    requires
        !before.contains('{'),
        !after.contains('{'),
        letter == 'b' || letter == 'w' || letter == 'c' || letter == 'y' || letter == 'g' || letter
            == 'r',
    ensures
        help::styled(before + mark(letter) + after, true) == before + escape_of(letter) + after,
        help::styled(before + mark(letter) + after, false) == before + after,
{
    reveal_strlit("\x1b[1m");
    reveal_strlit("\x1b[1;37m");
    reveal_strlit("\x1b[1;36m");
    reveal_strlit("\x1b[1;33m");
    reveal_strlit("\x1b[32m");
    reveal_strlit("\x1b[0m");
    assert("\x1b[1m"@ =~= escape_of('b'));
    assert("\x1b[1;37m"@ =~= escape_of('w'));
    assert("\x1b[1;36m"@ =~= escape_of('c'));
    assert("\x1b[1;33m"@ =~= escape_of('y'));
    assert("\x1b[32m"@ =~= escape_of('g'));
    assert("\x1b[0m"@ =~= escape_of('r'));
    mark_is_replaced(before, letter, after, true);
    mark_is_replaced(before, letter, after, false);
    assert(before + Seq::<char>::empty() + after =~= before + after);
}

/// The text with one mark in it, after the marks up to a letter have been replaced.
proof fn mark_is_replaced(before: Seq<char>, letter: char, after: Seq<char>, color: bool)
    requires
        !before.contains('{'),
        !after.contains('{'),
        letter == 'b' || letter == 'w' || letter == 'c' || letter == 'y' || letter == 'g' || letter
            == 'r',
        "\x1b[1m"@ == escape_of('b'),
        "\x1b[1;37m"@ == escape_of('w'),
        "\x1b[1;36m"@ == escape_of('c'),
        "\x1b[1;33m"@ == escape_of('y'),
        "\x1b[32m"@ == escape_of('g'),
        "\x1b[0m"@ == escape_of('r'),
    ensures
        help::styled(before + mark(letter) + after, color) == before + (if color {
            escape_of(letter)
        } else {
            Seq::<char>::empty()
        }) + after,
{
    marks_and_escapes();
    let to = |l: char|
        if color {
            escape_of(l)
        } else {
            Seq::<char>::empty()
        };
    let s = before + mark(letter) + after;
    let r = before + to(letter) + after;
    assert(!r.contains('{')) by {
        if r.contains('{') {
            let i = choose|i: int| 0 <= i < r.len() && r[i] == '{';
            if i < before.len() {
                assert(before[i] == '{');
            } else if i < before.len() + to(letter).len() {
                assert(to(letter)[i - before.len()] == '{');
            } else {
                assert(after[i - before.len() - to(letter).len()] == '{');
            }
        }
    }
    own_mark_is_replaced(before, letter, after, to(letter));
    step_of_marks(before, letter, after, 'b', to('b'), r);
    step_of_marks(before, letter, after, 'w', to('w'), r);
    step_of_marks(before, letter, after, 'c', to('c'), r);
    step_of_marks(before, letter, after, 'y', to('y'), r);
    step_of_marks(before, letter, after, 'g', to('g'), r);
    step_of_marks(before, letter, after, 'r', to('r'), r);
}

proof fn step_of_marks(
    before: Seq<char>,
    letter: char,
    after: Seq<char>,
    other: char,
    to: Seq<char>,
    r: Seq<char>,
)
    requires
        letter != '{',
        !before.contains('{'),
        !after.contains('{'),
        !r.contains('{'),
    ensures
        other != letter ==> text::replaced(before + mark(letter) + after, mark(other), to) == before
            + mark(letter) + after,
        text::replaced(r, mark(other), to) == r,
{
    if other != letter {
        other_mark_stays(before, letter, other, after, to);
    }
    unmarked_stays(r, other, to);
}

} // verus!
