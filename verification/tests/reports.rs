use shell_cmd::help::{help_text, style, USAGE};
use shell_cmd::options::Options;
use shell_cmd::report::{
    confirm_text, echo_text, ending, error_text, list_all_ending, list_success_text, stop_text,
    summary_text, use_color, Ending,
};
use shell_cmd::session::Stats;
use shell_cmd::setup::{options, Cli};

fn opts() -> Options {
    let c = Cli {
        dry_run: false,
        verbose: false,
        all: false,
        depth: None,
        size: None,
        mtime: None,
        perm: None,
        user: None,
        group: None,
        type_filter: None,
        exclude: None,
        stop_on_error: false,
        confirm: false,
        list_all: false,
        jobs: 1,
        shell: "/bin/bash".to_string(),
        args: Vec::new(),
        glob: false,
        regex_match: false,
        glob_exclude: false,
        expr: None,
    };
    options(&c).ok().unwrap()
}

#[test]
fn color_needs_a_terminal_and_no_objection() {
    assert!(use_color(None, true));
    assert!(use_color(Some(""), true));
    assert!(!use_color(Some("1"), true));
    assert!(!use_color(Some("0"), true));
    assert!(!use_color(None, false));
    assert!(!use_color(Some("1"), false));
}

#[test]
fn errors_are_marked() {
    assert_eq!(error_text("no", false), "Error: no");
    assert_eq!(error_text("no", true), "\x1b[1;31mError:\x1b[0m no");
}

#[test]
fn question_before_a_command() {
    assert_eq!(confirm_text("rm /tmp/old.bak", false), "Execute: rm /tmp/old.bak ? [y/N] ");
    assert_eq!(
        confirm_text("ls", true),
        "\x1b[1;33mExecute:\x1b[0m ls ? \x1b[1m[y/N]\x1b[0m "
    );
}

#[test]
fn echoed_command() {
    assert_eq!(echo_text("ls", false), "ls");
    assert_eq!(echo_text("ls", true), "\x1b[36mls\x1b[0m");
}

#[test]
fn reason_to_stop() {
    assert_eq!(stop_text(2), "command failed (exit 2), stopping.");
    assert_eq!(stop_text(-1), "command failed (exit -1), stopping.");
}

#[test]
fn summary_of_a_run() {
    let s = Stats { files_matched: 12, commands_run: 12, commands_failed: 0 };
    assert_eq!(summary_text(&s, false), "Summary: 12 matched, 12 run, 0 failed");
    assert_eq!(
        summary_text(&s, true),
        "\x1b[1mSummary:\x1b[0m \x1b[1;32m12\x1b[0m matched, \x1b[1;33m12\x1b[0m run, \x1b[1;32m0\x1b[0m failed"
    );
    let s = Stats { files_matched: 3, commands_run: 2, commands_failed: 1 };
    assert_eq!(
        summary_text(&s, true),
        "\x1b[1mSummary:\x1b[0m \x1b[1;32m3\x1b[0m matched, \x1b[1;33m2\x1b[0m run, \x1b[1;31m1\x1b[0m failed"
    );
}

#[test]
fn endings_of_a_run() {
    let mut o = opts();
    let quiet = Stats { files_matched: 2, commands_run: 2, commands_failed: 0 };
    let failed = Stats { files_matched: 2, commands_run: 2, commands_failed: 1 };
    let nothing = Stats { files_matched: 2, commands_run: 0, commands_failed: 0 };
    assert_eq!(ending(false, &quiet, &o), Ending { summary: false, exit_code: 0 });
    assert_eq!(ending(false, &failed, &o), Ending { summary: true, exit_code: 1 });
    assert_eq!(ending(true, &failed, &o), Ending { summary: true, exit_code: 130 });
    assert_eq!(ending(true, &nothing, &o), Ending { summary: false, exit_code: 130 });
    o.dry_run = true;
    assert_eq!(ending(false, &quiet, &o), Ending { summary: true, exit_code: 0 });
    o.dry_run = false;
    o.verbose = true;
    assert_eq!(ending(false, &quiet, &o), Ending { summary: true, exit_code: 0 });
}

#[test]
fn endings_of_a_run_on_all_matches() {
    let quiet = Stats { files_matched: 2, commands_run: 1, commands_failed: 0 };
    let failed = Stats { files_matched: 2, commands_run: 1, commands_failed: 1 };
    assert_eq!(list_all_ending(true, &quiet), 0);
    assert_eq!(list_all_ending(true, &failed), 1);
    assert_eq!(list_all_ending(false, &quiet), 1);
    assert_eq!(list_success_text("a b"), "Success command file list: a b .");
}

#[test]
fn styles_are_set_or_taken_out() {
    assert_eq!(style("{b}x{r} {w}y{r} {c}v{r} {y}z{r} {g}u{r}", false), "x y v z u");
    assert_eq!(
        style("{b}x{r}{w}y{c}v{y}z{g}u", true),
        "\x1b[1mx\x1b[0m\x1b[1;37my\x1b[1;36mv\x1b[1;33mz\x1b[32mu"
    );
}

#[test]
fn usage_has_no_marks_left() {
    let plain = help_text(false);
    assert!(plain.starts_with("usage: shell-cmd-rs [options] path \"command %1 [%2 %3..]\" regex [extra_args..]\n"));
    assert!(plain.contains("  -j, --jobs N        run N commands in parallel (default: 1)\n"));
    assert!(!plain.contains('{') && !plain.contains('\x1b'));
    let colored = help_text(true);
    assert!(plain.contains("\n(Rust implementation of shell-cmd)\n"));
    assert!(colored.contains("\n\x1b[1;36m(Rust implementation of shell-cmd)\x1b[0m\n"));
    assert!(colored.contains("\x1b[32m-j, --jobs N\x1b[0m"));
    assert!(!colored.contains('{'));
    assert!(USAGE.contains("{g}-j, --jobs N{r}"));
}
