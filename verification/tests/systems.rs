use shell_cmd::options::Options;
use shell_cmd::setup::{options, Cli};
use shell_cmd::system::{
    shell_request, system_request, ChildPlan, ChildStatus, Phase, SystemAction, SystemEvent,
    SystemRun,
};

fn opts(shell: &str) -> Options {
    let c = Cli {
        dry_run: false,
        verbose: false,
        all: false,
        depth: None,
        size: None,
        mtime: None,
        perm: None,
        user: None,
        group: None,
        type_filter: None,
        exclude: None,
        stop_on_error: false,
        confirm: false,
        list_all: false,
        jobs: 1,
        shell: shell.to_string(),
        args: Vec::new(),
        glob: false,
        regex_match: false,
        glob_exclude: false,
        expr: None,
    };
    options(&c).ok().unwrap()
}

/// A run whose child has been started.
fn waiting(command: &str) -> SystemRun {
    let mut r = SystemRun::new(command);
    assert_eq!(r.step(SystemEvent::Start), SystemAction::BlockChildSignal);
    assert_eq!(r.step(SystemEvent::Blocked(true)), SystemAction::CatchInterrupt);
    assert_eq!(r.step(SystemEvent::Caught(Some(false))), SystemAction::IgnoreQuit);
    assert_eq!(r.step(SystemEvent::Ignored(Some(true))), SystemAction::Fork);
    assert_eq!(
        r.child_plan(),
        ChildPlan { reset_interrupt: true, reset_quit: false, restore_mask: true }
    );
    assert_eq!(r.step(SystemEvent::Forked), SystemAction::Wait);
    r
}

/// What is reported once everything is restored.
fn report(r: &mut SystemRun, w: ChildStatus) -> (i32, bool) {
    assert_eq!(r.step(SystemEvent::Waited(w)), SystemAction::RestoreMask);
    assert_eq!(r.step(SystemEvent::Restored), SystemAction::RestoreInterrupt);
    assert_eq!(r.step(SystemEvent::Restored), SystemAction::RestoreQuit);
    match r.step(SystemEvent::Restored) {
        SystemAction::Finish { status, interrupted } => {
            assert_eq!(r.phase, Phase::Finished);
            assert!(!r.mask_blocked && r.old_interrupt.is_none() && r.old_quit.is_none());
            (status, interrupted)
        }
        _ => panic!("not finished"),
    }
}

#[test]
fn shell_gets_the_command() {
    let o = opts("/usr/bin/zsh");
    let e = shell_request("echo \"a b\"", &o);
    assert_eq!(e.program, "/usr/bin/zsh");
    assert_eq!(e.args, vec!["zsh", "-c", "echo \"a b\""]);
    assert_eq!(shell_request("", &o).args[2], "");
}

#[test]
fn empty_command_does_nothing() {
    let o = opts("/bin/bash");
    assert_eq!(system_request("", &o).unwrap().args, vec!["bash", "-c", ":"]);
    assert_eq!(system_request("ls", &o).unwrap().args, vec!["bash", "-c", "ls"]);
}

#[test]
fn null_byte_is_refused() {
    let e = system_request("a\0b", &opts("/bin/bash")).unwrap_err();
    assert_eq!(e.message(), "command contains null byte");
}

#[test]
fn exit_code_is_the_status() {
    assert_eq!(report(&mut waiting("ls"), ChildStatus::Exited(0)), (0, false));
    assert_eq!(report(&mut waiting("ls"), ChildStatus::Exited(7)), (7, false));
}

#[test]
fn interrupts_are_noticed() {
    assert_eq!(report(&mut waiting("ls"), ChildStatus::Exited(130)), (130, true));
    assert_eq!(report(&mut waiting("ls"), ChildStatus::Killed { by_interrupt: true }), (-1, true));
    assert_eq!(report(&mut waiting("ls"), ChildStatus::Killed { by_interrupt: false }), (-1, false));
}

#[test]
fn other_endings_are_minus_one() {
    assert_eq!(report(&mut waiting("ls"), ChildStatus::Other), (-1, false));
    assert_eq!(report(&mut waiting("ls"), ChildStatus::Failed), (-1, false));
}

#[test]
fn wait_cut_short_is_repeated() {
    let mut r = waiting("ls");
    let before = r;
    assert_eq!(r.step(SystemEvent::Waited(ChildStatus::CutShort)), SystemAction::Wait);
    assert_eq!(r, before);
}

#[test]
fn probe_reports_a_truth_value() {
    assert_eq!(report(&mut waiting(""), ChildStatus::Exited(0)), (1, false));
    assert_eq!(report(&mut waiting(""), ChildStatus::Exited(127)), (0, false));
}

#[test]
fn only_what_was_changed_is_restored() {
    let mut r = SystemRun::new("ls");
    r.step(SystemEvent::Start);
    r.step(SystemEvent::Blocked(false));
    r.step(SystemEvent::Caught(None));
    r.step(SystemEvent::Ignored(Some(false)));
    assert_eq!(
        r.child_plan(),
        ChildPlan { reset_interrupt: false, reset_quit: true, restore_mask: false }
    );
    assert_eq!(r.step(SystemEvent::ForkFailed), SystemAction::RestoreQuit);
    assert_eq!(
        r.step(SystemEvent::Restored),
        SystemAction::Finish { status: -1, interrupted: false }
    );
}
