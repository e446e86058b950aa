use shell_cmd::options::Options;
use shell_cmd::session::{
    ProcAction, ProcEvent, ProcState, ProcStep, Session, Stats, WaitResult,
};
use shell_cmd::setup::{options, Cli};

fn opts() -> Options {
    let c = Cli {
        dry_run: false,
        verbose: false,
        all: false,
        depth: None,
        size: None,
        mtime: None,
        perm: None,
        user: None,
        group: None,
        type_filter: None,
        exclude: None,
        stop_on_error: false,
        confirm: false,
        list_all: false,
        jobs: 1,
        shell: "/bin/bash".to_string(),
        args: Vec::new(),
        glob: false,
        regex_match: false,
        glob_exclude: false,
        expr: None,
    };
    options(&c).ok().unwrap()
}

fn silent(action: ProcAction) -> ProcStep {
    ProcStep { echo: false, action }
}

fn done(proceed: bool) -> ProcAction {
    ProcAction::Done { proceed, stopped_by: None }
}

fn child(pid: i32, success: bool) -> ProcEvent {
    ProcEvent::Waited(WaitResult::Child { pid, success })
}

#[test]
fn one_command_at_a_time() {
    let o = opts();
    let mut s = Session::new();
    assert_eq!(s.proc_cmd(ProcEvent::Start, &o), silent(ProcAction::Run));
    let step = s.proc_cmd(ProcEvent::Finished { status: 0, interrupted: false }, &o);
    assert_eq!(step, silent(done(true)));
    assert_eq!(s.stats, Stats { files_matched: 0, commands_run: 1, commands_failed: 0 });
    s.proc_cmd(ProcEvent::Start, &o);
    let step = s.proc_cmd(ProcEvent::Finished { status: 3, interrupted: false }, &o);
    assert_eq!(step, silent(done(true)));
    assert_eq!(s.stats, Stats { files_matched: 0, commands_run: 2, commands_failed: 1 });
    assert!(!s.stop_requested);
}

#[test]
fn first_failure_stops_on_request() {
    let mut o = opts();
    o.stop_on_error = true;
    let mut s = Session::new();
    s.proc_cmd(ProcEvent::Start, &o);
    let step = s.proc_cmd(ProcEvent::Finished { status: 2, interrupted: false }, &o);
    assert_eq!(step, silent(ProcAction::Done { proceed: false, stopped_by: Some(2) }));
    assert!(s.stop_requested);
    assert_eq!(s.stats.commands_failed, 1);
}

#[test]
fn interrupt_ends_the_run_and_the_status_is_counted() {
    let mut o = opts();
    o.stop_on_error = true;
    let mut s = Session::new();
    s.proc_cmd(ProcEvent::Start, &o);
    let step = s.proc_cmd(ProcEvent::Finished { status: 130, interrupted: true }, &o);
    assert_eq!(step, silent(done(false)));
    assert_eq!(s.stats, Stats { files_matched: 0, commands_run: 1, commands_failed: 1 });
    assert!(!s.stop_requested);
    s.proc_cmd(ProcEvent::Start, &o);
    let step = s.proc_cmd(ProcEvent::Finished { status: 0, interrupted: true }, &o);
    assert_eq!(step, silent(done(false)));
    assert_eq!(s.stats, Stats { files_matched: 0, commands_run: 2, commands_failed: 1 });
}

#[test]
fn dry_run_prints_and_counts() {
    let mut o = opts();
    o.dry_run = true;
    o.jobs = 4;
    let mut s = Session::new();
    for n in 1..4 {
        assert_eq!(s.proc_cmd(ProcEvent::Start, &o), ProcStep { echo: true, action: done(true) });
        assert_eq!(s.stats.commands_run, n);
    }
    assert!(s.children.is_empty());
}

#[test]
fn verbose_prints_before_running() {
    let mut o = opts();
    o.verbose = true;
    let mut s = Session::new();
    assert_eq!(
        s.proc_cmd(ProcEvent::Start, &o),
        ProcStep { echo: true, action: ProcAction::Run }
    );
}

#[test]
fn confirmation_is_asked_for_first() {
    let mut o = opts();
    o.confirm = true;
    o.verbose = true;
    for (answer, yes) in [
        ("y\n", true),
        (" Y ", true),
        ("yes\n", false),
        ("n\n", false),
        ("", false),
        ("\u{a0}y\r\n", true),
    ] {
        let mut s = Session::new();
        assert_eq!(s.proc_cmd(ProcEvent::Start, &o), silent(ProcAction::Ask));
        let step = s.proc_cmd(ProcEvent::Answer(answer.to_string()), &o);
        if yes {
            assert_eq!(step, ProcStep { echo: true, action: ProcAction::Run });
        } else {
            assert_eq!(step, silent(done(true)));
            assert_eq!(s.state, ProcState::Idle);
        }
        assert_eq!(s.stats.commands_run, 0);
    }
}

#[test]
fn pool_of_children_is_bounded() {
    let mut o = opts();
    o.jobs = 2;
    let mut s = Session::new();
    for pid in [11, 12] {
        assert_eq!(s.proc_cmd(ProcEvent::Start, &o), silent(ProcAction::Fork));
        assert_eq!(s.proc_cmd(ProcEvent::Forked(pid), &o), silent(done(true)));
    }
    assert_eq!(s.children, vec![11, 12]);
    assert_eq!(s.proc_cmd(ProcEvent::Start, &o), silent(ProcAction::Wait));
    let step = s.proc_cmd(ProcEvent::Waited(WaitResult::Other), &o);
    assert_eq!(step, silent(ProcAction::Wait));
    assert_eq!(s.proc_cmd(child(99, true), &o), silent(ProcAction::Wait));
    assert_eq!(s.proc_cmd(child(11, false), &o), silent(ProcAction::Fork));
    assert_eq!(s.children, vec![12]);
    assert_eq!(s.stats, Stats { files_matched: 0, commands_run: 2, commands_failed: 1 });
}

#[test]
fn failed_child_stops_on_request() {
    let mut o = opts();
    o.jobs = 2;
    o.stop_on_error = true;
    let mut s = Session::new();
    for pid in [1, 2] {
        s.proc_cmd(ProcEvent::Start, &o);
        s.proc_cmd(ProcEvent::Forked(pid), &o);
    }
    s.proc_cmd(ProcEvent::Start, &o);
    assert_eq!(s.proc_cmd(child(2, false), &o), silent(done(false)));
    assert!(s.stop_requested);
    assert_eq!(s.children, vec![1]);
}

#[test]
fn failed_wait_starts_no_child() {
    let mut o = opts();
    o.jobs = 2;
    let mut s = Session::new();
    s.children = vec![1, 2];
    assert_eq!(s.proc_cmd(ProcEvent::Start, &o), silent(ProcAction::Wait));
    let step = s.proc_cmd(ProcEvent::Waited(WaitResult::Failed), &o);
    assert_eq!(step, silent(done(false)));
    assert_eq!(s.children, vec![1, 2]);
    assert_eq!(s.state, ProcState::Idle);
}

#[test]
fn failed_fork_is_counted_as_a_failure() {
    let mut o = opts();
    o.jobs = 2;
    let mut s = Session::new();
    s.proc_cmd(ProcEvent::Start, &o);
    assert_eq!(s.proc_cmd(ProcEvent::ForkFailed, &o), silent(done(true)));
    assert_eq!(s.stats, Stats { files_matched: 0, commands_run: 0, commands_failed: 1 });
    o.stop_on_error = true;
    s.proc_cmd(ProcEvent::Start, &o);
    assert!(!s.stop_requested);
    assert_eq!(s.proc_cmd(ProcEvent::ForkFailed, &o), silent(done(false)));
    assert!(s.stop_requested);
}

#[test]
fn all_children_are_waited_for() {
    let mut s = Session::new();
    s.children = vec![5, 6];
    assert!(s.has_children());
    assert!(s.wait_all(WaitResult::Child { pid: 6, success: false }));
    assert!(s.wait_all(WaitResult::Other));
    assert!(!s.wait_all(WaitResult::Child { pid: 5, success: true }));
    assert!(!s.has_children());
    assert_eq!(s.stats, Stats { files_matched: 0, commands_run: 2, commands_failed: 1 });
    assert!(!s.stop_requested);
    s.children = vec![7];
    assert!(!s.wait_all(WaitResult::Failed));
    assert_eq!(s.children, vec![7]);
}

#[test]
fn terminated_children_are_not_counted() {
    let mut s = Session::new();
    s.children = vec![5, 6, 5];
    assert!(s.wait_terminated(WaitResult::Child { pid: 5, success: false }));
    assert_eq!(s.children, vec![6]);
    assert!(s.wait_terminated(WaitResult::Other));
    assert!(!s.wait_terminated(WaitResult::Failed));
    assert!(!s.wait_terminated(WaitResult::Child { pid: 6, success: true }));
    assert_eq!(s.stats, Stats { files_matched: 0, commands_run: 0, commands_failed: 0 });
}

#[test]
fn counting_has_a_limit() {
    let mut o = opts();
    let mut s = Session::new();
    let finished = |status: i32, interrupted: bool| ProcEvent::Finished { status, interrupted };
    assert!(s.has_room_for(&finished(1, false), &o));
    s.stats.commands_failed = i32::MAX;
    assert!(!s.has_room_for(&finished(1, false), &o));
    assert!(!s.has_room_for(&finished(1, true), &o));
    assert!(s.has_room_for(&finished(0, true), &o));
    assert!(s.has_room_for(&finished(0, false), &o));
    assert!(!s.has_room_for(&ProcEvent::ForkFailed, &o));
    assert!(s.has_room_for_wait(WaitResult::Child { pid: 1, success: true }));
    assert!(!s.has_room_for_wait(WaitResult::Child { pid: 1, success: false }));
    s.stats.commands_run = i32::MAX;
    assert!(!s.has_room_for(&finished(0, false), &o));
    assert!(s.has_room_for(&ProcEvent::Start, &o));
    assert!(s.has_room_for(&ProcEvent::Forked(1), &o));
    assert!(s.has_room_for_wait(WaitResult::Failed));
    o.dry_run = true;
    assert!(!s.has_room_for(&ProcEvent::Start, &o));
    o.confirm = true;
    assert!(s.has_room_for(&ProcEvent::Start, &o));
    assert!(!s.has_room_for(&ProcEvent::Answer("y".to_string()), &o));
    assert!(s.has_room_for(&ProcEvent::Answer("n".to_string()), &o));
}
