//! Running one command in a shell and waiting for it, with the signals of the
//! parent out of the way meanwhile.
//!
//! [`SystemRun::step`] decides what to do next; whoever calls it does it and
//! reports back.
use vstd::prelude::*;

use crate::options::Options;
use crate::text::contains_char;

verus! {

/// A program and its arguments, the first of which is the name it runs under.
#[derive(Debug)]
pub struct ExecRequest {
    pub program: String,
    pub args: Vec<String>,
}

/// A command holds a null character, which no argument can.
#[derive(Debug, Clone, Copy, PartialEq, Eq, Structural)]
pub struct NullByte {}

impl NullByte {
    /// The message to show for the error.
    pub fn message(&self) -> (s: String)
        ensures
            s@ == "command contains null byte"@,
    {
        "command contains null byte".to_owned()
    }
}

/// The request asks the shell to run `command`.
pub open spec fn asks_shell(e: ExecRequest, command: Seq<char>, o: Options) -> bool {
    &&& e.program@ == o.shell@
    &&& e.args@.len() == 3
    &&& e.args@[0]@ == o.shell_name@
    &&& e.args@[1]@ == "-c"@
    &&& e.args@[2]@ == command
}

/// How to have the shell run a command.
pub fn shell_request(command: &str, opts: &Options) -> (e: ExecRequest)
    ensures
        asks_shell(e, command@, *opts),
{
    let mut args: Vec<String> = Vec::new();
    args.push(opts.shell_name.clone());
    args.push("-c".to_owned());
    args.push(command.to_owned());
    ExecRequest { program: opts.shell.clone(), args }
}

/// How to run a command and wait for it: in place of an empty one, one that does
/// nothing is run.
pub fn system_request(command: &str, opts: &Options) -> (r: Result<ExecRequest, NullByte>)
    ensures
        r is Err <==> command@.contains('\0'),
        r matches Ok(e) ==> asks_shell(
            e,
            if command@.len() == 0 {
                ":"@
            } else {
                command@
            },
            *opts,
        ),
{
    if contains_char(command, '\0') {
        return Err(NullByte {  });
    }
    if command.is_empty() {
        Ok(shell_request(":", opts))
    } else {
        Ok(shell_request(command, opts))
    }
}

/// What waiting for the child gave.
#[derive(Debug, Clone, Copy, PartialEq, Eq, Structural)]
pub enum ChildStatus {
    /// It exited with a code.
    Exited(i32),
    /// A signal killed it; whether that was the interrupt.
    Killed { by_interrupt: bool },
    /// Something else happened to it.
    Other,
    /// A signal cut the wait short.
    CutShort,
    /// The wait failed.
    Failed,
}

/// Where the running of the command stands.
#[derive(Debug, Clone, Copy, PartialEq, Eq, Structural)]
pub enum Phase {
    New,
    Blocking,
    Catching,
    Ignoring,
    Forking,
    Waiting,
    RestoringMask,
    RestoringInterrupt,
    RestoringQuit,
    Finished,
}

/// What happened.
#[derive(Debug, Clone, Copy, PartialEq, Eq, Structural)]
pub enum SystemEvent {
    Start,
    /// Whether the signal of ended children is now blocked.
    Blocked(bool),
    /// The interrupt is caught now; whether it was ignored before, where that is known.
    Caught(Option<bool>),
    /// Quitting is ignored now; whether it was before, where that is known.
    Ignored(Option<bool>),
    /// The child was started.
    Forked,
    /// No child could be started.
    ForkFailed,
    /// The wait for the child came back.
    Waited(ChildStatus),
    /// What was to be restored is restored.
    Restored,
}

/// What to do next.
#[derive(Debug, Clone, Copy, PartialEq, Eq, Structural)]
pub enum SystemAction {
    /// Block the signal of ended children, and keep the old mask.
    BlockChildSignal,
    /// Catch the interrupt, and keep the old handler.
    CatchInterrupt,
    /// Ignore the quit signal, and keep the old handler.
    IgnoreQuit,
    /// Start the child.
    Fork,
    /// Wait for the child.
    Wait,
    RestoreMask,
    RestoreInterrupt,
    RestoreQuit,
    /// Nothing more: the status, and whether there was an interrupt.
    Finish { status: i32, interrupted: bool },
}

/// What the child does before it becomes the shell.
#[derive(Debug, Clone, Copy, PartialEq, Eq, Structural)]
pub struct ChildPlan {
    /// Put the interrupt back to its default.
    pub reset_interrupt: bool,
    /// Put the quit signal back to its default.
    pub reset_quit: bool,
    /// Put the old mask back.
    pub restore_mask: bool,
}

/// The running of one command.
#[derive(Debug, Clone, Copy, PartialEq, Eq, Structural)]
pub struct SystemRun {
    pub phase: Phase,
    /// The command is empty: it only asks whether there is a shell.
    pub probe: bool,
    /// The signal of ended children is blocked.
    pub mask_blocked: bool,
    /// The interrupt is caught; whether it was ignored before.
    pub old_interrupt: Option<bool>,
    /// The quit signal is ignored; whether it was before.
    pub old_quit: Option<bool>,
    /// The status of the command.
    pub status: i32,
    /// The child was interrupted.
    pub interrupted: bool,
}

/// A run that is about to start.
pub open spec fn fresh(probe: bool) -> SystemRun {
    SystemRun {
        phase: Phase::New,
        probe,
        mask_blocked: false,
        old_interrupt: None,
        old_quit: None,
        status: 0,
        interrupted: false,
    }
}

/// The event can happen in this phase.
pub open spec fn fits(phase: Phase, event: SystemEvent) -> bool {
    match event {
        SystemEvent::Start => phase == Phase::New,
        SystemEvent::Blocked(_) => phase == Phase::Blocking,
        SystemEvent::Caught(_) => phase == Phase::Catching,
        SystemEvent::Ignored(_) => phase == Phase::Ignoring,
        SystemEvent::Forked => phase == Phase::Forking,
        SystemEvent::ForkFailed => phase == Phase::Forking,
        SystemEvent::Waited(_) => phase == Phase::Waiting,
        SystemEvent::Restored => phase == Phase::RestoringMask || phase
            == Phase::RestoringInterrupt || phase == Phase::RestoringQuit,
    }
}

/// What is reported of the status: a probe succeeds where the shell did, as a
/// truth value.
pub open spec fn reported(r: SystemRun) -> i32 {
    if r.probe {
        if r.status == 0 {
            1
        } else {
            0
        }
    } else {
        r.status
    }
}

/// Restores what is left to be restored, in order: mask, interrupt, quit.
pub open spec fn restoring(r: SystemRun) -> (SystemRun, SystemAction) {
    if r.mask_blocked {
        (SystemRun { phase: Phase::RestoringMask, ..r }, SystemAction::RestoreMask)
    } else if r.old_interrupt is Some {
        (SystemRun { phase: Phase::RestoringInterrupt, ..r }, SystemAction::RestoreInterrupt)
    } else if r.old_quit is Some {
        (SystemRun { phase: Phase::RestoringQuit, ..r }, SystemAction::RestoreQuit)
    } else {
        (
            SystemRun { phase: Phase::Finished, ..r },
            SystemAction::Finish { status: reported(r), interrupted: r.interrupted },
        )
    }
}

/// The status that a wait gives: the exit code, else minus one.
pub open spec fn status_of(w: ChildStatus) -> i32 {
    match w {
        ChildStatus::Exited(code) => code,
        _ => -1i32,
    }
}

/// The wait shows an interrupt: the shell reports one as 130, or it was killed by one.
pub open spec fn shows_interrupt(w: ChildStatus) -> bool {
    match w {
        ChildStatus::Exited(code) => code == 130,
        ChildStatus::Killed { by_interrupt } => by_interrupt,
        _ => false,
    }
}

/// What follows an event.
pub open spec fn system_next(r: SystemRun, event: SystemEvent) -> (SystemRun, SystemAction) {
    match event {
        SystemEvent::Start => (
            SystemRun { phase: Phase::Blocking, ..r },
            SystemAction::BlockChildSignal,
        ),
        SystemEvent::Blocked(ok) => (
            SystemRun { phase: Phase::Catching, mask_blocked: ok, ..r },
            SystemAction::CatchInterrupt,
        ),
        SystemEvent::Caught(old) => (
            SystemRun { phase: Phase::Ignoring, old_interrupt: old, ..r },
            SystemAction::IgnoreQuit,
        ),
        SystemEvent::Ignored(old) => (
            SystemRun { phase: Phase::Forking, old_quit: old, ..r },
            SystemAction::Fork,
        ),
        SystemEvent::Forked => (SystemRun { phase: Phase::Waiting, ..r }, SystemAction::Wait),
        SystemEvent::ForkFailed => restoring(SystemRun { status: -1i32, ..r }),
        SystemEvent::Waited(w) => if w == ChildStatus::CutShort {
            (r, SystemAction::Wait)
        } else {
            restoring(
                SystemRun {
                    status: status_of(w),
                    interrupted: r.interrupted || shows_interrupt(w),
                    ..r
                },
            )
        },
        SystemEvent::Restored => match r.phase {
            Phase::RestoringMask => restoring(SystemRun { mask_blocked: false, ..r }),
            Phase::RestoringInterrupt => restoring(SystemRun { old_interrupt: None, ..r }),
            _ => restoring(SystemRun { old_quit: None, ..r }),
        },
    }
}

/// What the child has to undo before it becomes the shell: signals that were not
/// ignored before go back to their default, and a changed mask is restored.
pub open spec fn child_plan_of(r: SystemRun) -> ChildPlan {
    ChildPlan {
        reset_interrupt: r.old_interrupt == Some(false),
        reset_quit: r.old_quit == Some(false),
        restore_mask: r.mask_blocked,
    }
}

impl SystemRun {
    /// A run of the command that is about to start.
    pub fn new(command: &str) -> (r: Self)
        ensures
            r == fresh(command@.len() == 0),
    {
        SystemRun {
            phase: Phase::New,
            probe: command.is_empty(),
            mask_blocked: false,
            old_interrupt: None,
            old_quit: None,
            status: 0,
            interrupted: false,
        }
    }

    /// Restores what is left to be restored.
    fn restore(&mut self) -> (a: SystemAction)
        ensures
            (*final(self), a) == restoring(*old(self)),
    {
        if self.mask_blocked {
            self.phase = Phase::RestoringMask;
            return SystemAction::RestoreMask;
        }
        if self.old_interrupt.is_some() {
            self.phase = Phase::RestoringInterrupt;
            return SystemAction::RestoreInterrupt;
        }
        if self.old_quit.is_some() {
            self.phase = Phase::RestoringQuit;
            return SystemAction::RestoreQuit;
        }
        self.phase = Phase::Finished;
        let status: i32 = if self.probe {
            if self.status == 0 {
                1
            } else {
                0
            }
        } else {
            self.status
        };
        SystemAction::Finish { status, interrupted: self.interrupted }
    }

    /// Takes in what happened and says what to do next.
    pub fn step(&mut self, event: SystemEvent) -> (a: SystemAction)
        requires
            fits(old(self).phase, event),
        ensures
            (*final(self), a) == system_next(*old(self), event),
    {
        match event {
            SystemEvent::Start => {
                self.phase = Phase::Blocking;
                SystemAction::BlockChildSignal
            },
            SystemEvent::Blocked(ok) => {
                self.phase = Phase::Catching;
                self.mask_blocked = ok;
                SystemAction::CatchInterrupt
            },
            SystemEvent::Caught(old_handler) => {
                self.phase = Phase::Ignoring;
                self.old_interrupt = old_handler;
                SystemAction::IgnoreQuit
            },
            SystemEvent::Ignored(old_handler) => {
                self.phase = Phase::Forking;
                self.old_quit = old_handler;
                SystemAction::Fork
            },
            SystemEvent::Forked => {
                self.phase = Phase::Waiting;
                SystemAction::Wait
            },
            SystemEvent::ForkFailed => {
                self.status = -1;
                self.restore()
            },
            SystemEvent::Waited(w) => {
                match w {
                    ChildStatus::CutShort => {
                        return SystemAction::Wait;
                    },
                    ChildStatus::Exited(code) => {
                        self.status = code;
                        if code == 130 {
                            self.interrupted = true;
                        }
                    },
                    ChildStatus::Killed { by_interrupt } => {
                        self.status = -1;
                        if by_interrupt {
                            self.interrupted = true;
                        }
                    },
                    _ => {
                        self.status = -1;
                    },
                }
                self.restore()
            },
            SystemEvent::Restored => {
                match self.phase {
                    Phase::RestoringMask => {
                        self.mask_blocked = false;
                    },
                    Phase::RestoringInterrupt => {
                        self.old_interrupt = None;
                    },
                    _ => {
                        self.old_quit = None;
                    },
                }
                self.restore()
            },
        }
    }

    /// What the child does before it becomes the shell.
    pub fn child_plan(&self) -> (p: ChildPlan)
        ensures
            p == child_plan_of(*self),
    {
        ChildPlan {
            reset_interrupt: match self.old_interrupt {
                Some(ignored) => !ignored,
                None => false,
            },
            reset_quit: match self.old_quit {
                Some(ignored) => !ignored,
                None => false,
            },
            restore_mask: self.mask_blocked,
        }
    }
}

/// What may be changed of the parent's signals in each phase.
pub open spec fn in_order(r: SystemRun) -> bool {
    match r.phase {
        Phase::New | Phase::Blocking | Phase::Finished => {
            !r.mask_blocked && r.old_interrupt is None && r.old_quit is None
        },
        Phase::Catching => r.old_interrupt is None && r.old_quit is None,
        Phase::Ignoring => r.old_quit is None,
        Phase::Forking | Phase::Waiting => true,
        Phase::RestoringMask => r.mask_blocked,
        Phase::RestoringInterrupt => !r.mask_blocked && r.old_interrupt is Some,
        Phase::RestoringQuit => !r.mask_blocked && r.old_interrupt is None && r.old_quit is Some,
    }
}

/// Every run starts with the signals untouched and keeps account of what it
/// changes.
pub proof fn account_is_kept(r: SystemRun, event: SystemEvent)
    requires
        fits(r.phase, event),
        in_order(r),
    ensures
        in_order(system_next(r, event).0),
        in_order(fresh(r.probe)),
{
}

/// When a run finishes, mask and handlers are as they were before it.
pub proof fn signals_are_restored(r: SystemRun, event: SystemEvent)
    requires
        fits(r.phase, event),
        in_order(r),
        system_next(r, event).1 is Finish,
    ensures
        ({
            let q = system_next(r, event).0;
            &&& q.phase == Phase::Finished
            &&& !q.mask_blocked
            &&& q.old_interrupt is None
            &&& q.old_quit is None
        }),
{
}

/// A signal is restored at most once, and only if it was changed.
pub proof fn only_changes_are_restored(r: SystemRun, event: SystemEvent)
    requires
        fits(r.phase, event),
        in_order(r),
    ensures
        ({
            let (q, action) = system_next(r, event);
            &&& action is RestoreMask ==> q.mask_blocked && r.mask_blocked
            &&& action is RestoreInterrupt ==> q.old_interrupt is Some && r.old_interrupt is Some
            &&& action is RestoreQuit ==> q.old_quit is Some && r.old_quit is Some
            &&& event is Restored ==> {
                ||| r.mask_blocked && !q.mask_blocked
                ||| r.old_interrupt is Some && q.old_interrupt is None
                ||| r.old_quit is Some && q.old_quit is None
            }
        }),
{
}

/// A wait that a signal cuts short is simply made again.
pub proof fn cut_short_wait_is_repeated(r: SystemRun)
    ensures
        system_next(r, SystemEvent::Waited(ChildStatus::CutShort)) == (r, SystemAction::Wait),
{
}

/// Once the child has ended, nothing that is restored changes what is reported.
pub proof fn restoring_keeps_the_status(r: SystemRun)
    requires
        fits(r.phase, SystemEvent::Restored),
    ensures
        ({
            let (q, action) = system_next(r, SystemEvent::Restored);
            &&& reported(q) == reported(r)
            &&& q.interrupted == r.interrupted
            &&& action matches SystemAction::Finish { status, interrupted } ==> status == reported(
                r,
            ) && interrupted == r.interrupted
        }),
{
}

/// The status is the exit code of the command, whatever it is, and only a command that
/// exits with 130 counts as interrupted; an interrupt that was seen before stays seen.
pub proof fn exit_code_is_kept(r: SystemRun, code: i32)
    ensures
        ({
            let q = system_next(r, SystemEvent::Waited(ChildStatus::Exited(code))).0;
            &&& q.status == code
            &&& code == 130 ==> q.interrupted
            &&& code != 130 ==> q.interrupted == r.interrupted
            &&& q.probe == r.probe
            &&& q.mask_blocked == r.mask_blocked
            &&& q.old_interrupt == r.old_interrupt
            &&& q.old_quit == r.old_quit
        }),
{
}

/// A command that did not exit has the status minus one: one that a signal killed, one
/// that could not be waited for and one that could not be started. Of these only one
/// that the interrupt killed counts as interrupted.
pub proof fn other_ends_are_failures(r: SystemRun, w: ChildStatus, by_interrupt: bool)
    requires
        w == ChildStatus::Other || w == ChildStatus::Failed,
    ensures
        ({
            let killed = system_next(
                r,
                SystemEvent::Waited(ChildStatus::Killed { by_interrupt }),
            ).0;
            let ended = system_next(r, SystemEvent::Waited(w)).0;
            let unstarted = system_next(r, SystemEvent::ForkFailed).0;
            &&& killed.status == -1
            &&& by_interrupt ==> killed.interrupted
            &&& !by_interrupt ==> killed.interrupted == r.interrupted
            &&& ended.status == -1
            &&& ended.interrupted == r.interrupted
            &&& unstarted.status == -1
            &&& unstarted.interrupted == r.interrupted
        }),
{
}

/// Before the child is started, its signal is blocked, the interrupt caught and
/// quitting ignored, in this order; then it is waited for.
pub proof fn signals_are_set_before_the_child_starts(
    r: SystemRun,
    blocked: bool,
    caught: Option<bool>,
    ignored: Option<bool>,
)
    ensures
        ({
            let (a, first) = system_next(r, SystemEvent::Start);
            let (b, second) = system_next(a, SystemEvent::Blocked(blocked));
            let (c, third) = system_next(b, SystemEvent::Caught(caught));
            let (d, fourth) = system_next(c, SystemEvent::Ignored(ignored));
            let (e, last) = system_next(d, SystemEvent::Forked);
            &&& first == SystemAction::BlockChildSignal
            &&& second == SystemAction::CatchInterrupt
            &&& third == SystemAction::IgnoreQuit
            &&& fourth == SystemAction::Fork
            &&& last == SystemAction::Wait
            &&& e.mask_blocked == blocked
            &&& e.old_interrupt == caught
            &&& e.old_quit == ignored
            &&& e.status == r.status
            &&& e.interrupted == r.interrupted
            &&& e.probe == r.probe
        }),
{
}

/// After the child has ended, everything that was changed is restored: first the mask,
/// then the interrupt, then quitting; what was not changed is passed over.
pub proof fn restoring_has_an_order(r: SystemRun, w: ChildStatus)
    requires
        w != ChildStatus::CutShort,
    ensures
        ({
            let (a, first) = system_next(r, SystemEvent::Waited(w));
            &&& r.mask_blocked ==> first == SystemAction::RestoreMask
            &&& !r.mask_blocked && r.old_interrupt is Some ==> first
                == SystemAction::RestoreInterrupt
            &&& !r.mask_blocked && r.old_interrupt is None && r.old_quit is Some ==> first
                == SystemAction::RestoreQuit
            &&& !r.mask_blocked && r.old_interrupt is None && r.old_quit is None ==> first is Finish
            &&& system_next(r, SystemEvent::ForkFailed).1 is Finish <==> first is Finish
            &&& !(first is Finish) ==> system_next(r, SystemEvent::ForkFailed).1 == first
            &&& r.mask_blocked && r.old_interrupt is Some && r.old_quit is Some ==> {
                let (b, second) = system_next(a, SystemEvent::Restored);
                let (c, third) = system_next(b, SystemEvent::Restored);
                let last = system_next(c, SystemEvent::Restored).1;
                &&& second == SystemAction::RestoreInterrupt
                &&& third == SystemAction::RestoreQuit
                &&& last is Finish
            }
        }),
{
}

/// What the whole run of a command reports: for a command its exit code, for a probe
/// whether the shell succeeded, and an interrupt exactly where the code is 130.
pub proof fn run_reports_the_exit_code(probe: bool, caught: bool, ignored: bool, code: i32)
    ensures
        ({
            let a = system_next(fresh(probe), SystemEvent::Start).0;
            let b = system_next(a, SystemEvent::Blocked(true)).0;
            let c = system_next(b, SystemEvent::Caught(Some(caught))).0;
            let d = system_next(c, SystemEvent::Ignored(Some(ignored))).0;
            let e = system_next(d, SystemEvent::Forked).0;
            let f = system_next(e, SystemEvent::Waited(ChildStatus::Exited(code))).0;
            let g = system_next(f, SystemEvent::Restored).0;
            let h = system_next(g, SystemEvent::Restored).0;
            let last = system_next(h, SystemEvent::Restored).1;
            &&& !probe ==> last == (SystemAction::Finish { status: code, interrupted: code == 130 })
            &&& probe && code == 0 ==> last == (SystemAction::Finish {
                status: 1,
                interrupted: false,
            })
            &&& probe && code != 0 ==> last == (SystemAction::Finish {
                status: 0,
                interrupted: code == 130,
            })
        }),
{
}

/// The child puts back to its default each signal that was not ignored before, and
/// restores the mask where it was changed; what was ignored stays ignored.
pub proof fn child_undoes_what_was_changed(
    r: SystemRun,
    blocked: bool,
    caught: Option<bool>,
    ignored: Option<bool>,
)
    ensures
        ({
            let b = system_next(r, SystemEvent::Blocked(blocked)).0;
            let c = system_next(b, SystemEvent::Caught(caught)).0;
            let d = system_next(c, SystemEvent::Ignored(ignored)).0;
            let plan = child_plan_of(d);
            &&& plan.restore_mask == blocked
            &&& plan.reset_interrupt <==> caught is Some && !caught->0
            &&& plan.reset_quit <==> ignored is Some && !ignored->0
        }),
{
}

/// A request for a command runs the shell of the options under its name, with the
/// command as the text after the flag `-c`.
pub proof fn shell_gets_the_command(e: ExecRequest, command: Seq<char>, o: Options)
    ensures
        asks_shell(e, command, o) <==> {
            &&& e.program@ == o.shell@
            &&& e.args@.len() == 3
            &&& e.args@[0]@ == o.shell_name@
            &&& e.args@[1]@ == seq!['-', 'c']
            &&& e.args@[2]@ == command
        },
{
    reveal_strlit("-c");
    assert("-c"@ =~= seq!['-', 'c']);
}

/// Each event has the phase in which it can happen.
pub proof fn every_event_has_its_phase(
    blocked: bool,
    caught: Option<bool>,
    ignored: Option<bool>,
    w: ChildStatus,
)
    ensures
        fits(Phase::New, SystemEvent::Start),
        fits(Phase::Blocking, SystemEvent::Blocked(blocked)),
        fits(Phase::Catching, SystemEvent::Caught(caught)),
        fits(Phase::Ignoring, SystemEvent::Ignored(ignored)),
        fits(Phase::Forking, SystemEvent::Forked),
        fits(Phase::Forking, SystemEvent::ForkFailed),
        fits(Phase::Waiting, SystemEvent::Waited(w)),
        fits(Phase::RestoringMask, SystemEvent::Restored),
        fits(Phase::RestoringInterrupt, SystemEvent::Restored),
        fits(Phase::RestoringQuit, SystemEvent::Restored),
{
}

} // verus!
