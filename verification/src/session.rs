//! Running commands: confirmation, dry runs, one command at a time, or several
//! in parallel.
//!
//! [`Session::proc_cmd`] decides what to do next; whoever calls it does it and
//! reports back.
use vstd::prelude::*;

use crate::options::Options;
use crate::text;
use crate::text::{same_text, trim};

verus! {

/// What has been matched and run so far.
#[derive(Debug, Clone, Copy, PartialEq, Eq, Structural)]
pub struct Stats {
    /// Entries that matched.
    pub files_matched: i32,
    /// Commands that ran, or were printed in a dry run.
    pub commands_run: i32,
    /// Commands that failed.
    pub commands_failed: i32,
}

/// What waiting for any child gave.
#[derive(Debug, Clone, Copy, PartialEq, Eq, Structural)]
pub enum WaitResult {
    /// A child ended; whether it exited with status zero.
    Child { pid: i32, success: bool },
    /// Something else happened to a child.
    Other,
    /// The wait failed, for example because an interrupt cut it short.
    Failed,
}

/// Where the running of a command stands.
#[derive(Debug, Clone, Copy, PartialEq, Eq, Structural)]
pub enum ProcState {
    /// No command is being dealt with.
    Idle,
    /// The question whether to run the command is out.
    Asking,
    /// As many children run as may.
    WaitingForSlot,
    /// A child is being started.
    Forking,
    /// The command is running.
    Running,
}

/// What happened.
#[derive(Debug)]
pub enum ProcEvent {
    /// There is a command to run.
    Start,
    /// The answer to the question.
    Answer(String),
    /// Waiting for a child came back.
    Waited(WaitResult),
    /// A child was started.
    Forked(i32),
    /// No child could be started.
    ForkFailed,
    /// The command came back with a status; whether there has been an interrupt.
    Finished { status: i32, interrupted: bool },
}

/// What to do next.
#[derive(Debug, Clone, Copy, PartialEq, Eq, Structural)]
pub enum ProcAction {
    /// Ask whether to run the command.
    Ask,
    /// Wait for any child.
    Wait,
    /// Start the command in a child of its own.
    Fork,
    /// Run the command and wait for it.
    Run,
    /// Nothing more: whether to go on with the next entry, and the status of the
    /// command that was the reason to stop.
    Done { proceed: bool, stopped_by: Option<i32> },
}

/// What to do next, after printing the command if `echo` is set.
#[derive(Debug, Clone, Copy, PartialEq, Eq, Structural)]
pub struct ProcStep {
    pub echo: bool,
    pub action: ProcAction,
}

/// The running of commands.
pub struct Session {
    pub stats: Stats,
    /// A command failed and that is a reason to stop.
    pub stop_requested: bool,
    /// The children that run.
    pub children: Vec<i32>,
    pub state: ProcState,
}

/// The running of commands as a mathematical value.
#[verifier::ext_equal]
pub struct Proc {
    pub stats: Stats,
    pub stop_requested: bool,
    pub children: Seq<i32>,
    pub state: ProcState,
}

impl View for Session {
    type V = Proc;

    open spec fn view(&self) -> Proc {
        Proc {
            stats: self.stats,
            stop_requested: self.stop_requested,
            children: self.children@,
            state: self.state,
        }
    }
}

/// `children` without `pid`.
pub open spec fn without(children: Seq<i32>, pid: i32) -> Seq<i32>
    decreases children.len(),
{
    if children.len() == 0 {
        children
    } else if children.last() == pid {
        without(children.drop_last(), pid)
    } else {
        without(children.drop_last(), pid).push(children.last())
    }
}

/// One more command has run.
pub open spec fn counted(stats: Stats, success: bool) -> Stats {
    Stats {
        files_matched: stats.files_matched,
        commands_run: (stats.commands_run + 1) as i32,
        commands_failed: if success {
            stats.commands_failed
        } else {
            (stats.commands_failed + 1) as i32
        },
    }
}

/// The statistics can count one more command.
pub open spec fn can_count(stats: Stats, success: bool) -> bool {
    stats.commands_run < i32::MAX && (success || stats.commands_failed < i32::MAX)
}

/// The statistics can count the child that a wait gave, if it gave one.
pub open spec fn can_count_wait(stats: Stats, w: WaitResult) -> bool {
    w matches WaitResult::Child { pid, success } ==> can_count(stats, success)
}

/// `p` after a wait: an ended child is counted and no longer there, and where it
/// failed, that can be a reason to stop.
pub open spec fn after_wait(p: Proc, w: WaitResult, stop_on_error: bool) -> Proc {
    match w {
        WaitResult::Child { pid, success } => Proc {
            stats: counted(p.stats, success),
            stop_requested: p.stop_requested || (!success && stop_on_error),
            children: without(p.children, pid),
            state: p.state,
        },
        _ => p,
    }
}

/// `p` in another state.
pub open spec fn in_state(p: Proc, state: ProcState) -> Proc {
    Proc { stats: p.stats, stop_requested: p.stop_requested, children: p.children, state }
}

/// `p` done with its command.
pub open spec fn done(p: Proc, proceed: bool) -> (Proc, ProcAction) {
    (in_state(p, ProcState::Idle), ProcAction::Done { proceed, stopped_by: None })
}

/// What follows once a child may be started, unless there is a reason to stop.
pub open spec fn slot_taken(p: Proc) -> (Proc, ProcAction) {
    if p.stop_requested {
        done(p, false)
    } else {
        (in_state(p, ProcState::Forking), ProcAction::Fork)
    }
}

/// What follows when a child is to be started: a wait where as many run as may.
pub open spec fn slot_sought(p: Proc, jobs: int) -> (Proc, ProcAction) {
    if p.children.len() < jobs {
        slot_taken(p)
    } else {
        (in_state(p, ProcState::WaitingForSlot), ProcAction::Wait)
    }
}

/// What follows once it is settled that the command is to run.
pub open spec fn dispatched(p: Proc, o: Options) -> (Proc, ProcAction) {
    if o.dry_run {
        done(Proc { stats: counted(p.stats, true), ..p }, true)
    } else if o.jobs > 1 {
        slot_sought(p, o.jobs as int)
    } else {
        (in_state(p, ProcState::Running), ProcAction::Run)
    }
}

/// The answer is a yes.
pub open spec fn is_yes(answer: Seq<char>) -> bool {
    text::trimmed(answer) == "y"@ || text::trimmed(answer) == "Y"@
}

/// The event can happen in this state.
pub open spec fn fits(state: ProcState, event: ProcEvent) -> bool {
    match event {
        ProcEvent::Start => state == ProcState::Idle,
        ProcEvent::Answer(_) => state == ProcState::Asking,
        ProcEvent::Waited(_) => state == ProcState::WaitingForSlot,
        ProcEvent::Forked(_) => state == ProcState::Forking,
        ProcEvent::ForkFailed => state == ProcState::Forking,
        ProcEvent::Finished { .. } => state == ProcState::Running,
    }
}

/// What follows a command that came back: it failed if its status is not zero,
/// whether or not there was an interrupt, which ends the run.
pub open spec fn finished(p: Proc, status: i32, interrupted: bool, stop_on_error: bool) -> (
    Proc,
    ProcAction,
) {
    let q = Proc { stats: counted(p.stats, status == 0), ..p };
    if interrupted {
        done(q, false)
    } else if status != 0 && stop_on_error {
        (
            Proc { stop_requested: true, ..in_state(q, ProcState::Idle) },
            ProcAction::Done { proceed: false, stopped_by: Some(status) },
        )
    } else {
        done(q, true)
    }
}

/// The event settles that the command is to run.
pub open spec fn settles(event: ProcEvent, o: Options) -> bool {
    match event {
        ProcEvent::Start => !o.confirm,
        ProcEvent::Answer(answer) => is_yes(answer@),
        _ => false,
    }
}

/// The command is printed before it is dealt with further.
pub open spec fn echoes(event: ProcEvent, o: Options) -> bool {
    settles(event, o) && (o.verbose || o.dry_run)
}

/// `p` after a wait for children that have been told to end.
pub open spec fn after_termination(p: Proc, w: WaitResult) -> Proc {
    match w {
        WaitResult::Child { pid, success } => Proc { children: without(p.children, pid), ..p },
        _ => p,
    }
}

/// After a wait that left `p`, another one is to be made: there are children left, and
/// the wait did not fail.
pub open spec fn waits_again(p: Proc, w: WaitResult) -> bool {
    w != WaitResult::Failed && p.children.len() > 0
}

/// The statistics can count what the event brings.
pub open spec fn has_room(p: Proc, event: ProcEvent, o: Options) -> bool {
    match event {
        ProcEvent::Waited(w) => can_count_wait(p.stats, w),
        ProcEvent::ForkFailed => p.stats.commands_failed < i32::MAX,
        ProcEvent::Finished { status, interrupted } => can_count(p.stats, status == 0),
        _ => settles(event, o) && o.dry_run ==> can_count(p.stats, true),
    }
}

/// What follows an event. Where as many children run as may and a wait fails, the
/// command is given up.
pub open spec fn proc_next(p: Proc, event: ProcEvent, o: Options) -> (Proc, ProcAction) {
    match event {
        ProcEvent::Start => if o.confirm {
            (in_state(p, ProcState::Asking), ProcAction::Ask)
        } else {
            dispatched(p, o)
        },
        ProcEvent::Answer(answer) => if is_yes(answer@) {
            dispatched(p, o)
        } else {
            done(p, true)
        },
        ProcEvent::Waited(w) => {
            let q = after_wait(p, w, o.stop_on_error);
            if w == WaitResult::Failed && q.children.len() >= o.jobs {
                done(q, false)
            } else {
                slot_sought(q, o.jobs as int)
            }
        },
        ProcEvent::Forked(pid) => done(Proc { children: p.children.push(pid), ..p }, true),
        ProcEvent::ForkFailed => done(
            Proc {
                stats: Stats {
                    commands_failed: (p.stats.commands_failed + 1) as i32,
                    ..p.stats
                },
                stop_requested: p.stop_requested || o.stop_on_error,
                ..p
            },
            !o.stop_on_error,
        ),
        ProcEvent::Finished { status, interrupted } => finished(
            p,
            status,
            interrupted,
            o.stop_on_error,
        ),
    }
}

/// Whether the answer is a yes.
fn says_yes(answer: &str) -> (b: bool)
    ensures
        b == is_yes(answer@),
{
    let trimmed: String = trim(answer);
    same_text(trimmed.as_str(), "y") || same_text(trimmed.as_str(), "Y")
}

impl Session {
    /// Nothing matched, nothing run.
    pub fn new() -> (s: Self)
        ensures
            s@ == (Proc {
                stats: Stats { files_matched: 0, commands_run: 0, commands_failed: 0 },
                stop_requested: false,
                children: Seq::empty(),
                state: ProcState::Idle,
            }),
    {
        Session {
            stats: Stats { files_matched: 0, commands_run: 0, commands_failed: 0 },
            stop_requested: false,
            children: Vec::new(),
            state: ProcState::Idle,
        }
    }

    /// Removes an ended child.
    fn forget(&mut self, pid: i32)
        ensures
            final(self)@ == (Proc { children: without(old(self)@.children, pid), ..old(self)@ }),
    {
        let mut kept: Vec<i32> = Vec::new();
        let mut i: usize = 0;
        let ghost all = self.children@;
        assert(all.take(0) == Seq::<i32>::empty());
        while i < self.children.len()
            invariant
                i <= self.children@.len(),
                self.children@ == all,
                kept@ == without(all.take(i as int), pid),
            decreases self.children@.len() - i,
        {
            assert(all.take(i + 1).drop_last() == all.take(i as int));
            if self.children[i] != pid {
                kept.push(self.children[i]);
            }
            i += 1;
        }
        assert(all.take(i as int) == all);
        self.children = kept;
    }

    /// Counts a command that ran.
    fn count(&mut self, success: bool)
        requires
            can_count(old(self)@.stats, success),
        ensures
            final(self)@ == (Proc { stats: counted(old(self)@.stats, success), ..old(self)@ }),
    {
        self.stats.commands_run = self.stats.commands_run + 1;
        if !success {
            self.stats.commands_failed = self.stats.commands_failed + 1;
        }
    }

    /// Takes in what a wait gave.
    fn take_in(&mut self, w: WaitResult, stop_on_error: bool)
        requires
            can_count_wait(old(self)@.stats, w),
        ensures
            final(self)@ == after_wait(old(self)@, w, stop_on_error),
    {
        match w {
            WaitResult::Child { pid, success } => {
                self.forget(pid);
                self.count(success);
                if !success && stop_on_error {
                    self.stop_requested = true;
                }
            },
            _ => {},
        }
    }

    /// Ends the dealing with a command.
    fn finish(&mut self, proceed: bool) -> (a: ProcAction)
        ensures
            (final(self)@, a) == done(old(self)@, proceed),
    {
        self.state = ProcState::Idle;
        ProcAction::Done { proceed, stopped_by: None }
    }

    /// Starts a child unless there is a reason to stop.
    fn take_slot(&mut self) -> (a: ProcAction)
        ensures
            (final(self)@, a) == slot_taken(old(self)@),
    {
        if self.stop_requested {
            return self.finish(false);
        }
        self.state = ProcState::Forking;
        ProcAction::Fork
    }

    /// Starts a child, or waits for one where as many run as may.
    pub fn wait_for_slot(&mut self, jobs: i32) -> (a: ProcAction)
        requires
            jobs > 1,
        ensures
            (final(self)@, a) == slot_sought(old(self)@, jobs as int),
    {
        if self.children.len() < jobs as usize {
            return self.take_slot();
        }
        self.state = ProcState::WaitingForSlot;
        ProcAction::Wait
    }

    /// Deals with a command that is to run.
    fn dispatch(&mut self, opts: &Options) -> (a: ProcAction)
        requires
            opts.dry_run ==> can_count(old(self)@.stats, true),
        ensures
            (final(self)@, a) == dispatched(old(self)@, *opts),
    {
        if opts.dry_run {
            self.count(true);
            return self.finish(true);
        }
        if opts.jobs > 1 {
            return self.wait_for_slot(opts.jobs);
        }
        self.state = ProcState::Running;
        ProcAction::Run
    }

    /// Takes in what happened to the command at hand and says what to do next.
    pub fn proc_cmd(&mut self, event: ProcEvent, opts: &Options) -> (step: ProcStep)
        requires
            fits(old(self)@.state, event),
            has_room(old(self)@, event, *opts),
            event is Waited ==> opts.jobs > 1,
        ensures
            (final(self)@, step.action) == proc_next(old(self)@, event, *opts),
            step.echo == (settles(event, *opts) && (opts.verbose || opts.dry_run)),
            step.echo == echoes(event, *opts),
    {
        let echo: bool = opts.verbose || opts.dry_run;
        match event {
            ProcEvent::Start => {
                if opts.confirm {
                    self.state = ProcState::Asking;
                    return ProcStep { echo: false, action: ProcAction::Ask };
                }
                ProcStep { echo, action: self.dispatch(opts) }
            },
            ProcEvent::Answer(answer) => {
                if !says_yes(answer.as_str()) {
                    return ProcStep { echo: false, action: self.finish(true) };
                }
                ProcStep { echo, action: self.dispatch(opts) }
            },
            ProcEvent::Waited(w) => {
                self.take_in(w, opts.stop_on_error);
                if let WaitResult::Failed = w {
                    if self.children.len() >= opts.jobs as usize {
                        return ProcStep { echo: false, action: self.finish(false) };
                    }
                }
                ProcStep { echo: false, action: self.wait_for_slot(opts.jobs) }
            },
            ProcEvent::Forked(pid) => {
                self.children.push(pid);
                ProcStep { echo: false, action: self.finish(true) }
            },
            ProcEvent::ForkFailed => {
                self.stats.commands_failed = self.stats.commands_failed + 1;
                if opts.stop_on_error {
                    self.stop_requested = true;
                }
                ProcStep { echo: false, action: self.finish(!opts.stop_on_error) }
            },
            ProcEvent::Finished { status, interrupted } => {
                let failed: bool = status != 0;
                self.count(!failed);
                if interrupted {
                    return ProcStep { echo: false, action: self.finish(false) };
                }
                if failed && opts.stop_on_error {
                    self.stop_requested = true;
                    self.state = ProcState::Idle;
                    return ProcStep {
                        echo: false,
                        action: ProcAction::Done { proceed: false, stopped_by: Some(status) },
                    };
                }
                ProcStep { echo: false, action: self.finish(true) }
            },
        }
    }

    /// Whether the statistics can count a command that succeeded or failed.
    fn can_count_one(&self, success: bool) -> (b: bool)
        ensures
            b == can_count(self@.stats, success),
    {
        self.stats.commands_run < i32::MAX && (success || self.stats.commands_failed < i32::MAX)
    }

    /// Whether the statistics can count the child that a wait gave, if it gave one.
    pub fn has_room_for_wait(&self, w: WaitResult) -> (b: bool)
        ensures
            b == can_count_wait(self@.stats, w),
    {
        match w {
            WaitResult::Child { pid, success } => self.can_count_one(success),
            _ => true,
        }
    }

    /// Whether the statistics can count what an event brings.
    pub fn has_room_for(&self, event: &ProcEvent, opts: &Options) -> (b: bool)
        ensures
            b == has_room(self@, *event, *opts),
    {
        match event {
            ProcEvent::Start => opts.confirm || !opts.dry_run || self.can_count_one(true),
            ProcEvent::Answer(answer) => !opts.dry_run || self.can_count_one(true) || !says_yes(
                answer.as_str(),
            ),
            ProcEvent::Waited(w) => self.has_room_for_wait(*w),
            ProcEvent::Forked(_) => true,
            ProcEvent::ForkFailed => self.stats.commands_failed < i32::MAX,
            ProcEvent::Finished { status, interrupted } => self.can_count_one(*status == 0),
        }
    }

    /// Whether children are left to wait for.
    pub fn has_children(&self) -> (b: bool)
        ensures
            b == (self@.children.len() > 0),
    {
        self.children.len() > 0
    }

    /// Takes in a wait while waiting for all children; whether to wait again.
    pub fn wait_all(&mut self, w: WaitResult) -> (again: bool)
        requires
            can_count_wait(old(self)@.stats, w),
        ensures
            final(self)@ == after_wait(old(self)@, w, false),
            again == (w != WaitResult::Failed && final(self)@.children.len() > 0),
            again == waits_again(final(self)@, w),
    {
        self.take_in(w, false);
        match w {
            WaitResult::Failed => false,
            _ => self.has_children(),
        }
    }

    /// Takes in a wait for children that have been told to end, which are not
    /// counted; whether to wait again.
    pub fn wait_terminated(&mut self, w: WaitResult) -> (again: bool)
        ensures
            final(self)@ == (match w {
                WaitResult::Child { pid, success } => Proc {
                    children: without(old(self)@.children, pid),
                    ..old(self)@
                },
                _ => old(self)@,
            }),
            final(self)@ == after_termination(old(self)@, w),
            again == (w != WaitResult::Failed && final(self)@.children.len() > 0),
            again == waits_again(final(self)@, w),
    {
        match w {
            WaitResult::Child { pid, success } => {
                self.forget(pid);
                self.has_children()
            },
            WaitResult::Other => self.has_children(),
            WaitResult::Failed => false,
        }
    }
}

} // verus!
