//! What holds of the running of commands, whatever happens.
use vstd::prelude::*;

use crate::options::Options;
use crate::session;
use crate::session::{ProcAction, ProcEvent, ProcState, WaitResult};
#[allow(unused_imports)]
use crate::session::Proc;
use crate::text;
use crate::text_laws;
use crate::walk;

verus! {

/// No more children run than may, and there is room for one that is being started.
pub open spec fn within_jobs(p: Proc, jobs: int) -> bool {
    p.children.len() <= jobs && (p.state == ProcState::Forking ==> p.children.len() < jobs)
}

/// Removing a child leaves every other one, in order.
pub proof fn without_removes_only(children: Seq<i32>, pid: i32)
    ensures
        session::without(children, pid).len() <= children.len(),
        !session::without(children, pid).contains(pid),
        forall|q: i32|
            q != pid ==> (#[trigger] session::without(children, pid).contains(q)
                <==> children.contains(q)),
        children.contains(pid) ==> session::without(children, pid).len() < children.len(),
        !children.contains(pid) ==> session::without(children, pid) == children,
    decreases children.len(),
{
    if children.len() > 0 {
        let rest = children.drop_last();
        let last = children.last();
        without_removes_only(rest, pid);
        let kept = session::without(rest, pid);
        let all = session::without(children, pid);
        assert forall|q: i32| children.contains(q) <==> rest.contains(q) || q == last by {
            if children.contains(q) && q != last {
                let i = choose|i: int| 0 <= i < children.len() && children[i] == q;
                assert(rest[i] == q);
            }
            if rest.contains(q) {
                let i = choose|i: int| 0 <= i < rest.len() && rest[i] == q;
                assert(children[i] == q);
            }
            if q == last {
                assert(children[children.len() - 1] == q);
            }
        }
        if last != pid {
            assert forall|q: i32| all.contains(q) <==> kept.contains(q) || q == last by {
                if all.contains(q) && q != last {
                    let i = choose|i: int| 0 <= i < all.len() && all[i] == q;
                    assert(kept[i] == q);
                }
                if kept.contains(q) {
                    let i = choose|i: int| 0 <= i < kept.len() && kept[i] == q;
                    assert(all[i] == q);
                }
                if q == last {
                    assert(all[kept.len() as int] == q);
                }
            }
            if !children.contains(pid) {
                assert(rest.push(last) =~= children);
            }
        } else {
            assert(children.contains(pid));
        }
    }
}

/// In parallel mode the number of children never exceeds the number of jobs.
pub proof fn never_more_children_than_jobs(p: Proc, event: ProcEvent, o: Options)
    requires
        session::fits(p.state, event),
        o.jobs > 1,
        within_jobs(p, o.jobs as int),
    ensures
        within_jobs(session::proc_next(p, event, o).0, o.jobs as int),
{
    if let ProcEvent::Waited(WaitResult::Child { pid, success }) = event {
        without_removes_only(p.children, pid);
    }
}

/// A dry run starts no command: it asks, or is done.
pub proof fn dry_run_starts_nothing(p: Proc, event: ProcEvent, o: Options)
    requires
        o.dry_run,
        event is Start || event is Answer,
    ensures
        ({
            let (q, action) = session::proc_next(p, event, o);
            &&& action is Ask || action is Done
            &&& q.state == ProcState::Idle || q.state == ProcState::Asking
            &&& q.children == p.children
        }),
{
}

/// With confirmation nothing runs before the question is answered.
pub proof fn confirmation_comes_first(p: Proc, o: Options)
    requires
        o.confirm,
    ensures
        session::proc_next(p, ProcEvent::Start, o).1 == ProcAction::Ask,
        session::proc_next(p, ProcEvent::Start, o).0 == session::in_state(p, ProcState::Asking),
{
}

/// Any answer but yes skips the command: nothing is run or counted, and the next
/// entry is dealt with.
pub proof fn refusal_skips_the_command(p: Proc, answer: String, o: Options)
    requires
        !session::is_yes(answer@),
    ensures
        session::proc_next(p, ProcEvent::Answer(answer), o) == (
            session::in_state(p, ProcState::Idle),
            ProcAction::Done { proceed: true, stopped_by: None },
        ),
{
}

/// A request to stop is never withdrawn, and in parallel mode no child is started
/// after it.
pub proof fn stop_is_final(p: Proc, event: ProcEvent, o: Options)
    requires
        p.stop_requested,
    ensures
        session::proc_next(p, event, o).0.stop_requested,
        o.jobs > 1 ==> !(session::proc_next(p, event, o).1 is Fork) && !(session::proc_next(
            p,
            event,
            o,
        ).1 is Run),
{
}

/// With stop-on-error every command that fails on its own, or for which no child can
/// be started, is a request to stop.
pub proof fn failure_requests_stop(p: Proc, event: ProcEvent, o: Options)
    requires
        o.stop_on_error,
        (event matches ProcEvent::Finished { status, interrupted } && status != 0 && !interrupted)
            || (event matches ProcEvent::Waited(WaitResult::Child { pid, success }) && !success)
            || event is ForkFailed,
    ensures
        session::proc_next(p, event, o).0.stop_requested,
{
}

/// Without stop-on-error nothing but an interrupt, or a failed wait for a place
/// among the children, keeps a run from going on.
pub proof fn run_goes_on_without_stop_on_error(p: Proc, event: ProcEvent, o: Options)
    requires
        !o.stop_on_error,
        !p.stop_requested,
    ensures
        !session::proc_next(p, event, o).0.stop_requested,
        session::proc_next(p, event, o).1 matches ProcAction::Done { proceed, stopped_by } ==> {
            &&& stopped_by is None
            &&& proceed || (event matches ProcEvent::Finished { status, interrupted }
                && interrupted) || event == ProcEvent::Waited(WaitResult::Failed)
        },
{
}

/// No more commands fail than run, except where a child cannot be started.
pub proof fn failures_are_among_the_runs(p: Proc, event: ProcEvent, o: Options)
    requires
        p.stats.commands_failed <= p.stats.commands_run,
        session::has_room(p, event, o),
        !(event is ForkFailed),
    ensures
        ({
            let q = session::proc_next(p, event, o).0;
            q.stats.commands_failed <= q.stats.commands_run
        }),
{
}

/// No event changes how many entries have matched.
pub proof fn running_matches_nothing(p: Proc, event: ProcEvent, o: Options)
    ensures
        session::proc_next(p, event, o).0.stats.files_matched == p.stats.files_matched,
{
}

/// While all children are waited for, each that ends is counted once and is gone.
pub proof fn ended_child_is_counted_and_gone(p: Proc, pid: i32, success: bool)
    requires
        p.children.contains(pid),
        session::can_count(p.stats, success),
    ensures
        ({
            let q = session::after_wait(p, WaitResult::Child { pid, success }, false);
            &&& q.children.len() < p.children.len()
            &&& !q.children.contains(pid)
            &&& q.stats.commands_run == p.stats.commands_run + 1
            &&& q.stats.commands_failed == p.stats.commands_failed + (if success {
                0int
            } else {
                1int
            })
            &&& q.stop_requested == p.stop_requested
        }),
{
    without_removes_only(p.children, pid);
}

/// A dry run without questions counts a command for each match, and no failure.
pub proof fn dry_run_counts_every_match(p: Proc, o: Options)
    requires
        o.dry_run,
        !o.confirm,
        p.stats.files_matched == p.stats.commands_run,
        p.stats.commands_run < i32::MAX,
    ensures
        ({
            let matched = walk::with_match(p, true);
            let (q, action) = session::proc_next(matched, ProcEvent::Start, o);
            &&& q.stats.files_matched == p.stats.files_matched + 1
            &&& q.stats.commands_run == q.stats.files_matched
            &&& q.stats.commands_failed == p.stats.commands_failed
            &&& action == ProcAction::Done { proceed: true, stopped_by: None }
        }),
{
}

/// A command that was waited for is counted as run, and as failed exactly when its
/// status is not zero, interrupt or not.
pub proof fn status_decides_what_failed(p: Proc, status: i32, interrupted: bool, o: Options)
    requires
        session::can_count(p.stats, status == 0),
    ensures
        ({
            let event = ProcEvent::Finished { status, interrupted };
            let q = session::proc_next(p, event, o).0;
            &&& q.stats.commands_run == p.stats.commands_run + 1
            &&& q.stats.commands_failed == p.stats.commands_failed + (if status == 0 {
                0int
            } else {
                1int
            })
        }),
{
}

/// A child that was started is one more, and the run goes on without waiting for it.
pub proof fn started_child_is_not_waited_for(p: Proc, pid: i32, o: Options)
    ensures
        session::proc_next(p, ProcEvent::Forked(pid), o).0.children == p.children.push(pid),
        session::proc_next(p, ProcEvent::Forked(pid), o).1 == (ProcAction::Done {
            proceed: true,
            stopped_by: None,
        }),
{
}

/// A yes is the letter y, small or capital, with nothing but white space around it,
/// and everything of that kind is one.
pub proof fn yes_is_a_single_letter(before: Seq<char>, letter: char, after: Seq<char>)
    requires
        forall|k: int| 0 <= k < before.len() ==> text::is_white_space(#[trigger] before[k]),
        forall|k: int| 0 <= k < after.len() ==> text::is_white_space(#[trigger] after[k]),
        !text::is_white_space(letter),
    ensures
        session::is_yes(before + seq![letter] + after) <==> letter == 'y' || letter == 'Y',
{
    reveal_strlit("y");
    reveal_strlit("Y");
    let s = before + seq![letter] + after;
    let n = before.len() as int;
    let r = text_laws::trimming_takes_only_white_space(s);
    assert(s[n] == letter);
    assert(r.0 <= n < r.1);
    if r.0 < n {
        assert(s[r.0] == before[r.0]);
    }
    if r.1 - 1 > n {
        assert(s[r.1 - 1] == after[r.1 - 2 - n]);
    }
    assert(s.subrange(n, n + 1) =~= seq![letter]);
    assert(seq![letter][0] == letter);
    assert("y"@ =~= seq!['y']);
    assert("Y"@ =~= seq!['Y']);
    assert(seq!['y'][0] == 'y');
    assert(seq!['Y'][0] == 'Y');
}

/// Where the answer is a yes, it holds just one letter that is no white space.
pub proof fn only_a_single_letter_is_a_yes(answer: Seq<char>) -> (at: int)
    requires
        session::is_yes(answer),
    ensures
        0 <= at < answer.len(),
        answer[at] == 'y' || answer[at] == 'Y',
        forall|k: int|
            0 <= k < answer.len() && k != at ==> text::is_white_space(#[trigger] answer[k]),
{
    reveal_strlit("y");
    reveal_strlit("Y");
    let r = text_laws::trimming_takes_only_white_space(answer);
    assert(answer.subrange(r.0, r.1).len() == 1);
    assert(answer.subrange(r.0, r.1)[0] == answer[r.0]);
    r.0
}

/// One command at a time: once it is settled that a command is to run, it is run and
/// waited for. Nothing is counted before it has ended.
pub proof fn settled_command_runs(p: Proc, answer: String, o: Options)
    requires
        !o.dry_run,
        o.jobs <= 1,
        session::is_yes(answer@),
    ensures
        ({
            let run = (
                Proc {
                    stats: p.stats,
                    stop_requested: p.stop_requested,
                    children: p.children,
                    state: ProcState::Running,
                },
                ProcAction::Run,
            );
            &&& session::proc_next(p, ProcEvent::Answer(answer), o) == run
            &&& !o.confirm ==> session::proc_next(p, ProcEvent::Start, o) == run
        }),
{
}

/// Several commands at a time: once it is settled that a command is to run, a child is
/// waited for where as many run as may; otherwise one more is started, unless there is
/// a reason to stop.
pub proof fn settled_command_gets_a_child(p: Proc, answer: String, o: Options)
    requires
        !o.dry_run,
        o.jobs > 1,
        session::is_yes(answer@),
    ensures
        ({
            let (q, action) = session::proc_next(p, ProcEvent::Answer(answer), o);
            &&& !o.confirm ==> session::proc_next(p, ProcEvent::Start, o) == (q, action)
            &&& q.stats == p.stats
            &&& q.children == p.children
            &&& q.stop_requested == p.stop_requested
            &&& p.children.len() >= o.jobs ==> action == ProcAction::Wait && q.state
                == ProcState::WaitingForSlot
            &&& p.children.len() < o.jobs && !p.stop_requested ==> action == ProcAction::Fork
                && q.state == ProcState::Forking
            &&& p.children.len() < o.jobs && p.stop_requested ==> action == (ProcAction::Done {
                proceed: false,
                stopped_by: None,
            }) && q.state == ProcState::Idle
        }),
{
}

/// A dry run counts the command as run and goes on, after a yes as without a question.
pub proof fn dry_run_goes_on(p: Proc, answer: String, o: Options)
    requires
        o.dry_run,
        session::is_yes(answer@),
        p.stats.commands_run < i32::MAX,
    ensures
        ({
            let (q, action) = session::proc_next(p, ProcEvent::Answer(answer), o);
            &&& !o.confirm ==> session::proc_next(p, ProcEvent::Start, o) == (q, action)
            &&& q.stats.commands_run == p.stats.commands_run + 1
            &&& q.stats.commands_failed == p.stats.commands_failed
            &&& q.stop_requested == p.stop_requested
            &&& q.state == ProcState::Idle
            &&& action == ProcAction::Done { proceed: true, stopped_by: None }
        }),
{
}

/// After a command has come back the run goes on, unless there was an interrupt, or the
/// command failed and that is a reason to stop; then its status is handed on.
pub proof fn ended_command_decides(p: Proc, status: i32, interrupted: bool, o: Options)
    ensures
        ({
            let (q, action) = session::proc_next(p, ProcEvent::Finished { status, interrupted }, o);
            let stops = !interrupted && status != 0 && o.stop_on_error;
            &&& interrupted ==> action == (ProcAction::Done { proceed: false, stopped_by: None })
            &&& stops ==> action == (ProcAction::Done {
                proceed: false,
                stopped_by: Some(status),
            })
            &&& !interrupted && !stops ==> action == (ProcAction::Done {
                proceed: true,
                stopped_by: None,
            })
            &&& q.stop_requested <==> p.stop_requested || stops
            &&& q.children == p.children
            &&& q.state == ProcState::Idle
        }),
{
}

/// A child that cannot be started is a failure, but no run; the run goes on unless that
/// is a reason to stop.
pub proof fn failed_start_is_a_failure(p: Proc, o: Options)
    requires
        p.stats.commands_failed < i32::MAX,
    ensures
        ({
            let (q, action) = session::proc_next(p, ProcEvent::ForkFailed, o);
            &&& q.stats.commands_failed == p.stats.commands_failed + 1
            &&& q.stats.commands_run == p.stats.commands_run
            &&& q.children == p.children
            &&& q.stop_requested <==> p.stop_requested || o.stop_on_error
            &&& q.state == ProcState::Idle
            &&& o.stop_on_error ==> action == (ProcAction::Done {
                proceed: false,
                stopped_by: None,
            })
            &&& !o.stop_on_error ==> action == (ProcAction::Done {
                proceed: true,
                stopped_by: None,
            })
        }),
{
}

/// A child that ended while there was no place for another is counted, failed or not,
/// and its place goes to the command at hand, unless its failure is a reason to stop.
pub proof fn ended_child_gives_its_place(p: Proc, pid: i32, success: bool, o: Options)
    requires
        p.children.contains(pid),
        p.children.len() <= o.jobs,
        p.stats.commands_run < i32::MAX,
        p.stats.commands_failed < i32::MAX,
    ensures
        ({
            let (q, action) = session::proc_next(
                p,
                ProcEvent::Waited(WaitResult::Child { pid, success }),
                o,
            );
            let stops = p.stop_requested || (!success && o.stop_on_error);
            &&& q.stats.commands_run == p.stats.commands_run + 1
            &&& success ==> q.stats.commands_failed == p.stats.commands_failed
            &&& !success ==> q.stats.commands_failed == p.stats.commands_failed + 1
            &&& !q.children.contains(pid)
            &&& q.stop_requested <==> stops
            &&& stops ==> action == (ProcAction::Done { proceed: false, stopped_by: None })
            &&& !stops ==> action == ProcAction::Fork
        }),
{
    without_removes_only(p.children, pid);
}

/// A wait that gave no ended child changes nothing. Where as many children run as may,
/// it is made again, or, where it failed, the command is given up.
pub proof fn wait_without_an_end_changes_nothing(p: Proc, o: Options)
    requires
        o.jobs > 1,
        p.children.len() >= o.jobs,
    ensures
        ({
            let (q, action) = session::proc_next(p, ProcEvent::Waited(WaitResult::Other), o);
            let (f, given_up) = session::proc_next(p, ProcEvent::Waited(WaitResult::Failed), o);
            &&& q.stats == p.stats && f.stats == p.stats
            &&& q.children == p.children && f.children == p.children
            &&& q.stop_requested == p.stop_requested && f.stop_requested == p.stop_requested
            &&& action == ProcAction::Wait
            &&& given_up == (ProcAction::Done { proceed: false, stopped_by: None })
            &&& f.state == ProcState::Idle
        }),
        session::after_wait(p, WaitResult::Other, o.stop_on_error) == p,
        session::after_wait(p, WaitResult::Failed, o.stop_on_error) == p,
{
}

/// The children that are left stand in the order in which they were started.
pub proof fn other_children_keep_their_order(a: Seq<i32>, b: Seq<i32>, pid: i32)
    ensures
        session::without(a + b, pid) == session::without(a, pid) + session::without(b, pid),
        session::without(seq![pid], pid).len() == 0,
        forall|q: i32| q != pid ==> #[trigger] session::without(seq![q], pid) == seq![q],
    decreases b.len(),
{
    assert(seq![pid].drop_last() =~= Seq::<i32>::empty());
    assert(session::without(seq![pid].drop_last(), pid).len() == 0);
    assert forall|q: i32| q != pid implies #[trigger] session::without(seq![q], pid)
        == seq![q] by {
        assert(seq![q].drop_last() =~= Seq::<i32>::empty());
        assert(session::without(seq![q].drop_last(), pid) =~= Seq::<i32>::empty());
        assert(Seq::<i32>::empty().push(q) =~= seq![q]);
    }
    if b.len() == 0 {
        assert(a + b =~= a);
        assert(session::without(a, pid) + b =~= session::without(a, pid));
    } else {
        other_children_keep_their_order(a, b.drop_last(), pid);
        assert((a + b).drop_last() =~= a + b.drop_last());
        assert((a + b).last() == b.last());
        let x = session::without(a, pid);
        let y = session::without(b.drop_last(), pid);
        assert((x + y).push(b.last()) =~= x + y.push(b.last()));
    }
}

/// Exactly a start without a question, and a yes, settle that the command is to run.
pub proof fn what_settles_a_command(event: ProcEvent, o: Options)
    ensures
        event is Start ==> (session::settles(event, o) <==> !o.confirm),
        event matches ProcEvent::Answer(answer) ==> (session::settles(event, o)
            <==> session::is_yes(answer@)),
        !(event is Start) && !(event is Answer) ==> !session::settles(event, o),
{
}

/// Each event has the state in which it can happen.
pub proof fn every_event_has_its_state(answer: String, w: WaitResult, pid: i32, status: i32)
    ensures
        session::fits(ProcState::Idle, ProcEvent::Start),
        session::fits(ProcState::Asking, ProcEvent::Answer(answer)),
        session::fits(ProcState::WaitingForSlot, ProcEvent::Waited(w)),
        session::fits(ProcState::Forking, ProcEvent::Forked(pid)),
        session::fits(ProcState::Forking, ProcEvent::ForkFailed),
        session::fits(ProcState::Running, ProcEvent::Finished { status, interrupted: true }),
        session::fits(ProcState::Running, ProcEvent::Finished { status, interrupted: false }),
{
}

/// There is room for every event while the counters are below their limit, and for a
/// failed command, or one of a dry run, exactly while those that it adds to are.
pub proof fn counters_have_room(p: Proc, event: ProcEvent, o: Options)
    ensures
        p.stats.commands_run < i32::MAX && p.stats.commands_failed < i32::MAX
            ==> session::has_room(p, event, o),
        event is ForkFailed ==> (session::has_room(p, event, o) <==> p.stats.commands_failed
            < i32::MAX),
        event matches ProcEvent::Finished { status, interrupted } ==> (session::has_room(
            p,
            event,
            o,
        ) <==> p.stats.commands_run < i32::MAX && (status == 0 || p.stats.commands_failed
            < i32::MAX)),
        event matches ProcEvent::Waited(WaitResult::Child { pid, success }) ==> (session::has_room(
            p,
            event,
            o,
        ) <==> p.stats.commands_run < i32::MAX && (success || p.stats.commands_failed < i32::MAX)),
        event == ProcEvent::Waited(WaitResult::Other) || event == ProcEvent::Waited(
            WaitResult::Failed,
        ) || event is Forked ==> session::has_room(p, event, o),
        event is Start || event is Answer ==> (session::has_room(p, event, o) <==> !o.dry_run
            || !session::settles(event, o) || p.stats.commands_run < i32::MAX),
{
}

/// A command is printed in verbose mode and in a dry run, once it is settled that it is
/// to run, and never else.
pub proof fn settled_command_is_printed(event: ProcEvent, o: Options)
    ensures
        session::settles(event, o) && o.verbose ==> session::echoes(event, o),
        session::settles(event, o) && o.dry_run ==> session::echoes(event, o),
        !o.verbose && !o.dry_run ==> !session::echoes(event, o),
        !session::settles(event, o) ==> !session::echoes(event, o),
{
}

/// A child that was told to end is gone, but neither counted nor a reason to stop.
pub proof fn terminated_child_is_not_counted(p: Proc, pid: i32, success: bool)
    ensures
        ({
            let q = session::after_termination(p, WaitResult::Child { pid, success });
            &&& q.stats == p.stats
            &&& q.stop_requested == p.stop_requested
            &&& q.state == p.state
            &&& !q.children.contains(pid)
            &&& forall|other: i32|
                other != pid ==> (#[trigger] q.children.contains(other) <==> p.children.contains(
                    other,
                ))
        }),
        session::after_termination(p, WaitResult::Other) == p,
        session::after_termination(p, WaitResult::Failed) == p,
{
    without_removes_only(p.children, pid);
}

/// Waiting goes on while there are children, and ends with the last of them or when a
/// wait fails.
pub proof fn waiting_ends_with_the_last_child(p: Proc, pid: i32, success: bool)
    ensures
        p.children.len() > 0 ==> session::waits_again(p, WaitResult::Child { pid, success })
            && session::waits_again(p, WaitResult::Other),
        p.children.len() == 0 ==> !session::waits_again(p, WaitResult::Child { pid, success })
            && !session::waits_again(p, WaitResult::Other),
        !session::waits_again(p, WaitResult::Failed),
{
}

} // verus!
