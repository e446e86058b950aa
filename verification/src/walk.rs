//! Going through a directory tree and finding the entries that match.
//!
//! [`Walk::step`] decides what to do next; whoever calls it reads directories,
//! looks at entries and runs commands, and reports back. The same walk serves
//! both ways to use the matches: one command for each, or one for all of them.
use vstd::prelude::*;

use crate::expr;
use crate::expr::{entry_matches_path, ExprNode};
use crate::filter;
use crate::filter::{matches_filters, EntryMeta, FilterError};
use crate::options::Options;
use crate::pattern;
use crate::pattern::Pattern;
#[allow(unused_imports)]
use crate::session::Proc;
#[allow(unused_imports)]
use crate::session::Stats;
use crate::session::Session;
use crate::text::{chars_of, join2, join3};

verus! {

/// What to look for.
pub struct Search {
    /// The pattern that a path has to match, unless there is an expression.
    pub regex: Pattern,
    /// The pattern of names to leave out.
    pub exclude: Option<Pattern>,
    /// The expression that has to accept a path.
    pub expr: Option<Box<ExprNode>>,
}

/// The pattern or the expression selects the path.
pub open spec fn selected(s: Search, path: Seq<char>) -> bool {
    match s.expr {
        Some(root) => expr::node_accepts(*root, path),
        None => pattern::source_is_match(s.regex@, path),
    }
}

/// An entry of this name is left out: it is hidden, or its name is excluded.
pub open spec fn left_out(s: Search, o: Options, name: Seq<char>) -> bool {
    ||| !o.hidden && name.len() > 0 && name[0] == '.'
    ||| (s.exclude matches Some(p) && pattern::source_is_match(p@, name))
}

/// What is to become of an entry.
#[derive(Debug, Clone, Copy, PartialEq, Eq, Structural)]
pub struct Verdict {
    /// The entry matches.
    pub matches: bool,
    /// The entry is a directory to go into.
    pub descends: bool,
    /// The permission filter had to be looked at, and is wrong.
    pub fault: bool,
}

/// The verdict on an entry that is tested with `m`.
pub open spec fn tested(
    s: Search,
    o: Options,
    path: Seq<char>,
    m: EntryMeta,
    descends: bool,
) -> Verdict {
    Verdict {
        matches: selected(s, path) && filter::passes(m, o),
        descends,
        fault: selected(s, path) && filter::permission_fault(m, o),
    }
}

/// What is known of an entry: of the target of a symbolic link, unless links
/// themselves are asked for.
pub open spec fn known(own: Option<EntryMeta>, target: Option<EntryMeta>, o: Options) -> Option<
    EntryMeta,
> {
    if own matches Some(m) && m.is_symlink && o.type_filter != 'l' {
        target
    } else {
        own
    }
}

/// The verdict on an entry. A directory is gone into, and tested only where
/// directories are asked for; files are tested, and so are symbolic links where
/// they, or all types, are asked for. Nothing becomes of an entry of which
/// nothing is known.
pub open spec fn verdict(
    s: Search,
    o: Options,
    path: Seq<char>,
    own: Option<EntryMeta>,
    target: Option<EntryMeta>,
) -> Verdict {
    let nothing = Verdict { matches: false, descends: false, fault: false };
    match (own, known(own, target, o)) {
        (Some(e), Some(m)) => if m.is_dir && !e.is_symlink {
            if o.type_filter == 'd' {
                tested(s, o, path, m, true)
            } else {
                Verdict { matches: false, descends: true, fault: false }
            }
        } else if m.is_file || (e.is_symlink && (o.type_filter == 'l' || o.type_filter == '\0')) {
            tested(s, o, path, m, false)
        } else {
            nothing
        },
        _ => nothing,
    }
}

/// Where a walk stands.
#[derive(Debug, Clone, Copy, PartialEq, Eq, Structural)]
pub enum WalkPhase {
    New,
    /// A directory is being opened.
    AwaitOpen,
    /// An entry has been asked for.
    AwaitEntry,
    /// An entry is being looked at.
    AwaitMeta,
    /// A command runs for an entry; whether the entry is to be gone into after it.
    AwaitCommand { descends: bool },
    Finished,
}

/// What happened.
pub enum WalkEvent {
    /// The walk begins.
    Start,
    /// Whether the directory could be opened.
    Opened(bool),
    /// There is an entry of this name.
    Entry(String),
    /// There is an entry that cannot be read.
    Unreadable,
    /// There are no more entries in the directory.
    NoMore,
    /// What is known of the entry, and of its target where it is a symbolic link.
    Examined { path: String, own: Option<EntryMeta>, target: Option<EntryMeta> },
    /// The command is done with; whether to go on or to end the walk.
    Commanded(bool),
}

/// Why a walk breaks off.
#[derive(Debug)]
pub enum WalkError {
    /// A directory cannot be opened.
    NotOpened,
    Filter(FilterError),
}

/// What to do next.
#[derive(Debug)]
pub enum WalkAction {
    /// Open the directory at hand: the first one, or the entry last named.
    OpenDir,
    /// Ask the directory at this depth for its next entry; those below are done with.
    NextEntry(i32),
    /// Look at the entry.
    Examine,
    /// Run the command for the entry of this path.
    Command(String),
    /// Nothing more.
    Finish,
    /// Nothing more, because of an error.
    Fail(WalkError),
}

/// A walk.
pub struct Walk {
    pub phase: WalkPhase,
    /// The depth of the directory at hand, minus one before the first.
    pub depth: i32,
    /// The matches so far, where one command is to have all of them.
    pub files: Vec<String>,
}

/// A walk as a mathematical value.
#[verifier::ext_equal]
pub struct Trav {
    pub phase: WalkPhase,
    pub depth: int,
    pub files: Seq<Seq<char>>,
}

impl View for Walk {
    type V = Trav;

    open spec fn view(&self) -> Trav {
        Trav {
            phase: self.phase,
            depth: self.depth as int,
            files: self.files@.map_values(|f: String| f@),
        }
    }
}

/// What happened, as a mathematical value.
pub enum Seen {
    Start,
    Opened(bool),
    Entry(Seq<char>),
    Unreadable,
    NoMore,
    Examined { path: Seq<char>, own: Option<EntryMeta>, target: Option<EntryMeta> },
    Commanded(bool),
}

impl View for WalkEvent {
    type V = Seen;

    open spec fn view(&self) -> Seen {
        match self {
            WalkEvent::Start => Seen::Start,
            WalkEvent::Opened(ok) => Seen::Opened(*ok),
            WalkEvent::Entry(name) => Seen::Entry(name@),
            WalkEvent::Unreadable => Seen::Unreadable,
            WalkEvent::NoMore => Seen::NoMore,
            WalkEvent::Examined { path, own, target } => Seen::Examined {
                path: path@,
                own: *own,
                target: *target,
            },
            WalkEvent::Commanded(proceed) => Seen::Commanded(*proceed),
        }
    }
}

/// Why a walk breaks off, as a mathematical value.
pub enum Trouble {
    NotOpened,
    Filter(Seq<char>),
}

impl View for WalkError {
    type V = Trouble;

    open spec fn view(&self) -> Trouble {
        match self {
            WalkError::NotOpened => Trouble::NotOpened,
            WalkError::Filter(e) => Trouble::Filter(e.spec_message()),
        }
    }
}

/// What to do next, as a mathematical value.
pub enum Doing {
    OpenDir,
    NextEntry(int),
    Examine,
    Command(Seq<char>),
    Finish,
    Fail(Trouble),
}

impl View for WalkAction {
    type V = Doing;

    open spec fn view(&self) -> Doing {
        match self {
            WalkAction::OpenDir => Doing::OpenDir,
            WalkAction::NextEntry(depth) => Doing::NextEntry(*depth as int),
            WalkAction::Examine => Doing::Examine,
            WalkAction::Command(path) => Doing::Command(path@),
            WalkAction::Finish => Doing::Finish,
            WalkAction::Fail(e) => Doing::Fail(e@),
        }
    }
}

/// A walk that has not begun.
pub open spec fn unbegun() -> Trav {
    Trav { phase: WalkPhase::New, depth: -1, files: Seq::empty() }
}

/// A walk that goes on with the directory at `t.depth`, if there is one.
pub open spec fn resumed(t: Trav) -> (Trav, Doing) {
    if t.depth >= 0 {
        (Trav { phase: WalkPhase::AwaitEntry, ..t }, Doing::NextEntry(t.depth))
    } else {
        (Trav { phase: WalkPhase::Finished, ..t }, Doing::Finish)
    }
}

/// A walk that leaves the directory at hand.
pub open spec fn left(t: Trav) -> (Trav, Doing) {
    resumed(Trav { depth: t.depth - 1, ..t })
}

/// The limit on the depth forbids to go below `depth`.
pub open spec fn deepest(depth: int, o: Options) -> bool {
    o.max_depth >= 0 && depth + 1 > o.max_depth
}

/// A walk that goes into a directory below the one at hand, unless that is too
/// deep or there is a reason to stop.
pub open spec fn entered(t: Trav, halted: bool, o: Options) -> (Trav, Doing) {
    if deepest(t.depth, o) || halted {
        resumed(t)
    } else {
        (Trav { phase: WalkPhase::AwaitOpen, depth: t.depth + 1, ..t }, Doing::OpenDir)
    }
}

/// A walk that breaks off.
pub open spec fn failed(t: Trav, trouble: Trouble) -> (Trav, Doing) {
    (Trav { phase: WalkPhase::Finished, ..t }, Doing::Fail(trouble))
}

/// A walk that is done with an entry, which may be a directory to go into.
pub open spec fn passed(t: Trav, descends: bool, halted: bool, o: Options) -> (Trav, Doing) {
    if descends {
        entered(t, halted, o)
    } else {
        resumed(t)
    }
}

/// What follows the look at an entry.
pub open spec fn judged(t: Trav, path: Seq<char>, v: Verdict, halted: bool, o: Options) -> (
    Trav,
    Doing,
) {
    if v.fault {
        failed(t, Trouble::Filter("invalid permission filter '"@ + o.perm_filter@ + "'"@))
    } else if v.matches && !o.collect_all {
        (
            Trav { phase: WalkPhase::AwaitCommand { descends: v.descends }, ..t },
            Doing::Command(path),
        )
    } else if v.matches {
        passed(Trav { files: t.files.push(path), ..t }, v.descends, halted, o)
    } else {
        passed(t, v.descends, halted, o)
    }
}

/// What follows an event; `halted` says that there is a reason to stop.
pub open spec fn walk_next(t: Trav, seen: Seen, halted: bool, s: Search, o: Options) -> (
    Trav,
    Doing,
) {
    match seen {
        Seen::Start => entered(t, halted, o),
        Seen::Opened(ok) => if ok {
            resumed(t)
        } else {
            failed(t, Trouble::NotOpened)
        },
        Seen::Entry(name) => if halted {
            left(t)
        } else if left_out(s, o, name) {
            resumed(t)
        } else {
            (Trav { phase: WalkPhase::AwaitMeta, ..t }, Doing::Examine)
        },
        Seen::Unreadable => if halted {
            left(t)
        } else {
            resumed(t)
        },
        Seen::NoMore => left(t),
        Seen::Examined { path, own, target } => judged(
            t,
            path,
            verdict(s, o, path, own, target),
            halted,
            o,
        ),
        Seen::Commanded(proceed) => if proceed {
            passed(t, t.phase == WalkPhase::AwaitCommand { descends: true }, halted, o)
        } else {
            (Trav { phase: WalkPhase::Finished, ..t }, Doing::Finish)
        },
    }
}

/// The event brings a match.
pub open spec fn brings_match(seen: Seen, s: Search, o: Options) -> bool {
    seen matches Seen::Examined { path, own, target } && {
        let v = verdict(s, o, path, own, target);
        v.matches && !v.fault
    }
}

/// The event can happen in this phase.
pub open spec fn fits(phase: WalkPhase, seen: Seen) -> bool {
    match seen {
        Seen::Start => phase == WalkPhase::New,
        Seen::Opened(_) => phase == WalkPhase::AwaitOpen,
        Seen::Entry(_) => phase == WalkPhase::AwaitEntry,
        Seen::Unreadable => phase == WalkPhase::AwaitEntry,
        Seen::NoMore => phase == WalkPhase::AwaitEntry,
        Seen::Examined { .. } => phase == WalkPhase::AwaitMeta,
        Seen::Commanded(_) => phase is AwaitCommand,
    }
}

/// A walk is in a directory, except before the first and at its end.
pub open spec fn wf(t: Trav) -> bool {
    if t.phase == WalkPhase::New {
        t.depth == -1
    } else {
        t.depth >= -1 && (t.phase != WalkPhase::Finished ==> t.depth >= 0)
    }
}

/// The event leads into a directory, or would if it were not too deep.
pub open spec fn leads_down(t: Trav, seen: Seen, s: Search, o: Options) -> bool {
    match seen {
        Seen::Examined { path, own, target } => {
            let v = verdict(s, o, path, own, target);
            v.descends && !v.fault && !(v.matches && !o.collect_all)
        },
        Seen::Commanded(proceed) => proceed && t.phase == WalkPhase::AwaitCommand {
            descends: true,
        },
        _ => false,
    }
}

/// The counters can take what the event brings: one more match, one level more.
pub open spec fn has_room(t: Trav, stats: Stats, seen: Seen, s: Search, o: Options) -> bool {
    &&& brings_match(seen, s, o) ==> stats.files_matched < i32::MAX
    &&& leads_down(t, seen, s, o) ==> t.depth < i32::MAX
}

/// The running of commands after an event: a match is counted.
pub open spec fn with_match(p: Proc, matched: bool) -> Proc {
    if matched {
        Proc {
            stats: Stats { files_matched: (p.stats.files_matched + 1) as i32, ..p.stats },
            ..p
        }
    } else {
        p
    }
}

/// Whether an entry of this name is left out.
fn leaves_out(search: &Search, opts: &Options, name: &str) -> (b: bool)
    ensures
        b == left_out(*search, *opts, name@),
{
    if !opts.hidden {
        let v: Vec<char> = chars_of(name);
        if v.len() > 0 && v[0] == '.' {
            return true;
        }
    }
    match &search.exclude {
        Some(p) => p.is_match(name),
        None => false,
    }
}

/// Tests an entry against the search and the filters.
fn test_entry(search: &Search, opts: &Options, path: &str, m: &EntryMeta, descends: bool) -> (v:
    Verdict)
    ensures
        v == tested(*search, *opts, path@, *m, descends),
{
    let root: Option<&ExprNode> = match &search.expr {
        Some(node) => Some(&**node),
        None => None,
    };
    if !entry_matches_path(path, &search.regex, root) {
        return Verdict { matches: false, descends, fault: false };
    }
    match matches_filters(m, opts) {
        Ok(matches) => Verdict { matches, descends, fault: false },
        Err(_) => Verdict { matches: false, descends, fault: true },
    }
}

/// The verdict on an entry.
pub fn judge(
    search: &Search,
    opts: &Options,
    path: &str,
    own: &Option<EntryMeta>,
    target: &Option<EntryMeta>,
) -> (v: Verdict)
    ensures
        v == verdict(*search, *opts, path@, *own, *target),
{
    let nothing: Verdict = Verdict { matches: false, descends: false, fault: false };
    let e: &EntryMeta = match own {
        Some(e) => e,
        None => {
            return nothing;
        },
    };
    let m: &EntryMeta = if e.is_symlink && opts.type_filter != 'l' {
        match target {
            Some(m) => m,
            None => {
                return nothing;
            },
        }
    } else {
        e
    };
    if m.is_dir && !e.is_symlink {
        if opts.type_filter == 'd' {
            test_entry(search, opts, path, m, true)
        } else {
            Verdict { matches: false, descends: true, fault: false }
        }
    } else if m.is_file || (e.is_symlink && (opts.type_filter == 'l' || opts.type_filter == '\0')) {
        test_entry(search, opts, path, m, false)
    } else {
        nothing
    }
}

impl Walk {
    /// A walk that has not begun.
    pub fn new() -> (w: Self)
        ensures
            w@ == unbegun(),
            wf(w@),
    {
        let w: Walk = Walk { phase: WalkPhase::New, depth: -1, files: Vec::new() };
        assert(w@.files =~= Seq::<Seq<char>>::empty());
        w
    }

    /// Goes on with the directory at hand, if there is one.
    fn resume(&mut self) -> (a: WalkAction)
        ensures
            (final(self)@, a@) == resumed(old(self)@),
    {
        if self.depth >= 0 {
            self.phase = WalkPhase::AwaitEntry;
            WalkAction::NextEntry(self.depth)
        } else {
            self.phase = WalkPhase::Finished;
            WalkAction::Finish
        }
    }

    /// Leaves the directory at hand.
    fn leave(&mut self) -> (a: WalkAction)
        requires
            old(self)@.depth >= 0,
        ensures
            (final(self)@, a@) == left(old(self)@),
    {
        self.depth = self.depth - 1;
        self.resume()
    }

    /// Goes into a directory below the one at hand, unless that is too deep or
    /// there is a reason to stop.
    fn enter(&mut self, halted: bool, opts: &Options) -> (a: WalkAction)
        requires
            old(self)@.depth < i32::MAX,
        ensures
            (final(self)@, a@) == entered(old(self)@, halted, *opts),
    {
        if (opts.max_depth >= 0 && self.depth + 1 > opts.max_depth) || halted {
            return self.resume();
        }
        self.phase = WalkPhase::AwaitOpen;
        self.depth = self.depth + 1;
        WalkAction::OpenDir
    }

    /// Goes into the entry at hand, or past it.
    fn pass(&mut self, descends: bool, halted: bool, opts: &Options) -> (a: WalkAction)
        requires
            descends ==> old(self)@.depth < i32::MAX,
        ensures
            (final(self)@, a@) == passed(old(self)@, descends, halted, *opts),
    {
        if descends {
            self.enter(halted, opts)
        } else {
            self.resume()
        }
    }

    /// Deals with an entry that has been looked at.
    fn take(
        &mut self,
        session: &mut Session,
        path: String,
        v: Verdict,
        halted: bool,
        opts: &Options,
    ) -> (a: WalkAction)
        requires
            !v.fault && v.matches ==> old(session)@.stats.files_matched < i32::MAX,
            !v.fault && v.descends && !(v.matches && !opts.collect_all) ==> old(self)@.depth
                < i32::MAX,
        ensures
            (final(self)@, a@) == judged(old(self)@, path@, v, halted, *opts),
            final(session)@ == with_match(old(session)@, v.matches && !v.fault),
    {
        if v.fault {
            self.phase = WalkPhase::Finished;
            return WalkAction::Fail(
                WalkError::Filter(
                    FilterError::InvalidPermission { text: opts.perm_filter.clone() },
                ),
            );
        }
        if v.matches {
            session.stats.files_matched = session.stats.files_matched + 1;
            if !opts.collect_all {
                self.phase = WalkPhase::AwaitCommand { descends: v.descends };
                return WalkAction::Command(path);
            }
            self.files.push(path);
            assert(self@.files =~= old(self)@.files.push(path@));
        }
        self.pass(v.descends, halted, opts)
    }

    /// Takes in what happened and says what to do next. There is a reason to stop
    /// where a command failed and that is one, or where there was an interrupt.
    pub fn step(
        &mut self,
        session: &mut Session,
        event: WalkEvent,
        interrupted: bool,
        search: &Search,
        opts: &Options,
    ) -> (a: WalkAction)
        requires
            wf(old(self)@),
            fits(old(self)@.phase, event@),
            has_room(old(self)@, old(session)@.stats, event@, *search, *opts),
        ensures
            wf(final(self)@),
            (final(self)@, a@) == walk_next(
                old(self)@,
                event@,
                old(session)@.stop_requested || interrupted,
                *search,
                *opts,
            ),
            final(session)@ == with_match(old(session)@, brings_match(event@, *search, *opts)),
    {
        let halted: bool = session.stop_requested || interrupted;
        match event {
            WalkEvent::Start => self.enter(halted, opts),
            WalkEvent::Opened(ok) => {
                if ok {
                    return self.resume();
                }
                self.phase = WalkPhase::Finished;
                WalkAction::Fail(WalkError::NotOpened)
            },
            WalkEvent::Entry(name) => {
                if halted {
                    return self.leave();
                }
                if leaves_out(search, opts, name.as_str()) {
                    return self.resume();
                }
                self.phase = WalkPhase::AwaitMeta;
                WalkAction::Examine
            },
            WalkEvent::Unreadable => {
                if halted {
                    return self.leave();
                }
                self.resume()
            },
            WalkEvent::NoMore => self.leave(),
            WalkEvent::Examined { path, own, target } => {
                let v: Verdict = judge(search, opts, path.as_str(), &own, &target);
                self.take(session, path, v, halted, opts)
            },
            WalkEvent::Commanded(proceed) => {
                if !proceed {
                    self.phase = WalkPhase::Finished;
                    return WalkAction::Finish;
                }
                let descends: bool = match self.phase {
                    WalkPhase::AwaitCommand { descends } => descends,
                    _ => false,
                };
                self.pass(descends, halted, opts)
            },
        }
    }

    /// Whether the counters can take what an event brings.
    pub fn has_room_for(
        &self,
        session: &Session,
        event: &WalkEvent,
        search: &Search,
        opts: &Options,
    ) -> (b: bool)
        ensures
            b == has_room(self@, session@.stats, event@, *search, *opts),
    {
        if session.stats.files_matched < i32::MAX && self.depth < i32::MAX {
            return true;
        }
        match event {
            WalkEvent::Examined { path, own, target } => {
                let v: Verdict = judge(search, opts, path.as_str(), own, target);
                let runs: bool = v.matches && !opts.collect_all;
                v.fault || ((!v.matches || session.stats.files_matched < i32::MAX) && (!v.descends
                    || runs || self.depth < i32::MAX))
            },
            WalkEvent::Commanded(proceed) => {
                let descends: bool = match self.phase {
                    WalkPhase::AwaitCommand { descends } => descends,
                    _ => false,
                };
                !*proceed || !descends || self.depth < i32::MAX
            },
            _ => true,
        }
    }
}

/// The message for a directory that cannot be opened.
pub open spec fn not_opened_message(path: Seq<char>, reason: Seq<char>) -> Seq<char> {
    "could not open directory: "@ + path + ": "@ + reason
}

/// The message for a directory that cannot be opened.
pub fn not_opened_text(path: &str, reason: &str) -> (r: String)
    ensures
        r@ == not_opened_message(path@, reason@),
{
    let start: String = join3("could not open directory: ", path, ": ");
    join2(start.as_str(), reason)
}

/// The list of matches as one text, with a space between each two.
pub open spec fn joined(files: Seq<Seq<char>>) -> Seq<char>
    decreases files.len(),
{
    if files.len() == 0 {
        Seq::empty()
    } else if files.len() == 1 {
        files[0]
    } else {
        joined(files.drop_last()) + " "@ + files.last()
    }
}

/// Joins the matches, with a space between each two.
pub fn join_files(files: &Vec<String>) -> (r: String)
    ensures
        r@ == joined(files@.map_values(|f: String| f@)),
{
    let ghost all = files@.map_values(|f: String| f@);
    let mut r: String = "".to_owned();
    let mut i: usize = 0;
    proof {
        reveal_strlit("");
        assert(all.take(0) =~= Seq::<Seq<char>>::empty());
        assert(r@ =~= Seq::<char>::empty());
    }
    while i < files.len()
        invariant
            i <= files@.len(),
            all == files@.map_values(|f: String| f@),
            r@ == joined(all.take(i as int)),
        decreases files@.len() - i,
    {
        assert(all.take(i + 1).drop_last() =~= all.take(i as int));
        assert(all.take(i + 1).last() == files@[i as int]@);
        if i > 0 {
            r.append(" ");
        }
        r.append(files[i].as_str());
        proof {
            if i == 0 {
                assert(r@ =~= files@[0]@);
            }
        }
        i += 1;
    }
    assert(all.take(i as int) =~= all);
    r
}

} // verus!
