//! What a walk finds in a directory tree.
use vstd::prelude::*;

#[allow(unused_imports)]
use crate::filter::EntryMeta;
#[allow(unused_imports)]
use crate::options::Options;
use crate::text;
use crate::walk;
#[allow(unused_imports)]
use crate::walk::{Doing, Search, Seen, Trav, Trouble, WalkPhase};

verus! {

// ---------------------------------------------------------------------------
// Directory trees and what there is to find in them
// ---------------------------------------------------------------------------

/// A directory, with its entries in the order in which they come.
pub struct Dir {
    pub opens: bool,
    pub items: Seq<Item>,
}

/// An entry of a directory. What is below it counts only where it is a directory.
pub enum Item {
    Unreadable,
    Entry {
        name: Seq<char>,
        path: Seq<char>,
        own: Option<EntryMeta>,
        target: Option<EntryMeta>,
        below: Dir,
    },
}

/// The paths that are found, and the trouble that cut the search short.
#[verifier::ext_equal]
pub struct Found {
    pub paths: Seq<Seq<char>>,
    pub trouble: Option<Trouble>,
}

/// Nothing found, and no trouble.
pub open spec fn nothing() -> Found {
    Found { paths: Seq::empty(), trouble: None }
}

/// What is found one after the other; nothing comes after trouble.
pub open spec fn then_found(a: Found, b: Found) -> Found {
    if a.trouble is Some {
        a
    } else {
        Found { paths: a.paths + b.paths, trouble: b.trouble }
    }
}

/// The trouble with a wrong permission filter.
pub open spec fn permission_trouble(o: Options) -> Trouble {
    Trouble::Filter("invalid permission filter '"@ + o.perm_filter@ + "'"@)
}

/// What is found in a directory at `depth`.
pub open spec fn found_in(d: Dir, depth: int, s: Search, o: Options) -> Found
    decreases d, d.items.len() + 1,
{
    if walk::deepest(depth - 1, o) {
        nothing()
    } else if !d.opens {
        Found { paths: Seq::empty(), trouble: Some(Trouble::NotOpened) }
    } else {
        found_from(d, 0, depth, s, o)
    }
}

/// What is found in the entries of a directory from the one numbered `i` on: an
/// entry comes before what is below it, and that before the next entry.
pub open spec fn found_from(d: Dir, i: nat, depth: int, s: Search, o: Options) -> Found
    decreases d, d.items.len() - i,
{
    if i >= d.items.len() {
        nothing()
    } else {
        let rest = found_from(d, i + 1, depth, s, o);
        match d.items[i as int] {
            Item::Unreadable => rest,
            Item::Entry { name, path, own, target, below } => {
                let v = walk::verdict(s, o, path, own, target);
                if walk::left_out(s, o, name) {
                    rest
                } else if v.fault {
                    Found { paths: Seq::empty(), trouble: Some(permission_trouble(o)) }
                } else {
                    let itself = Found {
                        paths: if v.matches {
                            seq![path]
                        } else {
                            Seq::empty()
                        },
                        trouble: None,
                    };
                    let inside = if v.descends {
                        found_in(below, depth + 1, s, o)
                    } else {
                        nothing()
                    };
                    then_found(then_found(itself, inside), rest)
                }
            },
        }
    }
}

// ---------------------------------------------------------------------------
// Walking a tree
// ---------------------------------------------------------------------------

/// A walk under way in a tree.
pub struct Drive {
    pub trav: Trav,
    /// What the walk asks for.
    pub doing: Doing,
    /// The open directories, each with the number of its next entry.
    pub open_dirs: Seq<(Dir, nat)>,
    /// The entry at hand.
    pub at: Item,
    /// The paths for which a command was run.
    pub commands: Seq<Seq<char>>,
}

/// The directory at hand.
pub open spec fn dir_at(c: Drive) -> Dir {
    c.at->below
}

/// The walk takes in what happened.
pub open spec fn told(c: Drive, seen: Seen, halted: bool, s: Search, o: Options) -> Drive {
    let (trav, doing) = walk::walk_next(c.trav, seen, halted, s, o);
    Drive { trav, doing, ..c }
}

/// The walk gets what it asked for. `halted` says that there is a reason to stop;
/// commands then ask to go on no longer.
#[verifier::opaque]
pub open spec fn drive(c: Drive, halted: bool, s: Search, o: Options) -> Drive {
    match c.doing {
        Doing::OpenDir => {
            let d = dir_at(c);
            let opened = Drive {
                open_dirs: c.open_dirs.take(c.trav.depth).push((d, 0)),
                ..c
            };
            told(opened, Seen::Opened(d.opens), halted, s, o)
        },
        Doing::NextEntry(depth) => {
            let (d, i) = c.open_dirs[depth];
            if i < d.items.len() {
                let next = Drive {
                    open_dirs: c.open_dirs.take(depth).push((d, i + 1)),
                    at: d.items[i as int],
                    ..c
                };
                match d.items[i as int] {
                    Item::Unreadable => told(next, Seen::Unreadable, halted, s, o),
                    Item::Entry { name, .. } => told(next, Seen::Entry(name), halted, s, o),
                }
            } else {
                told(c, Seen::NoMore, halted, s, o)
            }
        },
        Doing::Examine => told(
            c,
            Seen::Examined { path: c.at->path, own: c.at->own, target: c.at->target },
            halted,
            s,
            o,
        ),
        Doing::Command(path) => told(
            Drive { commands: c.commands.push(path), ..c },
            Seen::Commanded(!halted),
            halted,
            s,
            o,
        ),
        _ => c,
    }
}

/// The walk after `n` steps.
pub open spec fn driven(c: Drive, n: nat, halted: bool, s: Search, o: Options) -> Drive
    decreases n,
{
    if n == 0 {
        c
    } else {
        driven(drive(c, halted, s, o), (n - 1) as nat, halted, s, o)
    }
}

/// A walk that begins in the directory `d`.
pub open spec fn begun(d: Dir, s: Search, o: Options) -> Drive {
    let c = Drive {
        trav: walk::unbegun(),
        doing: Doing::Finish,
        open_dirs: Seq::empty(),
        at: Item::Entry {
            name: Seq::empty(),
            path: Seq::empty(),
            own: None,
            target: None,
            below: d,
        },
        commands: Seq::empty(),
    };
    told(c, Seen::Start, false, s, o)
}

/// The paths that a walk has come up with: those for which a command was run, or
/// those that were collected.
pub open spec fn come_up(c: Drive, o: Options) -> Seq<Seq<char>> {
    if o.collect_all {
        c.trav.files
    } else {
        c.commands
    }
}

/// The walk is at its end, because of `trouble` or because it is through.
pub open spec fn ended(c: Drive, trouble: Option<Trouble>) -> bool {
    c.doing == match trouble {
        None => Doing::Finish,
        Some(t) => Doing::Fail(t),
    }
}

/// The walk asks the open directory at `depth` for its next entry.
spec fn asks(c: Drive, depth: int) -> bool {
    &&& c.trav.phase == WalkPhase::AwaitEntry
    &&& c.trav.depth == depth
    &&& c.doing == Doing::NextEntry(depth)
    &&& 0 <= depth < c.open_dirs.len()
}

/// The walk has left the directory at `depth`, for the one above or for good.
spec fn done_at(c: Drive, depth: int) -> bool {
    if depth > 0 {
        asks(c, depth - 1)
    } else {
        c.doing == Doing::Finish
    }
}

/// Steps add up.
proof fn lemma_driven_sum(c: Drive, n: nat, m: nat, halted: bool, s: Search, o: Options)
    ensures
        driven(driven(c, n, halted, s, o), m, halted, s, o) == driven(c, n + m, halted, s, o),
    decreases n,
{
    if n > 0 {
        lemma_driven_sum(drive(c, halted, s, o), (n - 1) as nat, m, halted, s, o);
    }
}

/// The step that asks for an entry and passes to the one numbered `i + 1`: the
/// state right after the entry was named.
proof fn lemma_named(c: Drive, d: Dir, i: nat, depth: int, s: Search, o: Options) -> (q: Drive)
    requires
        asks(c, depth),
        c.open_dirs[depth] == (d, i),
        i < d.items.len(),
    ensures
        q == drive(c, false, s, o),
        q.open_dirs == c.open_dirs.take(depth).push((d, i + 1)),
        q.open_dirs.take(depth) == c.open_dirs.take(depth),
        q.at == d.items[i as int],
        q.trav.depth == depth,
        come_up(q, o) == come_up(c, o),
        if d.items[i as int] is Unreadable || walk::left_out(s, o, d.items[i as int]->name) {
            asks(q, depth)
        } else {
            q.trav.phase == WalkPhase::AwaitMeta && q.doing == Doing::Examine
        },
{
    reveal(drive);
    let q = drive(c, false, s, o);
    assert(q.open_dirs.take(depth) =~= c.open_dirs.take(depth));
    q
}

/// The step that finds no more entries leaves the directory.
proof fn lemma_no_more(c: Drive, d: Dir, i: nat, depth: int, s: Search, o: Options) -> (q: Drive)
    requires
        asks(c, depth),
        c.open_dirs[depth] == (d, i),
        i >= d.items.len(),
    ensures
        q == drive(c, false, s, o),
        done_at(q, depth),
        q.open_dirs == c.open_dirs,
        come_up(q, o) == come_up(c, o),
{
    reveal(drive);
    drive(c, false, s, o)
}

/// From a named entry on that is not left out, up to the next entry of the same
/// directory or to trouble.
proof fn lemma_entry(c: Drive, depth: int, s: Search, o: Options) -> (n: nat)
    requires
        c.trav.phase == WalkPhase::AwaitMeta,
        c.doing == Doing::Examine,
        c.trav.depth == depth,
        depth >= 0,
        c.open_dirs.len() == depth + 1,
        c.at is Entry,
    ensures
        ({
            let q = driven(c, n, false, s, o);
            let v = walk::verdict(s, o, c.at->path, c.at->own, c.at->target);
            let itself: Seq<Seq<char>> = if v.matches {
                seq![c.at->path]
            } else {
                Seq::empty()
            };
            let inside = if v.descends {
                found_in(c.at->below, depth + 1, s, o)
            } else {
                nothing()
            };
            if v.fault {
                come_up(q, o) == come_up(c, o) && ended(q, Some(permission_trouble(o)))
            } else {
                &&& come_up(q, o) == come_up(c, o) + itself + inside.paths
                &&& inside.trouble is Some ==> ended(q, inside.trouble)
                &&& inside.trouble is None ==> {
                    &&& asks(q, depth)
                    &&& q.open_dirs.take(depth + 1) == c.open_dirs
                }
            }
        }),
    decreases c.at, 0nat,
{
    reveal(drive);
    reveal_with_fuel(driven, 3);
    let v = walk::verdict(s, o, c.at->path, c.at->own, c.at->target);
    let q1 = drive(c, false, s, o);
    if v.fault {
        1
    } else {
        let itself: Seq<Seq<char>> = if v.matches {
            seq![c.at->path]
        } else {
            Seq::empty()
        };
        let (k, q): (nat, Drive) = if v.matches && !o.collect_all {
            (2, drive(q1, false, s, o))
        } else {
            (1, q1)
        };
        assert(q == driven(c, k, false, s, o));
        assert(come_up(q, o) =~= come_up(c, o) + itself);
        assert(q.open_dirs =~= c.open_dirs);
        assert(c.open_dirs.take(depth + 1) =~= c.open_dirs);
        if v.descends && !walk::deepest(depth, o) {
            let m = lemma_dir(q, depth + 1, s, o);
            lemma_driven_sum(c, k, m, false, s, o);
            k + m
        } else {
            assert(come_up(q, o) + nothing().paths =~= come_up(q, o));
            k
        }
    }
}

/// From the opening of a directory on, up to the leaving of it or to trouble.
proof fn lemma_dir(c: Drive, depth: int, s: Search, o: Options) -> (n: nat)
    requires
        c.trav.phase == WalkPhase::AwaitOpen,
        c.doing == Doing::OpenDir,
        c.trav.depth == depth,
        0 <= depth <= c.open_dirs.len(),
        c.at is Entry,
        !walk::deepest(depth - 1, o),
    ensures
        ({
            let q = driven(c, n, false, s, o);
            let f = found_in(dir_at(c), depth, s, o);
            &&& come_up(q, o) == come_up(c, o) + f.paths
            &&& f.trouble is Some ==> ended(q, f.trouble)
            &&& f.trouble is None ==> {
                &&& done_at(q, depth)
                &&& q.open_dirs.len() >= depth
                &&& q.open_dirs.take(depth) == c.open_dirs.take(depth)
            }
        }),
    decreases dir_at(c), dir_at(c).items.len() + 2,
{
    reveal(drive);
    reveal_with_fuel(driven, 2);
    let d = dir_at(c);
    let q = drive(c, false, s, o);
    assert(q == driven(c, 1, false, s, o));
    if !d.opens {
        assert(come_up(c, o) + Seq::<Seq<char>>::empty() =~= come_up(c, o));
        1
    } else {
        assert(q.open_dirs.take(depth) =~= c.open_dirs.take(depth));
        let m = lemma_items(q, d, 0, depth, s, o);
        lemma_driven_sum(c, 1, m, false, s, o);
        1 + m
    }
}

/// From an entry of a directory on, up to the leaving of the directory or to
/// trouble.
proof fn lemma_items(c: Drive, d: Dir, i: nat, depth: int, s: Search, o: Options) -> (n: nat)
    requires
        asks(c, depth),
        c.open_dirs[depth] == (d, i),
        i <= d.items.len(),
    ensures
        ({
            let q = driven(c, n, false, s, o);
            let f = found_from(d, i, depth, s, o);
            &&& come_up(q, o) == come_up(c, o) + f.paths
            &&& f.trouble is Some ==> ended(q, f.trouble)
            &&& f.trouble is None ==> {
                &&& done_at(q, depth)
                &&& q.open_dirs.len() >= depth
                &&& q.open_dirs.take(depth) == c.open_dirs.take(depth)
            }
        }),
    decreases d, d.items.len() - i,
{
    reveal_with_fuel(driven, 2);
    assert(driven(c, 1, false, s, o) == drive(c, false, s, o));
    if i >= d.items.len() {
        let q = lemma_no_more(c, d, i, depth, s, o);
        assert(come_up(c, o) + nothing().paths =~= come_up(c, o));
        1
    } else {
        let q = lemma_named(c, d, i, depth, s, o);
        match d.items[i as int] {
            Item::Unreadable => {
                let m = lemma_items(q, d, i + 1, depth, s, o);
                lemma_driven_sum(c, 1, m, false, s, o);
                1 + m
            },
            Item::Entry { name, path, own, target, below } => {
                if walk::left_out(s, o, name) {
                    let m = lemma_items(q, d, i + 1, depth, s, o);
                    lemma_driven_sum(c, 1, m, false, s, o);
                    1 + m
                } else {
                    let m1 = lemma_entry(q, depth, s, o);
                    lemma_driven_sum(c, 1, m1, false, s, o);
                    let r = driven(q, m1, false, s, o);
                    let v = walk::verdict(s, o, path, own, target);
                    let itself: Seq<Seq<char>> = if v.matches {
                        seq![path]
                    } else {
                        Seq::empty()
                    };
                    let inside = if v.descends {
                        found_in(below, depth + 1, s, o)
                    } else {
                        nothing()
                    };
                    if v.fault {
                        assert(come_up(c, o) + Seq::<Seq<char>>::empty() =~= come_up(c, o));
                        1 + m1
                    } else if inside.trouble is Some {
                        assert(come_up(c, o) + itself + inside.paths =~= come_up(c, o) + (itself
                            + inside.paths));
                        1 + m1
                    } else {
                        assert(r.open_dirs.take(depth + 1) == q.open_dirs);
                        assert(r.open_dirs[depth] == r.open_dirs.take(depth + 1)[depth]);
                        assert(r.open_dirs.take(depth) =~= r.open_dirs.take(depth + 1).take(
                            depth,
                        ));
                        let m2 = lemma_items(r, d, i + 1, depth, s, o);
                        lemma_driven_sum(c, 1 + m1, m2, false, s, o);
                        let rest = found_from(d, i + 1, depth, s, o);
                        assert(come_up(c, o) + itself + inside.paths + rest.paths =~= come_up(c, o)
                            + (itself + inside.paths + rest.paths));
                        1 + m1 + m2
                    }
                }
            },
        }
    }
}

/// A walk that nothing stops ends, and comes up with exactly the paths that there
/// are to find, in order: each entry before what is below it, and that before the
/// next entry. If there is trouble, it comes up with the paths before it and ends
/// with it.
pub proof fn walk_finds_all_there_is(d: Dir, s: Search, o: Options) -> (n: nat)
    ensures
        come_up(driven(begun(d, s, o), n, false, s, o), o) == found_in(d, 0, s, o).paths,
        ended(driven(begun(d, s, o), n, false, s, o), found_in(d, 0, s, o).trouble),
{
    let c = begun(d, s, o);
    assert(!walk::deepest(-1, o));
    let n = lemma_dir(c, 0, s, o);
    assert(come_up(c, o) + found_in(d, 0, s, o).paths =~= found_in(d, 0, s, o).paths);
    n
}

/// The same options with or without collecting.
pub open spec fn collecting(o: Options, collect_all: bool) -> Options {
    Options { collect_all, ..o }
}

/// Whether one command is run for each match or one for all of them makes no
/// difference to what there is to find.
pub proof fn both_ways_find_the_same(d: Dir, depth: int, s: Search, o: Options, collect_all: bool)
    ensures
        found_in(d, depth, s, o) == found_in(d, depth, s, collecting(o, collect_all)),
    decreases d, d.items.len() + 1,
{
    if !walk::deepest(depth - 1, o) && d.opens {
        lemma_both_ways_from(d, 0, depth, s, o, collect_all);
    }
}

proof fn lemma_both_ways_from(
    d: Dir,
    i: nat,
    depth: int,
    s: Search,
    o: Options,
    collect_all: bool,
)
    ensures
        found_from(d, i, depth, s, o) == found_from(d, i, depth, s, collecting(o, collect_all)),
    decreases d, d.items.len() - i,
{
    if i < d.items.len() {
        lemma_both_ways_from(d, i + 1, depth, s, o, collect_all);
        match d.items[i as int] {
            Item::Entry { below, .. } => {
                both_ways_find_the_same(below, depth + 1, s, o, collect_all);
            },
            _ => {},
        }
    }
}

/// A step only adds to what a walk has come up with.
proof fn lemma_come_up_grows(c: Drive, n: nat, halted: bool, s: Search, o: Options)
    ensures
        come_up(c, o).is_prefix_of(come_up(driven(c, n, halted, s, o), o)),
    decreases n,
{
    reveal(drive);
    if n > 0 {
        lemma_come_up_grows(drive(c, halted, s, o), (n - 1) as nat, halted, s, o);
        assert(come_up(c, o).is_prefix_of(come_up(drive(c, halted, s, o), o)));
    }
}

/// A walk that is at its end stays there.
proof fn lemma_end_stays(c: Drive, n: nat, halted: bool, s: Search, o: Options)
    requires
        c.doing is Finish || c.doing is Fail,
    ensures
        driven(c, n, halted, s, o) == c,
    decreases n,
{
    reveal(drive);
    if n > 0 {
        lemma_end_stays(c, (n - 1) as nat, halted, s, o);
    }
}

/// At every moment a walk that nothing has stopped yet has come up with the first
/// of the paths that there are to find, and with no others.
pub proof fn walk_goes_in_order(d: Dir, n: nat, s: Search, o: Options)
    ensures
        come_up(driven(begun(d, s, o), n, false, s, o), o).is_prefix_of(
            found_in(d, 0, s, o).paths,
        ),
{
    let c = begun(d, s, o);
    let end = walk_finds_all_there_is(d, s, o);
    if n <= end {
        lemma_driven_sum(c, n, (end - n) as nat, false, s, o);
        lemma_come_up_grows(driven(c, n, false, s, o), (end - n) as nat, false, s, o);
    } else {
        lemma_driven_sum(c, end, (n - end) as nat, false, s, o);
        lemma_end_stays(driven(c, end, false, s, o), (n - end) as nat, false, s, o);
    }
}

/// What the walk asks for goes with its phase, and the directories above are open.
pub open spec fn coherent(c: Drive) -> bool {
    match c.trav.phase {
        WalkPhase::New => false,
        WalkPhase::AwaitOpen => c.doing is OpenDir && 0 <= c.trav.depth <= c.open_dirs.len(),
        WalkPhase::AwaitEntry => c.doing == Doing::NextEntry(c.trav.depth) && 0 <= c.trav.depth
            < c.open_dirs.len(),
        WalkPhase::AwaitMeta => c.doing is Examine && 0 <= c.trav.depth < c.open_dirs.len(),
        WalkPhase::AwaitCommand { .. } => c.doing is Command && 0 <= c.trav.depth
            < c.open_dirs.len(),
        WalkPhase::Finished => c.doing is Finish || c.doing is Fail,
    }
}

/// Every walk is coherent at its beginning and after each step.
pub proof fn walk_stays_coherent(d: Dir, c: Drive, halted: bool, s: Search, o: Options)
    requires
        coherent(c),
    ensures
        coherent(begun(d, s, o)),
        coherent(drive(c, halted, s, o)),
{
    reveal(drive);
}

/// Once there is a reason to stop, a walk that is about to ask for an entry ends
/// without another match and without a command.
pub proof fn stopped_walk_winds_up(c: Drive, s: Search, o: Options) -> (n: nat)
    requires
        coherent(c),
        c.trav.phase == WalkPhase::AwaitEntry,
    ensures
        ({
            let q = driven(c, n, true, s, o);
            &&& q.doing is Finish
            &&& q.commands == c.commands
            &&& q.trav.files == c.trav.files
        }),
    decreases c.trav.depth,
{
    reveal(drive);
    reveal_with_fuel(driven, 2);
    let q = drive(c, true, s, o);
    assert(q == driven(c, 1, true, s, o));
    if c.trav.depth > 0 {
        let m = stopped_walk_winds_up(q, s, o);
        lemma_driven_sum(c, 1, m, true, s, o);
        1 + m
    } else {
        1
    }
}

/// A command that asks to go on no longer is the last one of the whole walk, at
/// whatever depth it ran and whether or not there is another reason to stop: the
/// walk is at its end, and however long one goes on with it, no entry is found and
/// no command is run any more.
pub proof fn failing_command_is_the_last(
    c: Drive,
    halted: bool,
    n: nat,
    later: bool,
    s: Search,
    o: Options,
)
    requires
        c.trav.phase is AwaitCommand,
    ensures
        ({
            let ended = told(c, Seen::Commanded(false), halted, s, o);
            let q = driven(ended, n, later, s, o);
            &&& q.doing is Finish
            &&& q.trav.phase == WalkPhase::Finished
            &&& q.commands == c.commands
            &&& q.trav.files == c.trav.files
        }),
{
    lemma_end_stays(told(c, Seen::Commanded(false), halted, s, o), n, later, s, o);
}

/// With a limit on the depth, no directory below it is opened.
pub proof fn depth_stays_within_the_limit(
    t: Trav,
    seen: Seen,
    halted: bool,
    s: Search,
    o: Options,
)
    requires
        o.max_depth >= 0,
        t.depth <= o.max_depth,
    ensures
        walk::walk_next(t, seen, halted, s, o).0.depth <= o.max_depth,
{
}

/// With the limit zero, only the entries of the first directory are found: what
/// is below makes no difference.
pub proof fn limit_zero_looks_at_one_directory(s: Search, o: Options)
    requires
        o.max_depth == 0,
    ensures
        forall|sub: Dir| #[trigger] found_in(sub, 1, s, o) == nothing(),
{
}

/// An entry whose name starts with a dot is not even looked at, so a directory of
/// such a name is not gone into, unless hidden entries are asked for.
pub proof fn hidden_entries_are_passed_over(
    t: Trav,
    name: Seq<char>,
    halted: bool,
    s: Search,
    o: Options,
)
    requires
        !o.hidden,
        name.len() > 0,
        name[0] == '.',
        walk::wf(t),
        t.phase == WalkPhase::AwaitEntry,
    ensures
        walk::walk_next(t, Seen::Entry(name), halted, s, o).1 is NextEntry
            || walk::walk_next(t, Seen::Entry(name), halted, s, o).1 is Finish,
        walk::walk_next(t, Seen::Entry(name), halted, s, o).0.files == t.files,
        walk::walk_next(t, Seen::Entry(name), halted, s, o).0.depth <= t.depth,
{
}

/// No symbolic link is gone into, so no cycle of links can trap a walk.
pub proof fn links_are_not_followed(
    path: Seq<char>,
    own: EntryMeta,
    target: Option<EntryMeta>,
    s: Search,
    o: Options,
)
    requires
        own.is_symlink,
    ensures
        !walk::verdict(s, o, path, Some(own), target).descends,
{
}

/// Where only files are asked for, nothing but files matches; likewise for
/// directories and for symbolic links.
pub proof fn matches_are_of_the_type(
    path: Seq<char>,
    own: Option<EntryMeta>,
    target: Option<EntryMeta>,
    s: Search,
    o: Options,
)
    requires
        walk::verdict(s, o, path, own, target).matches,
    ensures
        walk::known(own, target, o) matches Some(m) && {
            &&& o.type_filter == 'f' ==> m.is_file
            &&& o.type_filter == 'd' ==> m.is_dir
            &&& o.type_filter == 'l' ==> own->0.is_symlink
            &&& walk::selected(s, path)
        },
{
}

/// The list of all matches holds each of them.
pub proof fn every_match_is_in_the_list(files: Seq<Seq<char>>, i: int)
    requires
        0 <= i < files.len(),
    ensures
        text::occurs_in(walk::joined(files), files[i]),
    decreases files.len(),
{
    let all = walk::joined(files);
    let n = files[i].len() as int;
    if files.len() == 1 {
        assert(all.subrange(0, n) =~= files[i]);
        assert(text::occurs_at(all, files[i], 0));
    } else {
        let front = walk::joined(files.drop_last());
        if i == files.len() - 1 {
            let start = all.len() - n;
            assert(all.subrange(start, start + n) =~= files[i]);
            assert(text::occurs_at(all, files[i], start));
        } else {
            every_match_is_in_the_list(files.drop_last(), i);
            assert(files.drop_last()[i] == files[i]);
            let k = choose|k: int| text::occurs_at(front, files[i], k);
            assert(all.subrange(k, k + n) =~= front.subrange(k, k + n));
            assert(text::occurs_at(all, files[i], k));
        }
    }
}

/// One more match comes at the end of the list, after a space.
pub proof fn list_grows_at_its_end(files: Seq<Seq<char>>, more: Seq<char>)
    requires
        files.len() > 0,
    ensures
        walk::joined(files.push(more)) == walk::joined(files) + " "@ + more,
        walk::joined(seq![more]) == more,
{
    assert(files.push(more).drop_last() =~= files);
}

} // verus!
