//! What there is to find in a directory tree, entry by entry.
use vstd::prelude::*;

use crate::expr;
use crate::filter;
#[allow(unused_imports)]
use crate::filter::EntryMeta;
#[allow(unused_imports)]
use crate::options::Options;
use crate::pattern;
use crate::walk;
#[allow(unused_imports)]
use crate::walk::{Doing, Search, Seen, Trav, Trouble, WalkPhase};
use crate::walk_laws;
#[allow(unused_imports)]
use crate::walk_laws::{Dir, Found, Item};

verus! {

// ---------------------------------------------------------------------------
// Single entries
// ---------------------------------------------------------------------------

/// With an expression a path is selected exactly when the expression accepts it,
/// whatever the pattern; without one exactly when the pattern matches it.
pub proof fn expression_comes_before_the_pattern(s: Search, path: Seq<char>)
    ensures
        s.expr matches Some(root) ==> walk::selected(s, path) == expr::node_accepts(*root, path),
        s.expr is None ==> walk::selected(s, path) == pattern::source_is_match(s.regex@, path),
{
}

/// An entry is left out exactly when its name starts with a dot and hidden entries
/// were not asked for, or when its name matches the exclude pattern.
pub proof fn hidden_and_excluded_are_left_out(s: Search, o: Options, name: Seq<char>)
    ensures
        !o.hidden && name.len() > 0 && name[0] == '.' ==> walk::left_out(s, o, name),
        s.exclude matches Some(p) && pattern::source_is_match(p@, name) ==> walk::left_out(
            s,
            o,
            name,
        ),
        walk::left_out(s, o, name) ==> (!o.hidden && name.len() > 0 && name[0] == '.') || (
        s.exclude is Some
            && pattern::source_is_match(s.exclude->0@, name)),
{
}

/// Every real directory is gone into, whether or not its own path is selected and
/// whatever the filters say; it matches exactly where directories are asked for, its
/// path is selected and it passes the filters.
pub proof fn directories_are_gone_into(
    s: Search,
    o: Options,
    path: Seq<char>,
    own: EntryMeta,
    target: Option<EntryMeta>,
)
    requires
        own.is_dir,
        !own.is_symlink,
    ensures
        walk::verdict(s, o, path, Some(own), target).descends,
        walk::verdict(s, o, path, Some(own), target).matches <==> o.type_filter == 'd'
            && walk::selected(s, path) && filter::passes(own, o),
        walk::verdict(s, o, path, Some(own), target).fault <==> o.type_filter == 'd'
            && walk::selected(s, path) && filter::permission_fault(own, o),
{
}

/// Nothing but a real directory is gone into.
pub proof fn only_directories_are_gone_into(
    s: Search,
    o: Options,
    path: Seq<char>,
    own: Option<EntryMeta>,
    target: Option<EntryMeta>,
)
    requires
        walk::verdict(s, o, path, own, target).descends,
    ensures
        own is Some && own->0.is_dir && !own->0.is_symlink,
{
}

/// A file matches exactly when its path is selected and it passes the filters,
/// whatever a link might lead to.
pub proof fn files_match_by_path_and_filters(
    s: Search,
    o: Options,
    path: Seq<char>,
    own: EntryMeta,
    target: Option<EntryMeta>,
)
    requires
        own.is_file,
        !own.is_dir,
        !own.is_symlink,
    ensures
        walk::verdict(s, o, path, Some(own), target).matches <==> walk::selected(s, path)
            && filter::passes(own, o),
        walk::verdict(s, o, path, Some(own), target).fault <==> walk::selected(s, path)
            && filter::permission_fault(own, o),
{
}

/// Where links are asked for, a link is tested itself. Where they are not, what it
/// leads to is tested: a file under any type that was asked for, and anything else
/// only where no type was. A link that leads nowhere matches only where links are
/// asked for.
pub proof fn links_match_by_themselves_or_their_target(
    s: Search,
    o: Options,
    path: Seq<char>,
    own: EntryMeta,
    target: Option<EntryMeta>,
)
    requires
        own.is_symlink,
    ensures
        ({
            let v = walk::verdict(s, o, path, Some(own), target);
            &&& !v.descends
            &&& o.type_filter == 'l' ==> (v.matches <==> walk::selected(s, path) && filter::passes(
                own,
                o,
            )) && (v.fault <==> walk::selected(s, path) && filter::permission_fault(own, o))
            &&& o.type_filter != 'l' && target is None ==> !v.matches && !v.fault
            &&& o.type_filter != 'l' && target is Some && (target->0.is_file || o.type_filter
                == '\0') ==> (v.matches <==> walk::selected(s, path) && filter::passes(
                target->0,
                o,
            )) && (v.fault <==> walk::selected(s, path) && filter::permission_fault(target->0, o))
            &&& o.type_filter != 'l' && target is Some && !target->0.is_file && o.type_filter
                != '\0' ==> !v.matches && !v.fault
        }),
{
}

/// Nothing becomes of an entry of which nothing is known, nor of one that is no file,
/// no directory and no link.
pub proof fn other_entries_never_match(
    s: Search,
    o: Options,
    path: Seq<char>,
    own: Option<EntryMeta>,
    target: Option<EntryMeta>,
)
    requires
        own matches Some(m) ==> !m.is_file && !m.is_dir && !m.is_symlink,
    ensures
        !walk::verdict(s, o, path, own, target).matches,
        !walk::verdict(s, o, path, own, target).descends,
        !walk::verdict(s, o, path, own, target).fault,
{
}

// ---------------------------------------------------------------------------
// Directories
// ---------------------------------------------------------------------------

/// A directory that can be opened.
pub open spec fn listing(items: Seq<Item>) -> Dir {
    Dir { opens: true, items }
}

/// The limit on the depth lets a directory at `depth` be looked at.
pub open spec fn within(depth: int, o: Options) -> bool {
    o.max_depth < 0 || depth <= o.max_depth
}

/// Beyond the limit nothing is found, and a directory that cannot be opened is
/// trouble; an empty one is neither.
pub proof fn directory_limits(d: Dir, depth: int, s: Search, o: Options)
    ensures
        !within(depth, o) ==> walk_laws::found_in(d, depth, s, o).paths.len() == 0
            && walk_laws::found_in(d, depth, s, o).trouble is None,
        within(depth, o) && !d.opens ==> walk_laws::found_in(d, depth, s, o).paths.len() == 0
            && walk_laws::found_in(d, depth, s, o).trouble == Some(Trouble::NotOpened),
        within(depth, o) && d.opens && d.items.len() == 0 ==> walk_laws::found_in(
            d,
            depth,
            s,
            o,
        ).paths.len() == 0 && walk_laws::found_in(d, depth, s, o).trouble is None,
{
}

proof fn found_from_shift(
    a: Seq<Item>,
    b: Seq<Item>,
    i: nat,
    depth: int,
    s: Search,
    o: Options,
)
    requires
        i <= b.len(),
    ensures
        walk_laws::found_from(listing(a + b), a.len() + i, depth, s, o) == walk_laws::found_from(
            listing(b),
            i,
            depth,
            s,
            o,
        ),
    decreases b.len() - i,
{
    if i < b.len() {
        found_from_shift(a, b, i + 1, depth, s, o);
        assert((a + b)[a.len() + i as int] == b[i as int]);
    }
}

proof fn found_from_join(
    a: Seq<Item>,
    b: Seq<Item>,
    i: nat,
    depth: int,
    s: Search,
    o: Options,
)
    requires
        i <= a.len(),
    ensures
        walk_laws::found_from(listing(a + b), i, depth, s, o) == walk_laws::then_found(
            walk_laws::found_from(listing(a), i, depth, s, o),
            walk_laws::found_from(listing(b), 0, depth, s, o),
        ),
    decreases a.len() - i,
{
    let x = walk_laws::found_from(listing(a + b), i, depth, s, o);
    let fb = walk_laws::found_from(listing(b), 0, depth, s, o);
    if i == a.len() {
        found_from_shift(a, b, 0, depth, s, o);
        assert(walk_laws::nothing().paths + fb.paths =~= fb.paths);
    } else {
        found_from_join(a, b, i + 1, depth, s, o);
        assert((a + b)[i as int] == a[i as int]);
        let rest = walk_laws::found_from(listing(a), i + 1, depth, s, o);
        match a[i as int] {
            Item::Unreadable => {},
            Item::Entry { name, path, own, target, below } => {
                let v = walk::verdict(s, o, path, own, target);
                let itself: Seq<Seq<char>> = if v.matches {
                    seq![path]
                } else {
                    Seq::empty()
                };
                let inside = if v.descends {
                    walk_laws::found_in(below, depth + 1, s, o)
                } else {
                    walk_laws::nothing()
                };
                assert(itself + inside.paths + (rest.paths + fb.paths) =~= itself + inside.paths
                    + rest.paths + fb.paths);
                if !walk::left_out(s, o, name) && !v.fault {
                    let y = walk_laws::then_found(
                        walk_laws::found_from(listing(a), i, depth, s, o),
                        fb,
                    );
                    assert(x.paths =~= y.paths);
                    assert(x =~= y);
                }
            },
        }
    }
}

/// What is found in a directory is what is found in the first of its entries and,
/// unless there was trouble, after that what is found in the others: the order of
/// the entries is the order of the paths.
pub proof fn entries_are_found_in_order(
    a: Seq<Item>,
    b: Seq<Item>,
    depth: int,
    s: Search,
    o: Options,
)
    ensures
        ({
            let first = walk_laws::found_in(listing(a), depth, s, o);
            let others = walk_laws::found_in(listing(b), depth, s, o);
            let all = walk_laws::found_in(listing(a + b), depth, s, o);
            &&& first.trouble is Some ==> all == first
            &&& first.trouble is None ==> all.paths == first.paths + others.paths && all.trouble
                == others.trouble
        }),
{
    found_from_join(a, b, 0, depth, s, o);
    if !within(depth, o) {
        assert(walk_laws::nothing().paths + walk_laws::nothing().paths
            =~= walk_laws::nothing().paths);
    }
}

/// What an entry that stands alone in its directory adds.
proof fn alone(e: Item, depth: int, s: Search, o: Options)
    requires
        within(depth, o),
    ensures
        walk_laws::found_in(listing(seq![e]), depth, s, o) == walk_laws::found_from(
            listing(seq![e]),
            0,
            depth,
            s,
            o,
        ),
        walk_laws::found_from(listing(seq![e]), 1, depth, s, o) == walk_laws::nothing(),
        listing(seq![e]).items[0] == e,
{
}

/// An entry that cannot be read, or is left out, adds nothing.
pub proof fn left_out_entry_adds_nothing(e: Item, depth: int, s: Search, o: Options)
    requires
        e matches Item::Entry { name, .. } ==> walk::left_out(s, o, name),
    ensures
        walk_laws::found_in(listing(seq![e]), depth, s, o).paths.len() == 0,
        walk_laws::found_in(listing(seq![e]), depth, s, o).trouble is None,
{
    if within(depth, o) {
        alone(e, depth, s, o);
    }
}

/// A real directory adds its own path where directories are asked for and it matches,
/// and after that all that is found in it one level deeper, whether it matches or not.
pub proof fn directory_adds_what_is_in_it(
    name: Seq<char>,
    path: Seq<char>,
    own: EntryMeta,
    target: Option<EntryMeta>,
    below: Dir,
    depth: int,
    s: Search,
    o: Options,
)
    requires
        own.is_dir,
        !own.is_symlink,
        within(depth, o),
        !walk::left_out(s, o, name),
        !(o.type_filter == 'd' && walk::selected(s, path) && filter::permission_fault(own, o)),
    ensures
        ({
            let e = Item::Entry { name, path, own: Some(own), target, below };
            let found = walk_laws::found_in(listing(seq![e]), depth, s, o);
            let inside = walk_laws::found_in(below, depth + 1, s, o);
            &&& found.trouble == inside.trouble
            &&& o.type_filter == 'd' && walk::selected(s, path) && filter::passes(own, o)
                ==> found.paths == seq![path] + inside.paths
            &&& !(o.type_filter == 'd' && walk::selected(s, path) && filter::passes(own, o))
                ==> found.paths == inside.paths
        }),
{
    directories_are_gone_into(s, o, path, own, target);
    let e = Item::Entry { name, path, own: Some(own), target, below };
    alone(e, depth, s, o);
    let found = walk_laws::found_in(listing(seq![e]), depth, s, o);
    let inside = walk_laws::found_in(below, depth + 1, s, o);
    let none = Seq::<Seq<char>>::empty();
    assert(seq![path] + inside.paths + none =~= seq![path] + inside.paths);
    assert(none + inside.paths + none =~= inside.paths);
}

/// Any other entry adds its own path exactly when it matches.
pub proof fn other_entry_adds_itself(e: Item, depth: int, s: Search, o: Options)
    requires
        e is Entry,
        e->own matches Some(m) ==> !m.is_dir || m.is_symlink,
        within(depth, o),
        !walk::left_out(s, o, e->name),
    ensures
        ({
            let v = walk::verdict(s, o, e->path, e->own, e->target);
            let found = walk_laws::found_in(listing(seq![e]), depth, s, o);
            &&& v.matches && !v.fault ==> found.paths == seq![e->path]
            &&& !v.matches || v.fault ==> found.paths.len() == 0
            &&& v.fault <==> found.trouble is Some
        }),
{
    alone(e, depth, s, o);
    let v = walk::verdict(s, o, e->path, e->own, e->target);
    if v.descends {
        only_directories_are_gone_into(s, o, e->path, e->own, e->target);
    }
    let none = Seq::<Seq<char>>::empty();
    let p = seq![e->path];
    assert(p + none + none =~= p);
    assert(none + none + none =~= none);
}

// ---------------------------------------------------------------------------
// Entries at any depth
// ---------------------------------------------------------------------------

/// `way` leads from `d` down to an entry: each number is that of an entry, each entry
/// but the last a real directory that can be opened, and none of them is left out.
pub open spec fn leads(d: Dir, way: Seq<int>, depth: int, s: Search, o: Options) -> bool
    decreases way.len(),
{
    &&& way.len() > 0
    &&& d.opens
    &&& within(depth, o)
    &&& 0 <= way[0] < d.items.len()
    &&& d.items[way[0]] is Entry
    &&& !walk::left_out(s, o, d.items[way[0]]->name)
    &&& way.len() > 1 ==> {
        &&& d.items[way[0]]->own matches Some(m)
        &&& m.is_dir
        &&& !m.is_symlink
        &&& leads(d.items[way[0]]->below, way.skip(1), depth + 1, s, o)
    }
}

/// The entry that `way` leads to.
pub open spec fn entry_at(d: Dir, way: Seq<int>) -> Item
    decreases way.len(),
{
    if way.len() <= 1 {
        d.items[way[0]]
    } else {
        entry_at(d.items[way[0]]->below, way.skip(1))
    }
}

/// What an entry adds is among what is found in its directory, unless there is trouble.
proof fn part_of_the_directory(d: Dir, k: int, depth: int, s: Search, o: Options)
    requires
        d.opens,
        within(depth, o),
        0 <= k < d.items.len(),
        walk_laws::found_in(d, depth, s, o).trouble is None,
    ensures
        ({
            let one = walk_laws::found_in(listing(seq![d.items[k]]), depth, s, o);
            &&& one.trouble is None
            &&& forall|x: Seq<char>| #[trigger]
                one.paths.contains(x) ==> walk_laws::found_in(d, depth, s, o).paths.contains(x)
        }),
{
    let a = d.items.take(k);
    let e = seq![d.items[k]];
    let b = d.items.skip(k + 1);
    let fa = walk_laws::found_in(listing(a), depth, s, o);
    let one = walk_laws::found_in(listing(e), depth, s, o);
    let fb = walk_laws::found_in(listing(b), depth, s, o);
    assert(d.items =~= a + (e + b));
    assert(d == listing(a + (e + b)));
    entries_are_found_in_order(a, e + b, depth, s, o);
    entries_are_found_in_order(e, b, depth, s, o);
    let all = walk_laws::found_in(d, depth, s, o).paths;
    assert(all == fa.paths + (one.paths + fb.paths));
    assert forall|x: Seq<char>| #[trigger] one.paths.contains(x) implies all.contains(x) by {
        let i = choose|i: int| 0 <= i < one.paths.len() && one.paths[i] == x;
        assert(all[fa.paths.len() + i] == x);
    }
}

/// Every file at any depth that can be reached, through directories that are neither
/// hidden nor excluded nor too deep, whose path is selected and which passes the
/// filters, is found, whatever the names and filters say of the directories above it.
pub proof fn every_matching_file_is_found(
    d: Dir,
    way: Seq<int>,
    depth: int,
    s: Search,
    o: Options,
)
    requires
        leads(d, way, depth, s, o),
        walk_laws::found_in(d, depth, s, o).trouble is None,
        entry_at(d, way)->own matches Some(m) && m.is_file && !m.is_dir && !m.is_symlink,
        walk::selected(s, entry_at(d, way)->path),
        filter::passes(entry_at(d, way)->own->0, o),
    ensures
        walk_laws::found_in(d, depth, s, o).paths.contains(entry_at(d, way)->path),
    decreases way.len(),
{
    let k = way[0];
    let e = d.items[k];
    let x = entry_at(d, way)->path;
    part_of_the_directory(d, k, depth, s, o);
    let one = walk_laws::found_in(listing(seq![e]), depth, s, o);
    if way.len() == 1 {
        files_match_by_path_and_filters(s, o, x, e->own->0, e->target);
        other_entry_adds_itself(e, depth, s, o);
        assert(one.paths[0] == x);
        assert(one.paths.contains(x));
    } else {
        let own = e->own->0;
        descending(e, own, depth, s, o);
        let inside = walk_laws::found_in(e->below, depth + 1, s, o);
        every_matching_file_is_found(e->below, way.skip(1), depth + 1, s, o);
        let i = choose|i: int| 0 <= i < inside.paths.len() && inside.paths[i] == x;
        assert(one.paths[one.paths.len() - inside.paths.len() + i] == x);
        assert(one.paths.contains(x));
    }
}

/// Where directories are asked for, every real directory at any depth that can be
/// reached, whose path is selected and which passes the filters, is found, whether or
/// not the directories above it match.
pub proof fn every_matching_directory_is_found(
    d: Dir,
    way: Seq<int>,
    depth: int,
    s: Search,
    o: Options,
)
    requires
        leads(d, way, depth, s, o),
        walk_laws::found_in(d, depth, s, o).trouble is None,
        o.type_filter == 'd',
        entry_at(d, way)->own matches Some(m) && m.is_dir && !m.is_symlink,
        walk::selected(s, entry_at(d, way)->path),
        filter::passes(entry_at(d, way)->own->0, o),
    ensures
        walk_laws::found_in(d, depth, s, o).paths.contains(entry_at(d, way)->path),
    decreases way.len(),
{
    let k = way[0];
    let e = d.items[k];
    let x = entry_at(d, way)->path;
    part_of_the_directory(d, k, depth, s, o);
    let one = walk_laws::found_in(listing(seq![e]), depth, s, o);
    let own = e->own->0;
    descending(e, own, depth, s, o);
    if way.len() == 1 {
        assert(one.paths[0] == x);
        assert(one.paths.contains(x));
    } else {
        let inside = walk_laws::found_in(e->below, depth + 1, s, o);
        every_matching_directory_is_found(e->below, way.skip(1), depth + 1, s, o);
        let i = choose|i: int| 0 <= i < inside.paths.len() && inside.paths[i] == x;
        assert(one.paths[one.paths.len() - inside.paths.len() + i] == x);
        assert(one.paths.contains(x));
    }
}

/// What a real directory adds ends with what is found in it.
proof fn descending(e: Item, own: EntryMeta, depth: int, s: Search, o: Options)
    requires
        e is Entry,
        e->own == Some(own),
        own.is_dir,
        !own.is_symlink,
        within(depth, o),
        !walk::left_out(s, o, e->name),
        walk_laws::found_in(listing(seq![e]), depth, s, o).trouble is None,
    ensures
        ({
            let one = walk_laws::found_in(listing(seq![e]), depth, s, o);
            let inside = walk_laws::found_in(e->below, depth + 1, s, o);
            &&& inside.trouble is None
            &&& one.paths.len() >= inside.paths.len()
            &&& one.paths.skip(one.paths.len() - inside.paths.len()) == inside.paths
            &&& forall|i: int|
                0 <= i < inside.paths.len() ==> one.paths[one.paths.len() - inside.paths.len() + i]
                    == #[trigger] inside.paths[i]
            &&& o.type_filter == 'd' && walk::selected(s, e->path) && filter::passes(own, o)
                ==> one.paths.len() > 0 && one.paths[0] == e->path
        }),
{
    let inside = walk_laws::found_in(e->below, depth + 1, s, o);
    let one = walk_laws::found_in(listing(seq![e]), depth, s, o);
    if o.type_filter == 'd' && walk::selected(s, e->path) && filter::permission_fault(own, o) {
        alone(e, depth, s, o);
        directories_are_gone_into(s, o, e->path, own, e->target);
        }
    directory_adds_what_is_in_it(
        e->name,
        e->path,
        own,
        e->target,
        e->below,
        depth,
        s,
        o,
    );
    assert(e == Item::Entry {
        name: e->name,
        path: e->path,
        own: Some(own),
        target: e->target,
        below: e->below,
    });
    assert(one.paths.skip(one.paths.len() - inside.paths.len()) =~= inside.paths);
}

/// Whatever is found in a directory is an entry that can be reached, whose path is
/// selected, and which passes the filters itself or, for a link where links are not
/// asked for, through what it leads to.
pub proof fn only_matching_entries_are_found(
    d: Dir,
    x: Seq<char>,
    depth: int,
    s: Search,
    o: Options,
) -> (way: Seq<int>)
    requires
        walk_laws::found_in(d, depth, s, o).paths.contains(x),
    ensures
        leads(d, way, depth, s, o),
        entry_at(d, way)->path == x,
        walk::selected(s, x),
        entry_at(d, way)->own is Some,
        filter::passes(entry_at(d, way)->own->0, o) || (entry_at(d, way)->own->0.is_symlink
            && o.type_filter != 'l' && entry_at(d, way)->target is Some && filter::passes(
            entry_at(d, way)->target->0,
            o,
        )),
    decreases d, d.items.len() + 1,
{
    found_further_on(d, 0, x, depth, s, o)
}

proof fn found_further_on(d: Dir, i: nat, x: Seq<char>, depth: int, s: Search, o: Options) -> (way:
    Seq<int>)
    requires
        d.opens,
        within(depth, o),
        walk_laws::found_from(d, i, depth, s, o).paths.contains(x),
    ensures
        leads(d, way, depth, s, o),
        entry_at(d, way)->path == x,
        walk::selected(s, x),
        entry_at(d, way)->own is Some,
        filter::passes(entry_at(d, way)->own->0, o) || (entry_at(d, way)->own->0.is_symlink
            && o.type_filter != 'l' && entry_at(d, way)->target is Some && filter::passes(
            entry_at(d, way)->target->0,
            o,
        )),
    decreases d, d.items.len() - i,
{
    let e = d.items[i as int];
    let rest = walk_laws::found_from(d, i + 1, depth, s, o);
    if e is Unreadable || walk::left_out(s, o, e->name) {
        found_further_on(d, i + 1, x, depth, s, o)
    } else {
        let v = walk::verdict(s, o, e->path, e->own, e->target);
        let itself: Seq<Seq<char>> = if v.matches {
            seq![e->path]
        } else {
            Seq::empty()
        };
        let inside = if v.descends {
            walk_laws::found_in(e->below, depth + 1, s, o)
        } else {
            walk_laws::nothing()
        };
        let all = walk_laws::found_from(d, i, depth, s, o).paths;
        let k = choose|k: int| 0 <= k < all.len() && all[k] == x;
        let here: Seq<int> = seq![i as int];
        if k < itself.len() {
            assert(x == e->path);
            here
        } else if k < itself.len() + inside.paths.len() {
            assert(inside.paths[k - itself.len()] == x);
            let w = only_matching_entries_are_found(e->below, x, depth + 1, s, o);
            let way = here + w;
            assert(way.skip(1) =~= w);
            way
        } else {
            assert(rest.paths[k - itself.len() - inside.paths.len()] == x);
            found_further_on(d, i + 1, x, depth, s, o)
        }
    }
}

// ---------------------------------------------------------------------------
// Steps of a walk
// ---------------------------------------------------------------------------

/// A directory that is to be gone into is opened one level deeper, unless that is
/// beyond the limit or there is a reason to stop; then the one at hand is asked for
/// its next entry.
pub proof fn directory_is_opened_within_the_limit(
    t: Trav,
    path: Seq<char>,
    own: EntryMeta,
    halted: bool,
    s: Search,
    o: Options,
)
    requires
        t.phase == WalkPhase::AwaitMeta,
        t.depth >= 0,
        own.is_dir,
        !own.is_symlink,
        o.type_filter != 'd',
    ensures
        ({
            let (q, doing) = walk::walk_next(
                t,
                Seen::Examined { path, own: Some(own), target: None },
                halted,
                s,
                o,
            );
            &&& q.files == t.files
            &&& within(t.depth + 1, o) && !halted ==> doing == Doing::OpenDir && q.depth == t.depth
                + 1 && q.phase == WalkPhase::AwaitOpen
            &&& !within(t.depth + 1, o) || halted ==> doing == Doing::NextEntry(t.depth) && q.depth
                == t.depth && q.phase == WalkPhase::AwaitEntry
        }),
{
}

/// A match is handed to a command, or added at the end of the list where there is one
/// command for all; a reason to stop that comes up after the entry was named does not
/// change that.
pub proof fn match_is_used(
    t: Trav,
    path: Seq<char>,
    own: EntryMeta,
    halted: bool,
    s: Search,
    o: Options,
)
    requires
        t.depth >= 0,
        own.is_file && !own.is_dir && !own.is_symlink,
        walk::selected(s, path),
        filter::passes(own, o),
    ensures
        ({
            let (q, doing) = walk::walk_next(
                t,
                Seen::Examined { path, own: Some(own), target: None },
                halted,
                s,
                o,
            );
            &&& !o.collect_all ==> doing == Doing::Command(path) && q.files == t.files && q.depth
                == t.depth
            &&& o.collect_all ==> doing == Doing::NextEntry(t.depth) && q.files == t.files.push(
                path,
            ) && q.depth == t.depth
        }),
        walk::brings_match(Seen::Examined { path, own: Some(own), target: None }, s, o),
{
}

/// A walk begins by opening its first directory, unless there is a reason to stop.
pub proof fn walk_begins_with_the_first_directory(s: Search, o: Options)
    ensures
        walk::walk_next(walk::unbegun(), Seen::Start, false, s, o).1 == Doing::OpenDir,
        walk::walk_next(walk::unbegun(), Seen::Start, false, s, o).0.depth == 0,
        walk::walk_next(walk::unbegun(), Seen::Start, true, s, o).1 == Doing::Finish,
{
}

/// While there is a reason to stop, the next entry, of whatever name, makes the walk
/// leave the directory.
pub proof fn reason_to_stop_leaves_the_directory(t: Trav, name: Seq<char>, s: Search, o: Options)
    requires
        t.depth >= 0,
    ensures
        walk::walk_next(t, Seen::Entry(name), true, s, o).0.depth == t.depth - 1,
        walk::walk_next(t, Seen::Unreadable, true, s, o).0.depth == t.depth - 1,
        walk::walk_next(t, Seen::Entry(name), true, s, o).1 == (if t.depth > 0 {
            Doing::NextEntry(t.depth - 1)
        } else {
            Doing::Finish
        }),
{
}

/// After a command that asks to go on, an entry that is a directory is gone into, and
/// any other passed.
pub proof fn walk_goes_on_after_a_command(t: Trav, descends: bool, s: Search, o: Options)
    requires
        t.phase == (WalkPhase::AwaitCommand { descends }),
        t.depth >= 0,
    ensures
        ({
            let (q, doing) = walk::walk_next(t, Seen::Commanded(true), false, s, o);
            &&& descends && within(t.depth + 1, o) ==> doing == Doing::OpenDir && q.depth == t.depth
                + 1
            &&& !descends || !within(t.depth + 1, o) ==> doing == Doing::NextEntry(t.depth)
                && q.depth == t.depth
            &&& q.files == t.files
        }),
{
}

/// The counters have room for any event while they are below their limits.
pub proof fn counters_have_room(
    t: Trav,
    stats: crate::session::Stats,
    seen: Seen,
    s: Search,
    o: Options,
)
    requires
        stats.files_matched < i32::MAX,
        t.depth < i32::MAX,
    ensures
        walk::has_room(t, stats, seen, s, o),
{
}

/// Exactly the entries that match are counted, each once.
pub proof fn matches_are_counted(p: crate::session::Proc, seen: Seen, s: Search, o: Options)
    requires
        p.stats.files_matched < i32::MAX,
    ensures
        ({
            let q = walk::with_match(p, walk::brings_match(seen, s, o));
            &&& seen matches Seen::Examined { path, own, target } ==> {
                let v = walk::verdict(s, o, path, own, target);
                q.stats.files_matched == p.stats.files_matched + (if v.matches && !v.fault {
                    1int
                } else {
                    0int
                })
            }
            &&& !(seen is Examined) ==> q == p
            &&& q.stats.commands_run == p.stats.commands_run
            &&& q.stats.commands_failed == p.stats.commands_failed
            &&& q.children == p.children
            &&& q.stop_requested == p.stop_requested
        }),
{
}

/// An entry that is not left out is looked at; one that is, and one that cannot be
/// read, is passed over.
pub proof fn entries_are_looked_at(t: Trav, name: Seq<char>, s: Search, o: Options)
    requires
        t.depth >= 0,
    ensures
        ({
            let (q, doing) = walk::walk_next(t, Seen::Entry(name), false, s, o);
            &&& !walk::left_out(s, o, name) ==> doing == Doing::Examine && q.phase
                == WalkPhase::AwaitMeta
            &&& walk::left_out(s, o, name) ==> doing == Doing::NextEntry(t.depth)
            &&& q.depth == t.depth && q.files == t.files
        }),
        walk::walk_next(t, Seen::Unreadable, false, s, o).1 == Doing::NextEntry(t.depth),
        walk::walk_next(t, Seen::Unreadable, false, s, o).0.files == t.files,
{
}

/// A directory that was opened is read; one that could not be opened ends the walk with
/// trouble. After its last entry the one above is read on, and the walk ends with the
/// first directory.
pub proof fn directories_are_read_to_their_end(t: Trav, halted: bool, s: Search, o: Options)
    requires
        t.depth >= 0,
    ensures
        walk::walk_next(t, Seen::Opened(true), halted, s, o).1 == Doing::NextEntry(t.depth),
        walk::walk_next(t, Seen::Opened(true), halted, s, o).0.depth == t.depth,
        walk::walk_next(t, Seen::Opened(false), halted, s, o).1 == Doing::Fail(Trouble::NotOpened),
        ({
            let (q, doing) = walk::walk_next(t, Seen::NoMore, halted, s, o);
            &&& q.files == t.files
            &&& t.depth > 0 ==> doing == Doing::NextEntry(t.depth - 1) && q.depth == t.depth - 1
            &&& t.depth == 0 ==> doing == Doing::Finish
        }),
{
}

/// A directory that matches is dealt with before what is in it: its command runs first,
/// or it comes first in the list.
pub proof fn matching_directory_comes_first(
    t: Trav,
    path: Seq<char>,
    own: EntryMeta,
    s: Search,
    o: Options,
)
    requires
        t.depth >= 0,
        own.is_dir && !own.is_symlink,
        o.type_filter == 'd',
        walk::selected(s, path),
        filter::passes(own, o),
    ensures
        ({
            let (q, doing) = walk::walk_next(
                t,
                Seen::Examined { path, own: Some(own), target: None },
                false,
                s,
                o,
            );
            &&& !o.collect_all ==> doing == Doing::Command(path) && q.depth == t.depth && q.phase
                == (WalkPhase::AwaitCommand { descends: true })
            &&& o.collect_all ==> q.files == t.files.push(path)
            &&& o.collect_all && within(t.depth + 1, o) ==> doing == Doing::OpenDir && q.depth
                == t.depth + 1
        }),
{
}

/// A wrong permission filter ends the walk with trouble that names it, once an entry
/// has to be tested with it.
pub proof fn wrong_permission_ends_the_walk(
    t: Trav,
    path: Seq<char>,
    own: EntryMeta,
    halted: bool,
    s: Search,
    o: Options,
)
    requires
        own.is_file && !own.is_dir && !own.is_symlink,
        walk::selected(s, path),
        filter::permission_fault(own, o),
    ensures
        walk::walk_next(
            t,
            Seen::Examined { path, own: Some(own), target: None },
            halted,
            s,
            o,
        ).1 == Doing::Fail(
            Trouble::Filter("invalid permission filter '"@ + o.perm_filter@ + "'"@),
        ),
        !walk::brings_match(Seen::Examined { path, own: Some(own), target: None }, s, o),
{
}

/// A command that does not let the run go on ends the walk at once, wherever it is.
pub proof fn refused_walk_ends(t: Trav, halted: bool, s: Search, o: Options)
    ensures
        walk::walk_next(t, Seen::Commanded(false), halted, s, o).1 == Doing::Finish,
        walk::walk_next(t, Seen::Commanded(false), halted, s, o).0.files == t.files,
{
}

/// Room is short only where the counter is at its limit that the entry would add to.
pub proof fn room_is_short_at_the_limits_only(
    t: Trav,
    stats: crate::session::Stats,
    path: Seq<char>,
    own: EntryMeta,
    s: Search,
    o: Options,
)
    requires
        own.is_file && !own.is_dir && !own.is_symlink,
    ensures
        walk::has_room(t, stats, Seen::Examined { path, own: Some(own), target: None }, s, o)
            <==> stats.files_matched < i32::MAX || !walk::selected(s, path) || !filter::passes(
            own,
            o,
        ) || filter::permission_fault(own, o),
        walk::has_room(t, stats, Seen::Start, s, o),
        walk::has_room(t, stats, Seen::NoMore, s, o),
        walk::has_room(t, stats, Seen::Unreadable, s, o),
        walk::has_room(t, stats, Seen::Entry(path), s, o),
        walk::has_room(t, stats, Seen::Commanded(false), s, o),
{
}

/// Each event has the phase in which it can happen.
pub proof fn every_event_has_its_phase(
    ok: bool,
    name: Seq<char>,
    own: Option<EntryMeta>,
    target: Option<EntryMeta>,
    descends: bool,
)
    ensures
        walk::fits(WalkPhase::New, Seen::Start),
        walk::fits(WalkPhase::AwaitOpen, Seen::Opened(ok)),
        walk::fits(WalkPhase::AwaitEntry, Seen::Entry(name)),
        walk::fits(WalkPhase::AwaitEntry, Seen::Unreadable),
        walk::fits(WalkPhase::AwaitEntry, Seen::NoMore),
        walk::fits(WalkPhase::AwaitMeta, Seen::Examined { path: name, own, target }),
        walk::fits(WalkPhase::AwaitCommand { descends }, Seen::Commanded(ok)),
{
}

/// The lists of two groups of matches are joined by a space; no match makes an empty
/// list, and one match is its own list.
pub proof fn lists_are_joined_by_a_space(a: Seq<Seq<char>>, b: Seq<Seq<char>>, one: Seq<char>)
    requires
        a.len() > 0,
        b.len() > 0,
    ensures
        walk::joined(a + b) == walk::joined(a) + seq![' '] + walk::joined(b),
        walk::joined(seq![one]) == one,
        walk::joined(Seq::empty()).len() == 0,
    decreases b.len(),
{
    reveal_strlit(" ");
    assert(" "@ =~= seq![' ']);
    assert((a + b).drop_last() =~= a + b.drop_last());
    assert((a + b).last() == b.last());
    if b.len() == 1 {
        assert(a + b.drop_last() =~= a);
    } else {
        lists_are_joined_by_a_space(a, b.drop_last(), one);
        assert(walk::joined(a + b) =~= walk::joined(a) + seq![' '] + walk::joined(b));
    }
}

/// A path is selected with an expression at hand as the expression says, and without
/// one as the pattern says.
pub proof fn path_selection_prefers_the_expression(
    path: Seq<char>,
    source: Seq<char>,
    root: crate::expr::ExprNode,
)
    ensures
        expr::path_selected(path, source, Some(&root)) == expr::node_accepts(root, path),
        expr::path_selected(path, source, None) == pattern::source_is_match(source, path),
{
}

/// A wrong permission filter is trouble that names it as soon as an entry would have to
/// be tested with it, and nothing is found in that entry.
pub proof fn wrong_permission_is_trouble(
    name: Seq<char>,
    path: Seq<char>,
    own: EntryMeta,
    below: Dir,
    depth: int,
    s: Search,
    o: Options,
)
    requires
        own.is_file && !own.is_dir || own.is_dir && o.type_filter == 'd',
        !own.is_symlink,
        within(depth, o),
        !walk::left_out(s, o, name),
        walk::selected(s, path),
        filter::permission_fault(own, o),
    ensures
        ({
            let e = Item::Entry { name, path, own: Some(own), target: None, below };
            let found = walk_laws::found_in(listing(seq![e]), depth, s, o);
            &&& found.paths.len() == 0
            &&& found.trouble == Some(
                Trouble::Filter("invalid permission filter '"@ + o.perm_filter@ + "'"@),
            )
        }),
{
    let e = Item::Entry { name, path, own: Some(own), target: None, below };
    alone(e, depth, s, o);
}

} // verus!
