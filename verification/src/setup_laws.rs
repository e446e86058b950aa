//! What a command line asks for, option by option and argument by argument.
use vstd::prelude::*;

use crate::command;
use crate::expr;
use crate::filter;
use crate::glob;
#[allow(unused_imports)]
use crate::options::Options;
use crate::parser;
use crate::path;
use crate::pattern;
use crate::setup;
#[allow(unused_imports)]
use crate::setup::{Cli, Plan, Refusal};
use crate::text;
#[allow(unused_imports)]
use crate::walk::Search;

verus! {

// ---------------------------------------------------------------------------
// Options
// ---------------------------------------------------------------------------

/// Every switch of the command line is on in the run exactly where it was given.
pub proof fn switches_are_taken_over(o: Options, c: Cli)
    requires
        setup::options_of(o, c),
    ensures
        c.dry_run <==> o.dry_run,
        c.verbose <==> o.verbose,
        c.all <==> o.hidden,
        c.stop_on_error <==> o.stop_on_error,
        c.confirm <==> o.confirm,
        c.list_all <==> o.collect_all,
        c.glob <==> o.glob,
        c.regex_match <==> o.regex_match,
        c.glob_exclude <==> o.glob_exclude,
        o.shell@ == c.shell@,
{
}

/// Without a limit on the depth there is none, and with one it is that; less than one
/// job is one job, and any other number is kept.
pub proof fn numbers_are_taken_over(o: Options, c: Cli)
    requires
        setup::options_of(o, c),
    ensures
        c.depth is None ==> o.max_depth < 0,
        c.depth matches Some(depth) ==> o.max_depth == depth,
        c.jobs >= 1 ==> o.jobs == c.jobs,
        c.jobs < 1 ==> o.jobs == 1,
{
}

/// The text of a filter is kept as it was written; a filter that was not asked for has
/// an empty text.
pub proof fn texts_are_taken_over(o: Options, c: Cli)
    requires
        setup::options_of(o, c),
    ensures
        c.perm matches Some(s) ==> o.perm_filter@ == s@,
        c.perm is None ==> o.perm_filter@.len() == 0,
        c.user matches Some(s) ==> o.user_filter@ == s@,
        c.user is None ==> o.user_filter@.len() == 0,
        c.group matches Some(s) ==> o.group_filter@ == s@,
        c.group is None ==> o.group_filter@.len() == 0,
        c.exclude matches Some(s) ==> o.exclude_pattern@ == s@,
        c.exclude is None ==> o.exclude_pattern@.len() == 0,
        c.expr matches Some(s) ==> o.expr_str@ == s@,
        c.expr is None ==> o.expr_str@.len() == 0,
{
}

/// The filters on type, size and time are active exactly where they were asked for, and
/// compare with what was written after the sign.
pub proof fn filters_are_taken_over(o: Options, c: Cli)
    requires
        setup::options_of(o, c),
    ensures
        c.type_filter matches Some(t) ==> o.type_filter == t,
        c.type_filter is None ==> o.type_filter == '\0',
        o.size_filter.active <==> c.size is Some,
        c.size matches Some(s) ==> o.size_filter.op == filter::op_of(s@) && filter::bytes_in(
            filter::without_op(s@),
        ) == Some(o.size_filter.bytes as nat),
        o.mtime_filter.active <==> c.mtime is Some,
        c.mtime matches Some(s) ==> o.mtime_filter.op == filter::op_of(s@) && text::signed_in(
            filter::without_op(s@),
        ) == Some(o.mtime_filter.days as int),
{
}

proof fn no_slash_in(name: Seq<char>)
    requires
        !name.contains('/'),
    ensures
        path::last_part_start(name) == 0,
    decreases name.len(),
{
    if name.len() > 0 {
        assert(name[name.len() - 1] == name.last());
        assert forall|k: int| 0 <= k < name.len() - 1 implies name.drop_last()[k] != '/' by {
            assert(name.drop_last()[k] == name[k]);
        }
        no_slash_in(name.drop_last());
    }
}

proof fn part_after_slash(dir: Seq<char>, name: Seq<char>)
    requires
        !name.contains('/'),
    ensures
        path::last_part_start(dir.push('/') + name) == dir.len() + 1,
    decreases name.len(),
{
    let s = dir.push('/') + name;
    if name.len() == 0 {
        assert(s =~= dir.push('/'));
    } else {
        assert(name[name.len() - 1] == name.last());
        assert(s.last() == name.last());
        assert(s.drop_last() =~= dir.push('/') + name.drop_last());
        assert forall|k: int| 0 <= k < name.len() - 1 implies name.drop_last()[k] != '/' by {
            assert(name.drop_last()[k] == name[k]);
        }
        part_after_slash(dir, name.drop_last());
    }
}

/// A shell runs under the last part of its path, or under the whole of it where there
/// is no slash.
pub proof fn shell_runs_under_its_name(dir: Seq<char>, name: Seq<char>)
    requires
        !name.contains('/'),
    ensures
        setup::base_name(dir.push('/') + name) == name,
        setup::base_name(name) == name,
{
    part_after_slash(dir, name);
    no_slash_in(name);
    assert((dir.push('/') + name).skip((dir.len() + 1) as int) =~= name);
    assert(name.skip(0) =~= name);
}

// ---------------------------------------------------------------------------
// Patterns
// ---------------------------------------------------------------------------

/// A regular expression is used as it is written, between anchors where it has to match
/// a whole text; so is the translation of a glob.
pub proof fn patterns_are_anchored(written: Seq<char>)
    ensures
        setup::pattern_source(written, false, false) == written,
        setup::pattern_source(written, true, false) == glob::glob_regex(written),
        setup::pattern_source(written, false, true) == seq!['^', '(', '?', ':'] + written + seq![
            ')',
            '$',
        ],
        setup::pattern_source(written, true, true) == seq!['^', '(', '?', ':'] + glob::glob_regex(
            written,
        ) + seq![')', '$'],
        pattern::anchored(written) == seq!['^', '(', '?', ':'] + written + seq![')', '$'],
{
    reveal_strlit("^(?:");
    reveal_strlit(")$");
    assert("^(?:"@ =~= seq!['^', '(', '?', ':']);
    assert(")$"@ =~= seq![')', '$']);
}

/// The pattern to search for is the third positional argument, read as `--glob` and
/// `--regex-match` say. Without it everything is searched for, glob or not.
pub proof fn third_argument_is_searched_for(c: Cli)
    ensures
        c.args@.len() >= 3 ==> setup::search_source_of(c) == setup::pattern_source(
            c.args@[2]@,
            c.glob,
            c.regex_match,
        ),
        c.args@.len() < 3 && !c.regex_match ==> setup::search_source_of(c) == seq!['.', '*'],
        c.args@.len() < 3 && c.regex_match ==> setup::search_source_of(c) == seq![
            '^',
            '(',
            '?',
            ':',
            '.',
            '*',
            ')',
            '$',
        ],
{
    reveal_strlit(".*");
    assert(".*"@ =~= seq!['.', '*']);
    patterns_are_anchored(".*"@);
    let all = command::views(c.args@);
    assert(all.len() == c.args@.len());
    if c.args@.len() < 3 && c.regex_match {
        assert(setup::search_source_of(c) =~= seq!['^', '(', '?', ':', '.', '*', ')', '$']);
    }
}

/// The exclude pattern has a switch of its own for globs; an empty one excludes nothing.
pub proof fn exclude_has_its_own_switch(c: Cli)
    ensures
        c.exclude is None ==> setup::exclude_source_of(c) is None,
        c.exclude matches Some(s) ==> s@.len() == 0 ==> setup::exclude_source_of(c) is None,
        c.exclude matches Some(s) ==> s@.len() > 0 ==> setup::exclude_source_of(c) == Some(
            setup::pattern_source(s@, c.glob_exclude, c.regex_match),
        ),
{
}

// ---------------------------------------------------------------------------
// Arguments
// ---------------------------------------------------------------------------

/// The extra arguments follow the search pattern; the first of them has the number two,
/// and each of the others one more than the one before it.
pub proof fn extra_arguments_are_numbered(args: Seq<Seq<char>>, k: nat)
    requires
        args.len() >= 3,
        k < args.len() - 3,
    ensures
        setup::command_args(args).len() == args.len() - 2,
        setup::command_args(args)[0] == "filename"@,
        setup::command_args(args)[(k + 1) as int] == args[(k + 3) as int],
        setup::number_of(args.len(), k + 3) == k + 2,
        setup::extra_start(args.len()) == 3,
{
}

/// Without a search pattern there are no extra arguments.
pub proof fn two_arguments_leave_none_over(args: Seq<Seq<char>>)
    requires
        args.len() == 2 || args.len() == 3,
    ensures
        setup::command_args(args).len() == 1,
        setup::arg_count(args.len()) == 1,
        forall|list_all: bool|
            #[trigger] setup::missing_placeholder(args, list_all, setup::extra_start(args.len()))
                is None,
{
}

/// What is missed is the first extra argument whose number the command does not
/// mention.
pub proof fn first_missing_placeholder_is_named(args: Seq<Seq<char>>, list_all: bool, start: nat)
    requires
        args.len() >= 3,
        3 <= start,
    ensures
        setup::missing_placeholder(args, list_all, start) matches Some(r) ==> {
            &&& r matches Refusal::NoPlaceholder(number, argument)
            &&& start - 1 <= number < args.len() - 1
            &&& argument == args[(number + 1) as int]
            &&& !setup::has_number(args, list_all, number)
            &&& forall|n: nat| start - 1 <= n < number ==> #[trigger] setup::has_number(
                args,
                list_all,
                n,
            )
        },
        setup::missing_placeholder(args, list_all, start) is None <==> forall|n: nat|
            start - 1 <= n < args.len() - 1 ==> #[trigger] setup::has_number(args, list_all, n),
    decreases args.len() - start,
{
    if start < args.len() {
        let here = setup::number_of(args.len(), start);
        assert(here == start - 1);
        if setup::has_number(args, list_all, here) {
            first_missing_placeholder_is_named(args, list_all, start + 1);
            assert forall|n: nat| start - 1 <= n && (start <= n ==> #[trigger] setup::has_number(
                args,
                list_all,
                n,
            )) implies setup::has_number(args, list_all, n) by {
                if n == start - 1 {
                    assert(n == here);
                }
            }
        }
    }
}

/// A command mentions a number as one that has all the arguments of the command.
pub proof fn numbers_are_those_of_the_arguments(args: Seq<Seq<char>>, list_all: bool, number: nat)
    requires
        args.len() >= 3,
    ensures
        setup::has_number(args, list_all, number) == command::mentions(
            args[1],
            command::name_chars(list_all, (args.len() - 2) as nat),
            command::numbers(list_all, (args.len() - 2) as nat),
            number,
        ),
{
}

// ---------------------------------------------------------------------------
// Refusals
// ---------------------------------------------------------------------------

/// A type other than f, d and l is refused, whatever else is wrong.
pub proof fn unknown_type_is_refused_first(c: Cli, t: char)
    requires
        c.type_filter == Some(t),
    ensures
        t != 'f' && t != 'd' && t != 'l' ==> setup::refusal(c) == Some(Refusal::InvalidType(t)),
        setup::refusal(c) == Some(Refusal::InvalidType(t)) ==> t != 'f' && t != 'd' && t != 'l',
{
    missing_is_a_placeholder(
        command::views(c.args@),
        c.list_all,
        setup::extra_start(c.args@.len()),
    );
}

/// Where the type is known, a text that is no size is refused, and after that one that
/// is no number of days.
pub proof fn unreadable_filters_are_refused(c: Cli)
    requires
        c.type_filter matches Some(t) ==> t == 'f' || t == 'd' || t == 'l',
    ensures
        c.size matches Some(s) ==> (setup::refusal(c) == Some(Refusal::InvalidSize(s@))
            <==> filter::bytes_in(filter::without_op(s@)) is None),
        c.size is None || filter::bytes_in(filter::without_op(c.size->0@)) is Some ==> (
        c.mtime matches Some(s) ==> (setup::refusal(c) == Some(Refusal::InvalidTime(s@))
            <==> text::signed_in(filter::without_op(s@)) is None)),
{
    missing_is_a_placeholder(
        command::views(c.args@),
        c.list_all,
        setup::extra_start(c.args@.len()),
    );
}

/// Where the options are in order, an expression that cannot be parsed is refused,
/// whatever the arguments are.
pub proof fn unreadable_expression_is_refused(c: Cli, s: String)
    requires
        setup::options_refusal(c) is None,
        c.expr == Some(s),
        s@.len() > 0,
    ensures
        parser::parsed_text(s@) matches Err(f) ==> setup::refusal(c) == Some(Refusal::Expr(f)),
        parser::parsed_text(s@) is Ok ==> !(setup::refusal(c) matches Some(Refusal::Expr(_))),
{
    missing_is_a_placeholder(
        command::views(c.args@),
        c.list_all,
        setup::extra_start(c.args@.len()),
    );
}

/// Where options and expression are in order, three arguments are needed, or two beside
/// an expression that is not empty.
pub proof fn arguments_are_needed(c: Cli)
    requires
        setup::options_refusal(c) is None,
        c.expr matches Some(s) ==> s@.len() > 0 ==> parser::parsed_text(s@) is Ok,
    ensures
        c.expr is None || c.expr->0@.len() == 0 ==> (setup::refusal(c) == Some(Refusal::TooFew)
            <==> c.args@.len() < 3),
        c.expr is Some && c.expr->0@.len() > 0 ==> (setup::refusal(c) == Some(
            Refusal::TooFewWithExpr,
        ) <==> c.args@.len() < 2),
{
    missing_is_a_placeholder(
        command::views(c.args@),
        c.list_all,
        setup::extra_start(c.args@.len()),
    );
}

proof fn missing_is_a_placeholder(args: Seq<Seq<char>>, list_all: bool, start: nat)
    ensures
        setup::missing_placeholder(args, list_all, start) matches Some(r) ==> r is NoPlaceholder,
    decreases args.len() - start,
{
    if start < args.len() {
        missing_is_a_placeholder(args, list_all, start + 1);
    }
}

/// Where there are enough arguments, a search pattern that does not compile is refused
/// with the reason, and after it an exclude pattern that does not.
pub proof fn broken_patterns_are_refused(c: Cli)
    requires
        setup::options_refusal(c) is None,
        setup::expr_refusal(c) is None,
        setup::count_refusal(c) is None,
    ensures
        pattern::regex_error(setup::search_source_of(c), usize::BITS as nat) matches Some(reason)
            ==> setup::refusal(c) == Some(Refusal::InvalidRegex(setup::search_source_of(c), reason)),
        pattern::regex_error(setup::search_source_of(c), usize::BITS as nat) is None
            && setup::exclude_source_of(c) is Some ==> (pattern::regex_error(
            setup::exclude_source_of(c)->0,
            usize::BITS as nat,
        ) matches Some(reason) ==> setup::refusal(c) == Some(
            Refusal::InvalidExclude(setup::exclude_source_of(c)->0, reason),
        )),
{
}

/// A run starts exactly where the type is known, size and time can be read, so can the
/// expression, there are enough arguments, the patterns compile, and the command has a
/// placeholder for each extra argument.
pub proof fn run_starts_where_nothing_is_wrong(c: Cli)
    ensures
        setup::refusal(c) is None <==> {
            &&& c.type_filter matches Some(t) ==> t == 'f' || t == 'd' || t == 'l'
            &&& c.size matches Some(s) ==> filter::bytes_in(filter::without_op(s@)) is Some
            &&& c.mtime matches Some(s) ==> text::signed_in(filter::without_op(s@)) is Some
            &&& c.expr matches Some(s) ==> s@.len() > 0 ==> parser::parsed_text(s@) is Ok
            &&& c.args@.len() >= 3 || (c.args@.len() >= 2 && c.expr is Some && c.expr->0@.len() > 0)
            &&& pattern::regex_error(setup::search_source_of(c), usize::BITS as nat) is None
            &&& setup::exclude_source_of(c) matches Some(source) ==> pattern::regex_error(
                source,
                usize::BITS as nat,
            ) is None
            &&& setup::extra_refusal(c) is None
        },
        setup::extra_refusal(c) == setup::missing_placeholder(
            command::views(c.args@),
            c.list_all,
            setup::extra_start(c.args@.len()),
        ),
{
}

// ---------------------------------------------------------------------------
// The run
// ---------------------------------------------------------------------------

/// The run starts in the first argument, runs the second, and searches for what the
/// patterns and the expression say.
pub proof fn run_is_the_one_asked_for(p: Plan, c: Cli)
    requires
        c.args@.len() >= 2,
        setup::plan_of(p, c),
    ensures
        p.path@ == c.args@[0]@,
        p.command@ == c.args@[1]@,
        setup::options_of(p.opts, c),
        p.search.regex@ == setup::search_source_of(c),
        p.search.exclude is Some <==> setup::exclude_source_of(c) is Some,
        p.search.exclude matches Some(q) ==> setup::exclude_source_of(c) == Some(q@),
        p.search.expr is Some <==> c.expr is Some && c.expr->0@.len() > 0,
        p.search.expr matches Some(node) ==> parser::parsed_text(c.expr->0@) is Ok
            && expr::represents(*node, parser::parsed_text(c.expr->0@)->Ok_0),
        c.args@.len() >= 3 ==> p.args@.len() == c.args@.len() - 2 && forall|k: int|
            1 <= k < p.args@.len() ==> #[trigger] p.args@[k]@ == c.args@[k + 2]@,
        c.args@.len() == 2 ==> p.args@.len() == 1,
{
    let all = command::views(c.args@);
    let views = command::views(p.args@);
    assert(views.len() == p.args@.len());
    if c.args@.len() >= 3 {
        assert forall|k: int| 1 <= k < p.args@.len() implies #[trigger] p.args@[k]@ == c.args@[k
            + 2]@ by {
            assert(views[k] == p.args@[k]@);
            assert(setup::command_args(all)[k] == all[k + 2]);
            assert(all[k + 2] == c.args@[k + 2]@);
        }
    }
}

// ---------------------------------------------------------------------------
// Messages and limits
// ---------------------------------------------------------------------------

/// Sizes fit unless a size comes to be read that does not fit in 64 bits: without a
/// size, and with a type that is refused before it is read, they do.
pub proof fn only_large_sizes_do_not_fit(c: Cli)
    ensures
        c.size is None ==> setup::sizes_fit(c),
        c.type_filter matches Some(t) && t != 'f' && t != 'd' && t != 'l' ==> setup::sizes_fit(c),
        (c.type_filter matches Some(t) ==> t == 'f' || t == 'd' || t == 'l') ==> (
        c.size matches Some(s) ==> {
            &&& filter::bytes_in(filter::without_op(s@)) is None ==> setup::sizes_fit(c)
            &&& filter::bytes_in(filter::without_op(s@)) matches Some(n) ==> (setup::sizes_fit(c)
                <==> n <= 0xffff_ffff_ffff_ffff)
        }),
{
}

/// A message quotes what is wrong as it was written.
pub proof fn messages_quote_what_is_wrong(c: char, n: nat, s: Seq<char>, reason: Seq<char>)
    ensures
        setup::refusal_message(Refusal::InvalidType(c)) == "invalid type '"@.push(c)
            + "'. Use f (file), d (directory), or l (symlink)."@,
        setup::refusal_message(Refusal::InvalidSize(s)) == "invalid size value '"@ + s.push('\''),
        setup::refusal_message(Refusal::InvalidTime(s)) == "invalid time value '"@ + s.push('\''),
        setup::refusal_message(Refusal::InvalidPermission(s)) == "invalid permission filter '"@
            + s.push('\''),
        setup::refusal_message(Refusal::InvalidRegex(s, reason)) == "invalid regex '"@ + s + seq![
            '\'',
            ':',
            ' ',
        ] + reason,
        setup::refusal_message(Refusal::InvalidExclude(s, reason)) == "invalid exclude regex '"@ + s
            + seq!['\'', ':', ' '] + reason,
        setup::refusal_message(Refusal::NoPlaceholder(n, s)) == "command has no placeholder %"@
            + text::decimal(n) + " for extra argument \""@ + s.push('"'),
{
    reveal_strlit("'");
    reveal_strlit("': ");
    reveal_strlit("\"");
    assert(setup::refusal_message(Refusal::InvalidType(c)) =~= "invalid type '"@.push(c)
        + "'. Use f (file), d (directory), or l (symlink)."@);
    assert("invalid size value '"@ + s + "'"@ =~= "invalid size value '"@ + s.push('\''));
    assert("invalid time value '"@ + s + "'"@ =~= "invalid time value '"@ + s.push('\''));
    assert("invalid permission filter '"@ + s + "'"@ =~= "invalid permission filter '"@ + s.push(
        '\'',
    ));
    assert("': "@ =~= seq!['\'', ':', ' ']);
    assert(setup::refusal_message(Refusal::NoPlaceholder(n, s)) =~= "command has no placeholder %"@
        + text::decimal(n) + " for extra argument \""@ + s.push('"'));
}

} // verus!
