//! What filling in a command template amounts to.
use vstd::prelude::*;

use crate::command;
#[allow(unused_imports)]
use crate::command::Part;
use crate::path;
use crate::text;

verus! {

/// Text without a percent sign is read as itself.
proof fn plain_text_is_kept(
    w: Seq<char>,
    t: Seq<char>,
    names: Map<char, Seq<char>>,
    values: Seq<Seq<char>>,
    among: Set<nat>,
)
    requires
        !w.contains('%'),
    ensures
        command::read(w + t, names, values, among) == w + command::read(t, names, values, among),
    decreases w.len(),
{
    let rest = command::read(t, names, values, among);
    if w.len() == 0 {
        assert(w + t =~= t);
        assert(w + rest =~= rest);
    } else {
        assert(w.contains(w[0]));
        assert(!w.skip(1).contains('%')) by {
            if w.skip(1).contains('%') {
                let i = choose|i: int| 0 <= i < w.skip(1).len() && w.skip(1)[i] == '%';
                assert(w[i + 1] == '%');
            }
        }
        assert((w + t).skip(1) =~= w.skip(1) + t);
        plain_text_is_kept(w.skip(1), t, names, values, among);
        assert(seq![w[0]] + (w.skip(1) + rest) =~= w + rest);
    }
}

/// The command is the template read once from left to right: text without a percent
/// sign stays, the part after it becomes what it stands for, whatever that holds,
/// and the rest of the template is read the same way.
pub proof fn substitution_is_one_reading(
    w: Seq<char>,
    t: Seq<char>,
    args: Seq<Seq<char>>,
    file_string: Option<Seq<char>>,
)
    requires
        !w.contains('%'),
        t.len() > 0,
    ensures
        ({
            let names = command::names_of(args, file_string);
            let values = command::values(args, file_string is Some);
            let (part, n) = command::part_at(
                t,
                names.dom(),
                command::numbers(file_string is Some, args.len()),
            );
            command::substituted(w + t, args, file_string) == w + command::meaning(
                part,
                names,
                values,
            ) + command::substituted(t.skip(n as int), args, file_string)
        }),
{
    let names = command::names_of(args, file_string);
    let values = command::values(args, file_string is Some);
    let among = command::numbers(file_string is Some, args.len());
    plain_text_is_kept(w, t, names, values, among);
    let (part, n) = command::part_at(t, names.dom(), among);
    let put_in = command::meaning(part, names, values);
    let rest = command::substituted(t.skip(n as int), args, file_string);
    assert(w + (put_in + rest) =~= w + put_in + rest);
}

/// What a name stands for is put in as it is, and reading goes on after the
/// placeholder: percent signs in what was put in mean nothing.
pub proof fn inserted_text_is_not_read_again(
    c: char,
    rest: Seq<char>,
    args: Seq<Seq<char>>,
    file_string: Option<Seq<char>>,
)
    requires
        command::names_of(args, file_string).dom().contains(c),
    ensures
        command::substituted(seq!['%', c] + rest, args, file_string) == command::names_of(
            args,
            file_string,
        )[c] + command::substituted(rest, args, file_string),
{
    let s = seq!['%', c] + rest;
    assert(s.skip(2) =~= rest);
}

/// A template without a percent sign is its own command.
pub proof fn plain_template_is_unchanged(
    cmd: Seq<char>,
    args: Seq<Seq<char>>,
    file_string: Option<Seq<char>>,
)
    requires
        !cmd.contains('%'),
    ensures
        command::substituted(cmd, args, file_string) == cmd,
{
    let none = Seq::<char>::empty();
    plain_text_is_kept(
        cmd,
        none,
        command::names_of(args, file_string),
        command::values(args, file_string is Some),
        command::numbers(file_string is Some, args.len()),
    );
    assert(cmd + none =~= cmd);
}

/// A numbered placeholder alone becomes its value, however many digits its number
/// has: `%10` is the tenth, not the first and a zero.
pub proof fn numbered_placeholder_alone(
    n: nat,
    args: Seq<Seq<char>>,
    file_string: Option<Seq<char>>,
)
    requires
        command::first_number(file_string is Some) <= n <= args.len(),
    ensures
        command::substituted(command::placeholder(n), args, file_string) == command::values(
            args,
            file_string is Some,
        )[n - 1],
{
    reveal_strlit("%");
    let s = command::placeholder(n);
    let t = text::decimal(n);
    let among = command::numbers(file_string is Some, args.len());
    let names = command::names_of(args, file_string);
    text::decimal_starts_without_zero(n);
    assert(s.skip(1) =~= t);
    assert(s[1] == t[0]);
    assert(t.take(t.len() as int) =~= t);
    assert(command::longest(t, among, n));
    let chosen = choose|x: nat| command::longest(s.skip(1), among, x);
    command::longest_is_unique(t, among, n, chosen);
    assert(!names.dom().contains(s[1]));
    assert(s.skip(1 + t.len() as int) =~= Seq::<char>::empty());
    let v = command::values(args, file_string is Some)[n - 1];
    let rest = command::substituted(Seq::empty(), args, file_string);
    assert(rest =~= Seq::<char>::empty());
    assert(v + rest =~= v);
}

/// In list-all mode the first argument makes no difference.
pub proof fn first_slot_is_unused_in_list_all(
    cmd: Seq<char>,
    args: Seq<Seq<char>>,
    other: Seq<char>,
    files: Seq<char>,
)
    requires
        args.len() > 0,
    ensures
        command::substituted(cmd, args, Some(files)) == command::substituted(
            cmd,
            args.update(0, other),
            Some(files),
        ),
    decreases cmd.len(),
{
    if cmd.len() > 0 {
        let among = command::numbers(true, args.len());
        let named = command::names_of(args, Some(files)).dom();
        let (part, n) = command::part_at(cmd, named, among);
        first_slot_is_unused_in_list_all(cmd.skip(n as int), args, other, files);
        if let Part::Number(m) = part {
            assert(among.contains(m));
            assert(args.update(0, other)[m - 1] == args[m - 1]);
        }
    }
}

/// The value of a placeholder that the template mentions is in the command.
pub proof fn mentioned_value_is_put_in(
    cmd: Seq<char>,
    number: nat,
    args: Seq<Seq<char>>,
    file_string: Option<Seq<char>>,
)
    requires
        command::mentions(
            cmd,
            command::names_of(args, file_string).dom(),
            command::numbers(file_string is Some, args.len()),
            number,
        ),
    ensures
        text::occurs_in(
            command::substituted(cmd, args, file_string),
            command::values(args, file_string is Some)[number - 1],
        ),
    decreases cmd.len(),
{
    let names = command::names_of(args, file_string);
    let values = command::values(args, file_string is Some);
    let among = command::numbers(file_string is Some, args.len());
    let (part, n) = command::part_at(cmd, names.dom(), among);
    let put_in = command::meaning(part, names, values);
    let rest = command::substituted(cmd.skip(n as int), args, file_string);
    let whole = command::substituted(cmd, args, file_string);
    let v = values[number - 1];
    assert(whole == put_in + rest);
    if part == Part::Number(number) {
        assert(whole.subrange(0, v.len() as int) =~= v);
        assert(text::occurs_at(whole, v, 0));
    } else {
        mentioned_value_is_put_in(cmd.skip(n as int), number, args, file_string);
        let i = choose|i: int| text::occurs_at(rest, v, i);
        let at = put_in.len() + i;
        assert(whole.subrange(at, at + v.len()) =~= rest.subrange(i, i + v.len()));
        assert(text::occurs_at(whole, v, at));
    }
}

/// A template mentions a placeholder wherever it stands alone between text without
/// percent signs and text that starts with no digit.
pub proof fn placeholder_is_mentioned(
    w: Seq<char>,
    n: nat,
    rest: Seq<char>,
    list_all: bool,
    count: nat,
)
    requires
        !w.contains('%'),
        command::first_number(list_all) <= n <= count,
        rest.len() > 0 ==> !text::is_digit(rest[0], 10),
    ensures
        command::mentions(
            w + command::placeholder(n) + rest,
            command::name_chars(list_all, count),
            command::numbers(list_all, count),
            n,
        ),
    decreases w.len(),
{
    let named = command::name_chars(list_all, count);
    let among = command::numbers(list_all, count);
    let s = w + command::placeholder(n) + rest;
    if w.len() > 0 {
        assert(w.contains(w[0]));
        assert(!w.skip(1).contains('%')) by {
            if w.skip(1).contains('%') {
                let i = choose|i: int| 0 <= i < w.skip(1).len() && w.skip(1)[i] == '%';
                assert(w[i + 1] == '%');
            }
        }
        placeholder_is_mentioned(w.skip(1), n, rest, list_all, count);
        assert(s.skip(1) =~= w.skip(1) + command::placeholder(n) + rest);
    } else {
        reveal_strlit("%");
        let t = s.skip(1);
        let d = text::decimal(n);
        text::decimal_starts_without_zero(n);
        assert(t =~= d + rest);
        assert(t.take(d.len() as int) =~= d);
        assert(s[1] == d[0]);
        assert forall|m: nat| #[trigger]
            among.contains(m) && command::starts_with_number(t, m) implies text::decimal(m).len()
            <= d.len() by {
            if text::decimal(m).len() > d.len() {
                text::decimal_round_trip(m);
                assert(t[d.len() as int] == text::decimal(m)[d.len() as int]);
                assert(t[d.len() as int] == rest[0]);
            }
        }
        assert(command::longest(t, among, n));
        let chosen = choose|x: nat| command::longest(t, among, x);
        command::longest_is_unique(t, among, n, chosen);
    }
}

/// A value with a space anywhere in it is put in double quotes, and any other value
/// is put in as it is.
pub proof fn spaces_ask_for_quotes(v: Seq<char>)
    ensures
        (exists|i: int| 0 <= i < v.len() && #[trigger] v[i] == ' ') ==> command::quoted(v).len()
            == v.len() + 2 && command::quoted(v)[0] == '"' && command::quoted(v).last() == '"'
            && command::quoted(v).subrange(1, v.len() as int + 1) == v,
        (forall|i: int| 0 <= i < v.len() ==> #[trigger] v[i] != ' ') ==> command::quoted(v) == v,
{
    reveal_strlit("\"");
    if v.contains(' ') {
        assert(command::quoted(v).subrange(1, v.len() as int + 1) =~= v);
    }
}

/// `%1` is the matched path, in double quotes where it holds a space anywhere; the
/// rest of the template goes on after it.
pub proof fn matched_path_is_put_in(args: Seq<Seq<char>>, rest: Seq<char>)
    requires
        args.len() > 0,
        rest.len() == 0 || !(48 <= rest[0] as nat <= 57),
    ensures
        command::substituted(seq!['%', '1'] + rest, args, None) == (if args[0].contains(' ') {
            seq!['"'] + args[0] + seq!['"']
        } else {
            args[0]
        }) + command::substituted(rest, args, None),
{
    number_then_rest(1, rest, args, None);
    reveal_strlit("\"");
    reveal_strlit("%");
    assert("\""@ =~= seq!['"']);
    assert(text::decimal(1) =~= seq!['1']);
    assert(command::placeholder(1) + rest =~= seq!['%', '1'] + rest);
}

/// `%2`, `%3` and so on, however many digits the number has, are the extra arguments:
/// as they are in the command for a match, in double quotes where they hold a space
/// in the command for all matches. The rest of the template goes on after them.
pub proof fn extra_argument_is_put_in(
    n: nat,
    rest: Seq<char>,
    args: Seq<Seq<char>>,
    file_string: Option<Seq<char>>,
)
    requires
        2 <= n <= args.len(),
        rest.len() == 0 || !(48 <= rest[0] as nat <= 57),
    ensures
        command::substituted(seq!['%'] + text::decimal(n) + rest, args, file_string) == (
        if file_string is Some && args[n - 1].contains(' ') {
            seq!['"'] + args[n - 1] + seq!['"']
        } else {
            args[n - 1]
        }) + command::substituted(rest, args, file_string),
{
    number_then_rest(n, rest, args, file_string);
    reveal_strlit("\"");
    reveal_strlit("%");
    assert("\""@ =~= seq!['"']);
    assert(command::placeholder(n) + rest =~= seq!['%'] + text::decimal(n) + rest);
}

proof fn number_then_rest(
    n: nat,
    rest: Seq<char>,
    args: Seq<Seq<char>>,
    file_string: Option<Seq<char>>,
)
    requires
        command::first_number(file_string is Some) <= n <= args.len(),
        rest.len() == 0 || !(48 <= rest[0] as nat <= 57),
    ensures
        command::substituted(command::placeholder(n) + rest, args, file_string) == command::values(
            args,
            file_string is Some,
        )[n - 1] + command::substituted(rest, args, file_string),
{
    reveal_strlit("%");
    let s = command::placeholder(n) + rest;
    let t = s.skip(1);
    let d = text::decimal(n);
    let among = command::numbers(file_string is Some, args.len());
    let names = command::names_of(args, file_string);
    text::decimal_starts_without_zero(n);
    assert(t =~= d + rest);
    assert(t.take(d.len() as int) =~= d);
    assert(s[1] == d[0]);
    assert(!names.dom().contains(s[1]));
    assert forall|m: nat| #[trigger]
        among.contains(m) && command::starts_with_number(t, m) implies text::decimal(m).len()
        <= d.len() by {
        if text::decimal(m).len() > d.len() {
            text::decimal_round_trip(m);
            assert(t[d.len() as int] == text::decimal(m)[d.len() as int]);
            assert(t[d.len() as int] == rest[0]);
        }
    }
    assert(command::longest(t, among, n));
    let chosen = choose|x: nat| command::longest(t, among, x);
    command::longest_is_unique(t, among, n, chosen);
    assert(s.skip(1 + d.len() as int) =~= rest);
}

/// In the command for a match `%0`, `%b` and `%e` are, for the path of an entry whose
/// name has a last dot that does not come first: the name, what is before that dot,
/// and the dot with what is after it.
pub proof fn parts_of_the_path_are_put_in(
    dir: Seq<char>,
    before: Seq<char>,
    after: Seq<char>,
    extra: Seq<Seq<char>>,
    rest: Seq<char>,
)
    requires
        before.len() > 0,
        !before.contains('/'),
        !after.contains('/'),
        !after.contains('.'),
        !(before == seq!['.'] && after.len() == 0),
    ensures
        ({
            let args = seq![dir + seq!['/'] + before + seq!['.'] + after] + extra;
            &&& command::substituted(seq!['%', '0'] + rest, args, None) == before + seq!['.']
                + after + command::substituted(rest, args, None)
            &&& command::substituted(seq!['%', 'b'] + rest, args, None) == before
                + command::substituted(rest, args, None)
            &&& command::substituted(seq!['%', 'e'] + rest, args, None) == seq!['.'] + after
                + command::substituted(rest, args, None)
        }),
{
    let name = before + seq!['.'] + after;
    let matched = dir + seq!['/'] + before + seq!['.'] + after;
    let args = seq![matched] + extra;
    assert(args[0] == matched);
    assert(matched =~= dir + seq!['/'] + name);
    assert(name[before.len() as int] == '.');
    assert(name != seq!['.']);
    if name == seq!['.', '.'] {
        assert(name.len() == 2);
        assert(name[0] == before[0]);
        assert(before =~= seq!['.']);
        assert(after.len() == 0);
    }
    assert(!name.contains('/')) by {
        if name.contains('/') {
            let i = choose|i: int| 0 <= i < name.len() && name[i] == '/';
            if i < before.len() {
                assert(before[i] == '/');
            } else if i > before.len() {
                assert(after[i - before.len() - 1] == '/');
            }
        }
    }
    path::file_name_of_an_entry(dir, name);
    path::name_splits_at_its_last_dot(before, after);
    inserted_text_is_not_read_again('0', rest, args, None);
    inserted_text_is_not_read_again('b', rest, args, None);
    inserted_text_is_not_read_again('e', rest, args, None);
}

/// For a name without such a dot `%0` and `%b` are the name, and `%e` is nothing.
pub proof fn name_without_extension_is_put_in(
    dir: Seq<char>,
    name: Seq<char>,
    extra: Seq<Seq<char>>,
    rest: Seq<char>,
)
    requires
        name.len() > 0,
        !name.contains('/'),
        name != seq!['.'],
        forall|i: int| 0 < i < name.len() ==> name[i] != '.',
    ensures
        ({
            let args = seq![dir + seq!['/'] + name] + extra;
            &&& command::substituted(seq!['%', '0'] + rest, args, None) == name
                + command::substituted(rest, args, None)
            &&& command::substituted(seq!['%', 'b'] + rest, args, None) == name
                + command::substituted(rest, args, None)
            &&& command::substituted(seq!['%', 'e'] + rest, args, None) == command::substituted(
                rest,
                args,
                None,
            )
        }),
{
    let args = seq![dir + seq!['/'] + name] + extra;
    assert(args[0] == dir + seq!['/'] + name);
    if name == seq!['.', '.'] {
        assert(name[1] == '.');
    }
    path::file_name_of_an_entry(dir, name);
    path::name_without_a_dot_is_its_stem(name);
    inserted_text_is_not_read_again('0', rest, args, None);
    inserted_text_is_not_read_again('b', rest, args, None);
    inserted_text_is_not_read_again('e', rest, args, None);
    assert(Seq::<char>::empty() + command::substituted(rest, args, None) =~= command::substituted(
        rest,
        args,
        None,
    ));
}

/// In the command for all matches `%0` is the list of files, and `%1`, `%b` and `%e`
/// stay as they are.
pub proof fn list_is_put_in(args: Seq<Seq<char>>, files: Seq<char>, rest: Seq<char>)
    requires
        rest.len() == 0 || !(48 <= rest[0] as nat <= 57),
    ensures
        command::substituted(seq!['%', '0'] + rest, args, Some(files)) == files
            + command::substituted(rest, args, Some(files)),
        command::substituted(seq!['%', '1'] + rest, args, Some(files)) == seq!['%', '1']
            + command::substituted(rest, args, Some(files)),
        command::substituted(seq!['%', 'b'] + rest, args, Some(files)) == seq!['%', 'b']
            + command::substituted(rest, args, Some(files)),
        command::substituted(seq!['%', 'e'] + rest, args, Some(files)) == seq!['%', 'e']
            + command::substituted(rest, args, Some(files)),
{
    inserted_text_is_not_read_again('0', rest, args, Some(files));
    percent_stays('1', rest, args, Some(files));
    percent_stays('b', rest, args, Some(files));
    percent_stays('e', rest, args, Some(files));
}

/// A percent sign stays, and so does the character after it, if that is neither a
/// digit, nor `b` or `e`, nor another percent sign, whatever comes then.
pub proof fn other_percent_signs_stay(
    c: char,
    rest: Seq<char>,
    args: Seq<Seq<char>>,
    file_string: Option<Seq<char>>,
)
    requires
        !(48 <= c as nat <= 57),
        c != 'b' && c != 'e' && c != '%',
    ensures
        command::substituted(seq!['%', c] + rest, args, file_string) == seq!['%', c]
            + command::substituted(rest, args, file_string),
        command::substituted(seq!['%'], args, file_string) == seq!['%'],
        command::substituted(seq!['%', '%'] + rest, args, file_string) == seq!['%']
            + command::substituted(seq!['%'] + rest, args, file_string),
{
    percent_stays(c, rest, args, file_string);
    let one = seq!['%'];
    assert(one.skip(1) =~= Seq::<char>::empty());
    assert(command::substituted(Seq::empty(), args, file_string) =~= Seq::<char>::empty());
    let among = command::numbers(file_string is Some, args.len());
    no_number_starts(one.skip(1), among);
    assert(seq!['%'] + Seq::<char>::empty() =~= seq!['%']);
    let two = seq!['%', '%'] + rest;
    assert(two.skip(1) =~= seq!['%'] + rest);
    no_number_starts(two.skip(1), among);
}

/// No number starts where no digit from one to nine does.
proof fn no_number_starts(t: Seq<char>, among: Set<nat>)
    requires
        forall|n: nat| #[trigger] among.contains(n) ==> n >= 1,
        t.len() == 0 || !(49 <= t[0] as nat <= 57),
    ensures
        !(exists|n: nat| command::longest(t, among, n)),
{
    if exists|n: nat| command::longest(t, among, n) {
        let n = choose|n: nat| command::longest(t, among, n);
        assert(among.contains(n));
        text::decimal_starts_without_zero(n);
        text::decimal_round_trip(n);
        assert(text::is_digit(text::decimal(n)[0], 10));
        assert(t.take(text::decimal(n).len() as int)[0] == t[0]);
    }
}

proof fn percent_stays(
    c: char,
    rest: Seq<char>,
    args: Seq<Seq<char>>,
    file_string: Option<Seq<char>>,
)
    requires
        c != '%' && c != '0',
        file_string is None ==> c != 'b' && c != 'e',
        !(49 <= c as nat <= 57) || (c == '1' && file_string is Some && (rest.len() == 0 || !(48
            <= rest[0] as nat <= 57))),
    ensures
        command::substituted(seq!['%', c] + rest, args, file_string) == seq!['%', c]
            + command::substituted(rest, args, file_string),
{
    let s = seq!['%', c] + rest;
    let among = command::numbers(file_string is Some, args.len());
    let names = command::names_of(args, file_string);
    let t = s.skip(1);
    assert(t =~= seq![c] + rest);
    assert(t.skip(1) =~= rest);
    assert(!names.dom().contains(c));
    if c == '1' {
        if exists|n: nat| command::longest(t, among, n) {
            let n = choose|n: nat| command::longest(t, among, n);
            assert(among.contains(n));
            text::decimal_round_trip(n);
            let d = text::decimal(n);
            if d.len() > 1 {
                assert(text::is_digit(d[1], 10));
                assert(t.take(d.len() as int)[1] == t[1]);
            } else {
                assert(t.take(1)[0] == '1');
                assert(d =~= seq!['1']);
                assert(text::decimal(1) =~= seq!['1']);
                text::decimal_is_injective(n, 1);
            }
        }
    } else {
        no_number_starts(t, among);
    }
    let tail = command::substituted(rest, args, file_string);
    assert(command::substituted(t, args, file_string) == seq![c] + tail);
    assert(seq!['%'] + (seq![c] + tail) =~= seq!['%', c] + tail);
}

/// A number with more digits than the arguments have numbers for is read as far as
/// it names one: with the longest of its beginnings that does, and the digits after
/// that stay.
pub proof fn number_is_read_as_far_as_it_goes(
    n: nat,
    more: Seq<char>,
    rest: Seq<char>,
    args: Seq<Seq<char>>,
    file_string: Option<Seq<char>>,
)
    requires
        1 <= n <= args.len() < n * 10,
        file_string is Some ==> n >= 2,
        forall|i: int| 0 <= i < more.len() ==> 48 <= (#[trigger] more[i]) as nat <= 57,
        rest.len() == 0 || !(48 <= rest[0] as nat <= 57),
    ensures
        command::substituted(seq!['%'] + text::decimal(n) + more + rest, args, file_string)
            == command::substituted(seq!['%'] + text::decimal(n), args, file_string) + more
            + command::substituted(rest, args, file_string),
{
    reveal_strlit("%");
    let d = text::decimal(n);
    let s = seq!['%'] + d + more + rest;
    let t = s.skip(1);
    let among = command::numbers(file_string is Some, args.len());
    let names = command::names_of(args, file_string);
    text::decimal_starts_without_zero(n);
    assert(t =~= d + more + rest);
    assert(t.take(d.len() as int) =~= d);
    assert(s[1] == d[0]);
    assert(!names.dom().contains(s[1]));
    assert forall|m: nat| #[trigger]
        among.contains(m) && command::starts_with_number(t, m) implies text::decimal(m).len()
        <= d.len() by {
        if text::decimal(m).len() > d.len() {
            let k = d.len() as int;
            let p = text::decimal_prefix(m, k + 1);
            assert(text::decimal(m).take(k + 1) =~= t.take(k + 1));
            assert(text::decimal(p).len() == k + 1);
            assert(p >= 10);
            assert(text::decimal(p).drop_last() =~= text::decimal(p / 10));
            assert(text::decimal(p).drop_last() =~= d);
            text::decimal_is_injective(p / 10, n);
        }
    }
    assert(command::longest(t, among, n));
    let chosen = choose|x: nat| command::longest(t, among, x);
    command::longest_is_unique(t, among, n, chosen);
    assert(s.skip(1 + d.len() as int) =~= more + rest);
    assert(!more.contains('%')) by {
        if more.contains('%') {
            let i = choose|i: int| 0 <= i < more.len() && more[i] == '%';
            assert(48 <= more[i] as nat);
        }
    }
    plain_text_is_kept(more, rest, names, command::values(args, file_string is Some), among);
    numbered_placeholder_alone(n, args, file_string);
    assert(command::placeholder(n) =~= seq!['%'] + d);
    let v = command::values(args, file_string is Some)[n - 1];
    let tail = command::substituted(rest, args, file_string);
    assert(v + (more + tail) =~= v + more + tail);
}

/// A number whose first digit is already beyond the arguments is no placeholder: the
/// percent sign and the digit stay.
pub proof fn number_beyond_the_arguments_stays(
    d: nat,
    rest: Seq<char>,
    args: Seq<Seq<char>>,
    file_string: Option<Seq<char>>,
)
    requires
        args.len() < d < 10,
    ensures
        command::substituted(seq!['%', (48 + d) as char] + rest, args, file_string) == seq![
            '%',
            (48 + d) as char,
        ] + command::substituted(rest, args, file_string),
{
    let c = (48 + d) as char;
    let s = seq!['%', c] + rest;
    let among = command::numbers(file_string is Some, args.len());
    let t = s.skip(1);
    assert(t =~= seq![c] + rest);
    assert(t.skip(1) =~= rest);
    assert(!command::names_of(args, file_string).dom().contains(c));
    if exists|n: nat| command::longest(t, among, n) {
        let n = choose|n: nat| command::longest(t, among, n);
        assert(among.contains(n));
        text::decimal_starts_without_zero(n);
        let p = text::decimal_prefix(n, 1);
        assert(text::decimal(n).take(1)[0] == t[0]);
        assert(text::decimal(d) =~= seq![c]);
        assert(text::decimal(p) =~= text::decimal(d));
        text::decimal_is_injective(p, d);
    }
    let tail = command::substituted(rest, args, file_string);
    assert(command::substituted(t, args, file_string) == seq![c] + tail);
    assert(seq!['%'] + (seq![c] + tail) =~= seq!['%', c] + tail);
}

/// Without arguments and without a list a template is its own command.
pub proof fn template_without_arguments_is_unchanged(cmd: Seq<char>)
    ensures
        command::substituted(cmd, Seq::empty(), None) == cmd,
    decreases cmd.len(),
{
    if cmd.len() > 0 {
        let among = command::numbers(false, 0);
        assert(!(exists|n: nat| command::longest(cmd.skip(1), among, n))) by {
            if exists|n: nat| command::longest(cmd.skip(1), among, n) {
                let n = choose|n: nat| command::longest(cmd.skip(1), among, n);
                assert(among.contains(n));
            }
        }
        template_without_arguments_is_unchanged(cmd.skip(1));
        assert(seq![cmd[0]] + cmd.skip(1) =~= cmd);
    }
}

/// A command depends on an argument only where the template mentions its placeholder.
pub proof fn unmentioned_argument_makes_no_difference(
    cmd: Seq<char>,
    number: nat,
    args: Seq<Seq<char>>,
    other: Seq<char>,
    file_string: Option<Seq<char>>,
)
    requires
        2 <= number <= args.len(),
        !command::mentions(
            cmd,
            command::name_chars(file_string is Some, args.len()),
            command::numbers(file_string is Some, args.len()),
            number,
        ),
    ensures
        command::substituted(cmd, args, file_string) == command::substituted(
            cmd,
            args.update(number - 1, other),
            file_string,
        ),
    decreases cmd.len(),
{
    let named = command::name_chars(file_string is Some, args.len());
    let among = command::numbers(file_string is Some, args.len());
    let names = command::names_of(args, file_string);
    let args2 = args.update(number - 1, other);
    assert(names.dom() =~= named);
    assert(command::names_of(args2, file_string) =~= names);
    if cmd.len() > 0 {
        let (part, n) = command::part_at(cmd, named, among);
        unmentioned_argument_makes_no_difference(
            cmd.skip(n as int),
            number,
            args,
            other,
            file_string,
        );
        if let Part::Number(m) = part {
            assert(among.contains(m));
            assert(args2[m - 1] == args[m - 1]);
        }
    }
}

} // verus!
