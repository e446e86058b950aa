//! Command templates and the placeholders in them.
use vstd::prelude::*;

use crate::path;
use crate::path::{name_extension, name_stem, path_name};
use crate::text;
use crate::text::{chars_of, contains_char, digit_of, join3};

verus! {

/// The characters of each string.
pub open spec fn views(v: Seq<String>) -> Seq<Seq<char>> {
    Seq::new(v.len(), |i: int| v[i]@)
}

/// The placeholder with the number `n`.
pub open spec fn placeholder(n: nat) -> Seq<char> {
    "%"@ + text::decimal(n)
}

/// A value in double quotes if it holds a space.
pub open spec fn quoted(v: Seq<char>) -> Seq<char> {
    if v.contains(' ') {
        "\""@ + v + "\""@
    } else {
        v
    }
}

/// The arguments as they are put in: in list-all mode each is quoted where it needs
/// it, else only the first, which is the matched path.
pub open spec fn values(args: Seq<Seq<char>>, list_all: bool) -> Seq<Seq<char>> {
    Seq::new(
        args.len(),
        |i: int|
            if list_all || i == 0 {
                quoted(args[i])
            } else {
                args[i]
            },
    )
}

/// The characters that name a placeholder after `%`: `0` for the list of files in
/// list-all mode; else, where there is a matched path, `0`, `b` and `e` for its
/// name, stem and extension.
pub open spec fn name_chars(list_all: bool, count: nat) -> Set<char> {
    if list_all {
        set!['0']
    } else if count == 0 {
        Set::empty()
    } else {
        set!['0', 'b', 'e']
    }
}

/// The number of the first placeholder: the matched path has the number one; in
/// list-all mode there is none, and that number is left unused.
pub open spec fn first_number(list_all: bool) -> nat {
    if list_all {
        2
    } else {
        1
    }
}

/// The numbers of the placeholders for `count` arguments.
pub open spec fn numbers(list_all: bool, count: nat) -> Set<nat> {
    Set::new(|n: nat| first_number(list_all) <= n <= count)
}

/// `t` starts with the digits of `n`.
pub open spec fn starts_with_number(t: Seq<char>, n: nat) -> bool {
    text::decimal(n).len() <= t.len() && t.take(text::decimal(n).len() as int) == text::decimal(n)
}

/// Of the numbers `among`, `n` is the longest that `t` starts with.
pub open spec fn longest(t: Seq<char>, among: Set<nat>, n: nat) -> bool {
    &&& among.contains(n)
    &&& starts_with_number(t, n)
    &&& forall|m: nat| #[trigger]
        among.contains(m) && starts_with_number(t, m) ==> text::decimal(m).len()
            <= text::decimal(n).len()
}

/// A part of a template: a character that stays, or a placeholder.
pub enum Part {
    Char(char),
    Name(char),
    Number(nat),
}

/// The part that a template starts with, and its length: `%` and a character that
/// is a name, `%` and a number, as long as possible, or else one character.
pub open spec fn part_at(s: Seq<char>, named: Set<char>, among: Set<nat>) -> (Part, nat) {
    if s[0] == '%' && s.len() > 1 && named.contains(s[1]) {
        (Part::Name(s[1]), 2)
    } else if s[0] == '%' && exists|n: nat| longest(s.skip(1), among, n) {
        let n = choose|n: nat| longest(s.skip(1), among, n);
        (Part::Number(n), 1 + text::decimal(n).len())
    } else {
        (Part::Char(s[0]), 1)
    }
}

/// What a part of a template stands for.
pub open spec fn meaning(
    part: Part,
    names: Map<char, Seq<char>>,
    values: Seq<Seq<char>>,
) -> Seq<char> {
    match part {
        Part::Char(c) => seq![c],
        Part::Name(c) => names[c],
        Part::Number(n) => values[n - 1],
    }
}

/// A template read once from left to right, each part as what it stands for. What
/// is put in is not read again.
pub open spec fn read(
    s: Seq<char>,
    names: Map<char, Seq<char>>,
    values: Seq<Seq<char>>,
    among: Set<nat>,
) -> Seq<char>
    decreases s.len(),
{
    if s.len() == 0 {
        s
    } else {
        let (part, n) = part_at(s, names.dom(), among);
        meaning(part, names, values) + read(s.skip(n as int), names, values, among)
    }
}

/// Reading a template comes upon the placeholder with the number `number`.
pub open spec fn mentions(
    s: Seq<char>,
    named: Set<char>,
    among: Set<nat>,
    number: nat,
) -> bool
    decreases s.len(),
{
    s.len() > 0 && {
        let (part, n) = part_at(s, named, among);
        part == Part::Number(number) || mentions(s.skip(n as int), named, among, number)
    }
}

/// What the named placeholders stand for: in list-all mode `%0` is the list of
/// files; else `%0`, `%b` and `%e` are the name, the stem and the extension of the
/// matched path.
pub open spec fn names_of(args: Seq<Seq<char>>, file_string: Option<Seq<char>>) -> Map<
    char,
    Seq<char>,
> {
    match file_string {
        Some(files) => map!['0' => files],
        None => if args.len() == 0 {
            Map::empty()
        } else {
            let name = path::name_or_empty(args[0]);
            map!['0' => name, 'b' => path::stem(name), 'e' => path::dotted_extension(name)]
        },
    }
}

/// The command for a template. `args[0]` is the matched path, and unused in
/// list-all mode, where `%0` stands for the list of all matched paths; the others
/// are the extra arguments `%2`, `%3` and so on.
pub open spec fn substituted(
    cmd: Seq<char>,
    args: Seq<Seq<char>>,
    file_string: Option<Seq<char>>,
) -> Seq<char> {
    read(
        cmd,
        names_of(args, file_string),
        values(args, file_string is Some),
        numbers(file_string is Some, args.len()),
    )
}

/// No two numbers are the longest that a text starts with.
pub proof fn longest_is_unique(t: Seq<char>, among: Set<nat>, m: nat, n: nat)
    requires
        longest(t, among, m),
        longest(t, among, n),
    ensures
        m == n,
{
    assert(text::decimal(m) =~= text::decimal(n));
    text::decimal_is_injective(m, n);
}

/// Quotes a value if it holds a space.
pub fn quote(v: &str) -> (s: String)
    ensures
        s@ == quoted(v@),
{
    if contains_char(v, ' ') {
        join3("\"", v, "\"")
    } else {
        v.to_owned()
    }
}

/// What the numbered placeholders stand for.
fn placeholder_values(args: &Vec<String>, list_all: bool) -> (vals: Vec<String>)
    ensures
        views(vals@) == values(views(args@), list_all),
{
    let mut vals: Vec<String> = Vec::new();
    let mut i: usize = 0;
    while i < args.len()
        invariant
            i <= args@.len(),
            vals@.len() == i,
            forall|j: int| 0 <= j < i ==> (#[trigger] vals@[j])@ == values(
                views(args@),
                list_all,
            )[j],
        decreases args@.len() - i,
    {
        let v: String = if list_all || i == 0 {
            quote(args[i].as_str())
        } else {
            args[i].clone()
        };
        vals.push(v);
        i += 1;
    }
    assert(views(vals@) =~= values(views(args@), list_all));
    vals
}

/// The longest number from `first` to `count` that stands in `v` at `from`, and
/// how many digits it has.
fn number_at(v: &Vec<char>, from: usize, first: usize, count: usize) -> (r: Option<(usize, usize)>)
    requires
        from <= v.len(),
        first >= 1,
    ensures
        ({
            let among = Set::new(|n: nat| first <= n <= count);
            match r {
                Some((n, digits)) => {
                    &&& longest(v@.skip(from as int), among, n as nat)
                    &&& digits == text::decimal(n as nat).len()
                    &&& digits <= v@.len() - from
                },
                None => !(exists|n: nat| longest(v@.skip(from as int), among, n)),
            }
        }),
{
    let ghost among = Set::new(|n: nat| first <= n <= count);
    let ghost t = v@.skip(from as int);
    let mut n: usize = 0;
    let mut k: usize = 0;
    let mut best: Option<(usize, usize)> = None;
    let mut more: bool = true;
    while more && from + k < v.len()
        invariant
            from + k <= v.len(),
            first >= 1,
            t == v@.skip(from as int),
            among == Set::new(|n: nat| first <= n <= count),
            k == 0 <==> n == 0,
            k > 0 ==> n <= count && text::decimal(n as nat) == t.take(k as int),
            best matches Some((b, digits)) ==> {
                &&& among.contains(b as nat)
                &&& digits == text::decimal(b as nat).len()
                &&& digits <= k
                &&& starts_with_number(t, b as nat)
            },
            forall|m: nat| #[trigger]
                among.contains(m) && starts_with_number(t, m) && text::decimal(m).len() <= k ==> {
                    &&& best matches Some((b, digits))
                    &&& text::decimal(m).len() <= digits
                },
            !more ==> forall|m: nat| #[trigger]
                among.contains(m) && starts_with_number(t, m) ==> text::decimal(m).len() <= k,
        decreases
            (if more {
                1int
            } else {
                0int
            }) + v.len() - k,
    {
        let c: char = v[from + k];
        assert(t[k as int] == c);
        assert(k == 0 ==> t[0] == c);
        let d: usize = match digit_of(c, 10) {
            Some(d) => d as usize,
            None => 10,
        };
        if d == 10 || (n == 0 && d == 0) || d > count || n > (count - d) / 10 {
            more = false;
            proof {
                assert forall|m: nat| #[trigger]
                    among.contains(m) && starts_with_number(t, m) implies text::decimal(m).len()
                    <= k by {
                    if text::decimal(m).len() > k {
                        no_longer_number(t, n as nat, k as int, m, count as nat);
                    }
                }
            }
        } else {
            proof {
                let whole = (n * 10 + d) as nat;
                digit_is_written(c, d as nat);
                if n > 0 {
                    assert(text::decimal(whole) == text::decimal(n as nat).push(c));
                } else {
                    assert(text::decimal(whole) =~= seq![c]);
                }
                assert(t.take(k + 1) =~= t.take(k as int).push(c));
                assert(text::decimal(whole) =~= t.take(k + 1));
            }
            n = n * 10 + d;
            k += 1;
            if n >= first {
                best = Some((n, k));
            }
            proof {
                assert forall|m: nat| #[trigger]
                    among.contains(m) && starts_with_number(t, m) && text::decimal(m).len()
                        <= k implies {
                    &&& best matches Some((b, digits))
                    &&& text::decimal(m).len() <= digits
                } by {
                    if text::decimal(m).len() == k {
                        text::decimal_is_injective(m, n as nat);
                    }
                }
            }
        }
    }
    proof {
        if best is None && exists|m: nat| longest(t, among, m) {
            let m = choose|m: nat| longest(t, among, m);
            assert(among.contains(m));
        }
    }
    best
}

/// A digit is written as itself.
proof fn digit_is_written(c: char, d: nat)
    requires
        text::is_digit(c, 10),
        d == c as nat - 48,
    ensures
        text::digit_char(d) == c,
{
}

/// After `k` digits that write `n`, no number up to `count` goes on with the next
/// character, if that is no digit or makes the number too large.
proof fn no_longer_number(t: Seq<char>, n: nat, k: int, m: nat, count: nat)
    requires
        k >= 0,
        1 <= m <= count,
        starts_with_number(t, m),
        text::decimal(m).len() > k,
        k == 0 <==> n == 0,
        k > 0 ==> text::decimal(n) == t.take(k),
    ensures
        text::is_digit(t[k], 10),
        k == 0 ==> t[0] as nat > 48,
        n * 10 + (t[k] as nat - 48) <= count,
{
    text::decimal_round_trip(m);
    text::decimal_starts_without_zero(m);
    assert(t[k] == text::decimal(m)[k]);
    assert(t[0] == text::decimal(m)[0]);
    let p = text::decimal_prefix(m, k + 1);
    let c = t[k];
    assert(text::decimal(m).take(k + 1) =~= t.take(k + 1));
    assert(t.take(k + 1) =~= t.take(k).push(c));
    if k > 0 {
        assert(text::decimal(p).len() == k + 1);
        assert(text::decimal(p).drop_last() =~= text::decimal(p / 10));
        assert(text::decimal(p).drop_last() =~= text::decimal(n));
        text::decimal_is_injective(p / 10, n);
        assert(text::decimal(p).last() == c);
    } else {
        assert(text::decimal(p)[0] == c);
        if p >= 10 {
            text::decimal_starts_without_zero(p / 10);
        }
    }
}

/// A part of a template.
pub enum Piece {
    Char(char),
    Name(char),
    Number(usize),
}

impl View for Piece {
    type V = Part;

    open spec fn view(&self) -> Part {
        match self {
            Piece::Char(c) => Part::Char(*c),
            Piece::Name(c) => Part::Name(*c),
            Piece::Number(n) => Part::Number(*n as nat),
        }
    }
}

/// The part of a template that stands at `i`, and where the next one starts.
fn piece_at(v: &Vec<char>, i: usize, list_all: bool, count: usize) -> (r: (Piece, usize))
    requires
        i < v.len(),
    ensures
        i < r.1 <= v@.len(),
        r.0 matches Piece::Name(c) ==> name_chars(list_all, count as nat).contains(c),
        r.0 matches Piece::Number(n) ==> numbers(list_all, count as nat).contains(n as nat),
        (r.0@, (r.1 - i) as nat) == part_at(
            v@.skip(i as int),
            name_chars(list_all, count as nat),
            numbers(list_all, count as nat),
        ),
{
    let ghost s = v@.skip(i as int);
    let c: char = v[i];
    if c != '%' {
        return (Piece::Char(c), i + 1);
    }
    if i + 1 < v.len() {
        let name: char = v[i + 1];
        let is_name: bool = if list_all {
            name == '0'
        } else {
            count > 0 && (name == '0' || name == 'b' || name == 'e')
        };
        if is_name {
            return (Piece::Name(name), i + 2);
        }
    }
    let first: usize = if list_all {
        2
    } else {
        1
    };
    proof {
        assert(s.skip(1) =~= v@.skip(i + 1));
        assert(Set::new(|n: nat| first <= n <= count) =~= numbers(list_all, count as nat));
    }
    match number_at(v, i + 1, first, count) {
        Some((n, digits)) => {
            proof {
                let among = numbers(list_all, count as nat);
                let chosen = choose|x: nat| longest(s.skip(1), among, x);
                longest_is_unique(s.skip(1), among, n as nat, chosen);
            }
            (Piece::Number(n), i + 1 + digits)
        },
        None => (Piece::Char(c), i + 1),
    }
}

/// Whether reading a template for `count` arguments comes upon the placeholder with
/// the number `number`.
pub fn has_placeholder(cmd: &str, list_all: bool, count: usize, number: usize) -> (b: bool)
    ensures
        b == mentions(
            cmd@,
            name_chars(list_all, count as nat),
            numbers(list_all, count as nat),
            number as nat,
        ),
{
    let v: Vec<char> = chars_of(cmd);
    let mut i: usize = 0;
    let ghost named = name_chars(list_all, count as nat);
    let ghost among = numbers(list_all, count as nat);
    assert(v@.skip(0) =~= v@);
    while i < v.len()
        invariant
            i <= v@.len(),
            v@ == cmd@,
            named == name_chars(list_all, count as nat),
            among == numbers(list_all, count as nat),
            mentions(cmd@, named, among, number as nat) == mentions(
                v@.skip(i as int),
                named,
                among,
                number as nat,
            ),
        decreases v@.len() - i,
    {
        let (piece, next): (Piece, usize) = piece_at(&v, i, list_all, count);
        assert(v@.skip(i as int).skip(next - i) =~= v@.skip(next as int));
        if let Piece::Number(n) = piece {
            if n == number {
                return true;
            }
        }
        i = next;
    }
    false
}

/// Fills in the placeholders of a command template.
pub fn substitute(cmd: &str, args: &Vec<String>, file_string: Option<&str>) -> (r: String)
    ensures
        r@ == substituted(
            cmd@,
            views(args@),
            match file_string {
                Some(files) => Some(files@),
                None => None,
            },
        ),
{
    let list_all: bool = file_string.is_some();
    let count: usize = args.len();
    let name: String = match file_string {
        Some(files) => files.to_owned(),
        None => if count == 0 {
            String::new()
        } else {
            path_name(args[0].as_str())
        },
    };
    let stem: String = name_stem(name.as_str());
    let extension: String = name_extension(name.as_str());
    let vals: Vec<String> = placeholder_values(args, list_all);
    let v: Vec<char> = chars_of(cmd);
    let mut r: String = String::new();
    let mut i: usize = 0;
    let ghost fs: Option<Seq<char>> = match file_string {
        Some(files) => Some(files@),
        None => None,
    };
    let ghost names = names_of(views(args@), fs);
    let ghost among = numbers(list_all, count as nat);
    proof {
        assert(names.dom() =~= name_chars(list_all, count as nat));
        assert(v@.skip(0) =~= v@);
        assert(r@ + substituted(cmd@, views(args@), fs) =~= substituted(
            cmd@,
            views(args@),
            fs,
        ));
    }
    while i < v.len()
        invariant
            i <= v@.len(),
            v@ == cmd@,
            list_all == fs is Some,
            count == args@.len(),
            names == names_of(views(args@), fs),
            names.dom() == name_chars(list_all, count as nat),
            among == numbers(list_all, count as nat),
            views(vals@) == values(views(args@), list_all),
            views(vals@).len() == args@.len(),
            names.dom().contains('0') ==> names['0'] == name@,
            names.dom().contains('b') ==> names['b'] == stem@,
            names.dom().contains('e') ==> names['e'] == extension@,
            substituted(cmd@, views(args@), fs) == r@ + read(
                v@.skip(i as int),
                names,
                views(vals@),
                among,
            ),
        decreases v@.len() - i,
    {
        let ghost before = r@;
        let ghost s = v@.skip(i as int);
        let (piece, next): (Piece, usize) = piece_at(&v, i, list_all, count);
        match piece {
            Piece::Char(c) => {
                r.push(c);
                assert(r@ =~= before + seq![c]);
            },
            Piece::Name(c) => {
                if c == '0' {
                    r.append(name.as_str());
                } else if c == 'b' {
                    r.append(stem.as_str());
                } else {
                    r.append(extension.as_str());
                }
            },
            Piece::Number(n) => {
                assert(numbers(list_all, count as nat).contains(n as nat));
                r.append(vals[n - 1].as_str());
                assert(views(vals@)[n - 1] == vals@[n - 1]@);
            },
        }
        proof {
            assert(s.skip(next - i) =~= v@.skip(next as int));
            let put_in = meaning(piece@, names, views(vals@));
            assert(r@ =~= before + put_in);
            let rest = read(v@.skip(next as int), names, views(vals@), among);
            assert(before + (put_in + rest) =~= r@ + rest);
        }
        i = next;
    }
    proof {
        assert(v@.skip(i as int) =~= Seq::<char>::empty());
        assert(r@ + Seq::<char>::empty() =~= r@);
    }
    r
}

} // verus!
