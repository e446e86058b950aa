//! What a glob becomes, character by character.
use vstd::prelude::*;

use crate::glob;

verus! {

/// Text without an opening bracket leaves none open.
proof fn no_bracket_is_unclosed(a: Seq<char>)
    requires
        !a.contains('['),
    ensures
        !glob::has_unclosed(a),
    decreases a.len(),
{
    if a.len() > 0 {
        assert(a.contains(a[0]));
        assert(!a.skip(1).contains('[')) by {
            if a.skip(1).contains('[') {
                let i = choose|i: int| 0 <= i < a.skip(1).len() && a.skip(1)[i] == '[';
                assert(a[i + 1] == '[');
            }
        }
        no_bracket_is_unclosed(a.skip(1));
    }
}

/// The regular expression for a glob without its two anchors.
pub open spec fn inner(g: Seq<char>) -> Seq<char> {
    glob::glob_regex(g).subrange(1, glob::glob_regex(g).len() - 1)
}

proof fn inner_is_translated(g: Seq<char>)
    ensures
        inner(g) == glob::translated(g),
{
    assert(inner(g) =~= glob::translated(g));
}

/// After text without brackets, a star becomes `.*` and a question mark `.`, in their
/// place; what comes before and after is translated on its own.
pub proof fn wildcards_match_anything(a: Seq<char>, b: Seq<char>)
    requires
        !a.contains('['),
    ensures
        inner(a + seq!['*'] + b) == inner(a) + seq!['.', '*'] + inner(b),
        inner(a + seq!['?'] + b) == inner(a) + seq!['.'] + inner(b),
{
    no_bracket_is_unclosed(a);
    let star = seq!['*'] + b;
    let mark = seq!['?'] + b;
    assert(star.skip(1) =~= b);
    assert(mark.skip(1) =~= b);
    assert(a + seq!['*'] + b =~= a + star);
    assert(a + seq!['?'] + b =~= a + mark);
    glob::translation_of_a_join(a, star);
    glob::translation_of_a_join(a, mark);
    inner_is_translated(a);
    inner_is_translated(b);
    inner_is_translated(a + star);
    inner_is_translated(a + mark);
    assert(inner(a + star) =~= inner(a) + seq!['.', '*'] + inner(b));
    assert(inner(a + mark) =~= inner(a) + seq!['.'] + inner(b));
}

/// After text without brackets, each of the characters `.`, `\`, `+`, `^`, `$`, `|`,
/// `(`, `)`, `{` and `}` gets a backslash, and every character that is none of them,
/// no wildcard and no opening bracket stays as it is.
pub proof fn other_characters_match_themselves(a: Seq<char>, c: char, b: Seq<char>)
    requires
        !a.contains('['),
        c != '*' && c != '?' && c != '[',
    ensures
        inner(a + seq![c] + b) == inner(a) + (if c == '.' || c == '\\' || c == '+' || c == '^' || c
            == '$' || c == '|' || c == '(' || c == ')' || c == '{' || c == '}' {
            seq!['\\', c]
        } else {
            seq![c]
        }) + inner(b),
{
    no_bracket_is_unclosed(a);
    let t = seq![c] + b;
    assert(t.skip(1) =~= b);
    assert(a + seq![c] + b =~= a + t);
    glob::translation_of_a_join(a, t);
    inner_is_translated(a);
    inner_is_translated(b);
    inner_is_translated(a + t);
    assert(inner(a + t) =~= inner(a) + glob::translated_char(c) + inner(b));
}

/// An opening bracket gets a backslash where no class can start: no closing one comes
/// after it, not counting the character right after it, or after the mark of a
/// negated class.
pub proof fn lone_bracket_matches_itself(a: Seq<char>, b: Seq<char>)
    requires
        !a.contains('['),
        forall|i: int|
            0 <= i < b.len() && #[trigger] b[i] == ']' ==> i == 0 || (i == 1 && (b[0] == '!' || b[0]
                == '^')),
    ensures
        inner(a + seq!['['] + b) == inner(a) + seq!['\\', '['] + inner(b),
{
    no_bracket_is_unclosed(a);
    let t = seq!['['] + b;
    assert(t.skip(1) =~= b);
    assert(a + seq!['['] + b =~= a + t);
    assert(!glob::starts_class(t)) by {
        if glob::starts_class(t) {
            let m = glob::mark_len(b);
            let u = b.skip(m + 1);
            let i = choose|i: int| 0 <= i < u.len() && u[i] == ']';
            assert(b[m + 1 + i] == ']');
        }
    }
    glob::translation_of_a_join(a, t);
    inner_is_translated(a);
    inner_is_translated(b);
    inner_is_translated(a + t);
    assert(inner(a + t) =~= inner(a) + seq!['\\', '['] + inner(b));
}

proof fn doubled_without_backslash(b: Seq<char>)
    requires
        !b.contains('\\'),
    ensures
        glob::doubled(b) == b,
    decreases b.len(),
{
    if b.len() > 0 {
        let f = b.drop_last();
        assert(b[b.len() - 1] == b.last());
        assert(!f.contains('\\')) by {
            if f.contains('\\') {
                let i = choose|i: int| 0 <= i < f.len() && f[i] == '\\';
                assert(b[i] == '\\');
            }
        }
        doubled_without_backslash(f);
        assert(f.push(b.last()) =~= b);
    }
}

proof fn doubled_join(x: Seq<char>, y: Seq<char>)
    ensures
        glob::doubled(x + y) == glob::doubled(x) + glob::doubled(y),
    decreases y.len(),
{
    if y.len() == 0 {
        assert(x + y =~= x);
        assert(glob::doubled(x) + glob::doubled(y) =~= glob::doubled(x));
    } else {
        doubled_join(x, y.drop_last());
        assert((x + y).drop_last() =~= x + y.drop_last());
        assert(glob::doubled(x + y) =~= glob::doubled(x) + glob::doubled(y));
    }
}

proof fn class_between(a: Seq<char>, body: Seq<char>, b: Seq<char>)
    requires
        !a.contains('['),
        glob::is_body(body),
    ensures
        inner(a + seq!['['] + body + seq![']'] + b) == inner(a) + glob::translated_class(body)
            + inner(b),
{
    no_bracket_is_unclosed(a);
    let t = seq!['['] + body + seq![']'] + b;
    let s = a + seq!['['] + body + seq![']'] + b;
    assert(s =~= a + t);
    glob::translation_of_a_join(a, t);
    glob::class_is_passed_through(body, b);
    inner_is_translated(a);
    inner_is_translated(b);
    inner_is_translated(s);
    assert(inner(s) =~= inner(a) + glob::translated_class(body) + inner(b));
}

/// A class is passed through character by character: ranges, single characters and
/// a closing bracket that comes first. It ends at the first closing bracket after
/// its first character.
pub proof fn class_is_kept(a: Seq<char>, body: Seq<char>, b: Seq<char>)
    requires
        !a.contains('['),
        body.len() > 0,
        body[0] != '!' && body[0] != '^',
        !body.skip(1).contains(']'),
        !body.contains('\\'),
    ensures
        inner(a + seq!['['] + body + seq![']'] + b) == inner(a) + seq!['['] + body + seq![']']
            + inner(b),
{
    assert(body.skip(0) =~= body);
    class_between(a, body, b);
    doubled_without_backslash(body);
    assert(inner(a) + (seq!['['] + body + seq![']']) + inner(b) =~= inner(a) + seq!['['] + body
        + seq![']'] + inner(b));
}

/// A negated class is passed through character by character, with its mark, `!` or
/// `^`, written `^`.
pub proof fn negated_class_is_kept(a: Seq<char>, mark: char, body: Seq<char>, b: Seq<char>)
    requires
        !a.contains('['),
        mark == '!' || mark == '^',
        body.len() > 0,
        !body.skip(1).contains(']'),
        !body.contains('\\'),
    ensures
        inner(a + seq!['[', mark] + body + seq![']'] + b) == inner(a) + seq!['[', '^'] + body
            + seq![']'] + inner(b),
{
    let whole = seq![mark] + body;
    assert(whole.skip(1) =~= body);
    assert(whole[0] == mark);
    class_between(a, whole, b);
    doubled_without_backslash(body);
    assert(a + seq!['[', mark] + body + seq![']'] + b =~= a + seq!['['] + whole + seq![']'] + b);
    assert(inner(a) + (seq!['[', '^'] + body + seq![']']) + inner(b) =~= inner(a) + seq!['[', '^']
        + body + seq![']'] + inner(b));
}

/// A backslash in a class is doubled, wherever it stands there: around it the class
/// is what it is without it.
pub proof fn backslash_in_a_class_is_doubled(
    a: Seq<char>,
    x: Seq<char>,
    y: Seq<char>,
    b: Seq<char>,
)
    requires
        !a.contains('['),
        x.len() > 0,
        x[0] != '!' && x[0] != '^',
        !x.skip(1).contains(']'),
        !y.contains(']'),
    ensures
        ({
            let n = inner(a).len() as int;
            let m = inner(a + seq!['['] + x + seq![']']).len() - 1;
            let with = inner(a + seq!['['] + x + seq!['\\'] + y + seq![']'] + b);
            let without = inner(a + seq!['['] + x + y + seq![']'] + b);
            &&& with.take(m) == without.take(m)
            &&& with[m] == '\\' && with[m + 1] == '\\'
            &&& with.skip(m + 2) == without.skip(m)
            &&& n < m
        }),
{
    let slash = seq!['\\'];
    let xy = x + y;
    let xsy = x + slash + y;
    assert(x.skip(0) =~= x && xy.skip(0) =~= xy && xsy.skip(0) =~= xsy);
    assert(xy[0] == x[0] && xsy[0] == x[0]);
    assert(!xy.skip(1).contains(']')) by {
        if xy.skip(1).contains(']') {
            let i = choose|i: int| 0 <= i < xy.skip(1).len() && xy.skip(1)[i] == ']';
            if i + 1 < x.len() {
                assert(x.skip(1)[i] == ']');
            } else {
                assert(y[i + 1 - x.len()] == ']');
            }
        }
    }
    assert(!xsy.skip(1).contains(']')) by {
        if xsy.skip(1).contains(']') {
            let i = choose|i: int| 0 <= i < xsy.skip(1).len() && xsy.skip(1)[i] == ']';
            if i + 1 < x.len() {
                assert(x.skip(1)[i] == ']');
            } else if i + 1 > x.len() {
                assert(y[i - x.len()] == ']');
            }
        }
    }
    let none = Seq::<char>::empty();
    class_between(a, x, none);
    class_between(a, xy, b);
    class_between(a, xsy, b);
    assert(a + seq!['['] + x + seq![']'] + none =~= a + seq!['['] + x + seq![']']);
    assert(a + seq!['['] + x + y + seq![']'] + b =~= a + seq!['['] + xy + seq![']'] + b);
    assert(a + seq!['['] + x + slash + y + seq![']'] + b =~= a + seq!['['] + xsy + seq![']'] + b);
    doubled_join(x, y);
    doubled_join(x + slash, y);
    doubled_join(x, slash);
    assert(slash.drop_last() =~= none);
    assert(glob::doubled(none) =~= none);
    assert(glob::doubled(slash) =~= seq!['\\', '\\']);
    inner_is_translated(none);
    assert(inner(none) =~= none);
    let d = glob::doubled(x);
    let m = inner(a + seq!['['] + x + seq![']']).len() - 1;
    assert(m == inner(a).len() + 1 + d.len());
    let with = inner(a + seq!['['] + xsy + seq![']'] + b);
    let without = inner(a + seq!['['] + xy + seq![']'] + b);
    let tail = glob::doubled(y) + seq![']'] + inner(b);
    assert(with =~= inner(a) + seq!['['] + d + seq!['\\', '\\'] + tail);
    assert(without =~= inner(a) + seq!['['] + d + tail);
    assert(with.take(m) =~= without.take(m));
    assert(with.skip(m + 2) =~= without.skip(m));
}

/// The empty glob has nothing between its anchors.
pub proof fn nothing_becomes_nothing()
    ensures
        inner(Seq::empty()) == Seq::<char>::empty(),
{
    inner_is_translated(Seq::empty());
}

} // verus!
