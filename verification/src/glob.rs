//! Glob patterns and the regular expressions that stand for them.
use vstd::prelude::*;

use crate::text::chars_of;

verus! {

/// The characters that mean something in a regular expression and, alone, nothing
/// in a glob.
pub open spec fn is_regex_special(c: char) -> bool {
    ||| c == '.'
    ||| c == '\\'
    ||| c == '+'
    ||| c == '^'
    ||| c == '$'
    ||| c == '|'
    ||| c == '('
    ||| c == ')'
    ||| c == '{'
    ||| c == '}'
    ||| c == '['
}

/// The wildcards.
pub open spec fn is_wildcard(c: char) -> bool {
    c == '*' || c == '?'
}

/// What one character becomes that starts no class.
pub open spec fn translated_char(c: char) -> Seq<char> {
    if c == '*' {
        seq!['.', '*']
    } else if c == '?' {
        seq!['.']
    } else if is_regex_special(c) {
        seq!['\\', c]
    } else {
        seq![c]
    }
}

/// How many characters of `g` come before the first closing bracket.
pub open spec fn before_bracket(g: Seq<char>) -> nat
    decreases g.len(),
{
    if g.len() == 0 || g[0] == ']' {
        0
    } else {
        1 + before_bracket(g.skip(1))
    }
}

/// How many characters the mark of a negated class takes up at the start of `t`.
pub open spec fn mark_len(t: Seq<char>) -> int {
    if t.len() > 0 && (t[0] == '!' || t[0] == '^') {
        1
    } else {
        0
    }
}

/// `g` starts with a class: an opening bracket, perhaps the mark of a negated class,
/// at least one character, which can be a closing bracket, and a closing bracket.
pub open spec fn starts_class(g: Seq<char>) -> bool {
    &&& g.len() > 0
    &&& g[0] == '['
    &&& g.skip(1).len() > mark_len(g.skip(1))
    &&& g.skip(1).skip(mark_len(g.skip(1)) + 1).contains(']')
}

/// How many characters stand between the brackets of the class that `g` starts with.
pub open spec fn body_len(g: Seq<char>) -> int {
    let m = mark_len(g.skip(1));
    m + 1 + before_bracket(g.skip(1).skip(m + 1))
}

/// What stands between the brackets of the class that `g` starts with.
pub open spec fn class_body(g: Seq<char>) -> Seq<char> {
    g.skip(1).take(body_len(g))
}

/// What is left of `g` after the class that it starts with.
pub open spec fn after_class(g: Seq<char>) -> Seq<char> {
    g.skip(body_len(g) + 2)
}

/// The characters of a class, with each backslash doubled.
pub open spec fn doubled(body: Seq<char>) -> Seq<char>
    decreases body.len(),
{
    if body.len() == 0 {
        body
    } else if body.last() == '\\' {
        doubled(body.drop_last()) + seq!['\\', '\\']
    } else {
        doubled(body.drop_last()).push(body.last())
    }
}

/// A class in brackets: passed through, with the mark of a negated one written `^`.
pub open spec fn translated_class(body: Seq<char>) -> Seq<char> {
    if mark_len(body) == 1 {
        seq!['[', '^'] + doubled(body.skip(1)) + seq![']']
    } else {
        seq!['['] + doubled(body) + seq![']']
    }
}

/// A closing bracket that occurs is where it was found.
pub proof fn bracket_is_found(g: Seq<char>)
    ensures
        before_bracket(g) <= g.len(),
        forall|i: int| 0 <= i < before_bracket(g) ==> g[i] != ']',
        before_bracket(g) < g.len() ==> g[before_bracket(g) as int] == ']',
        g.contains(']') <==> before_bracket(g) < g.len(),
    decreases g.len(),
{
    if g.len() > 0 && g[0] != ']' {
        let t = g.skip(1);
        bracket_is_found(t);
        assert forall|i: int| 0 <= i < before_bracket(g) implies g[i] != ']' by {
            if i > 0 {
                assert(g[i] == t[i - 1]);
            }
        }
        if before_bracket(g) < g.len() {
            assert(g[before_bracket(g) as int] == t[before_bracket(t) as int]);
        }
        if g.contains(']') {
            let i = choose|i: int| 0 <= i < g.len() && g[i] == ']';
            assert(t[i - 1] == ']');
        }
    }
}

/// The translation of a glob, piece by piece.
pub open spec fn translated(g: Seq<char>) -> Seq<char>
    decreases g.len(),
{
    if g.len() == 0 {
        seq![]
    } else if starts_class(g) {
        proof {
            bracket_is_found(g.skip(1).skip(mark_len(g.skip(1)) + 1));
        }
        translated_class(class_body(g)) + translated(after_class(g))
    } else {
        translated_char(g[0]) + translated(g.skip(1))
    }
}

/// The regular expression for the glob `g`, anchored at both ends.
pub open spec fn glob_regex(g: Seq<char>) -> Seq<char> {
    seq!['^'] + translated(g) + seq!['$']
}

/// Whether a character means something in a regular expression and, alone, nothing
/// in a glob.
fn regex_special(c: char) -> (b: bool)
    ensures
        b == is_regex_special(c),
{
    c == '.' || c == '\\' || c == '+' || c == '^' || c == '$' || c == '|' || c == '(' || c == ')'
        || c == '{' || c == '}' || c == '['
}

/// Where the first closing bracket stands from `from` on, or the length.
fn find_bracket(chars: &Vec<char>, from: usize) -> (k: usize)
    requires
        from <= chars.len(),
    ensures
        k == from + before_bracket(chars@.skip(from as int)),
        k <= chars@.len(),
{
    let mut k: usize = from;
    while k < chars.len() && chars[k] != ']'
        invariant
            from <= k <= chars@.len(),
            from + before_bracket(chars@.skip(from as int)) == k + before_bracket(
                chars@.skip(k as int),
            ),
        decreases chars@.len() - k,
    {
        assert(chars@.skip(k as int).skip(1) =~= chars@.skip(k + 1));
        k += 1;
    }
    k
}

/// Where the class ends whose body starts at `from`, or the length where there is
/// no class.
fn find_class_end(chars: &Vec<char>, from: usize) -> (k: usize)
    requires
        1 <= from <= chars.len(),
        chars@[from - 1] == '[',
    ensures
        ({
            let g = chars@.skip(from - 1);
            if starts_class(g) {
                k == from + body_len(g) && k < chars@.len()
            } else {
                k == chars@.len()
            }
        }),
{
    let ghost g = chars@.skip(from - 1);
    let ghost t = chars@.skip(from as int);
    assert(g.skip(1) =~= t);
    let mut start: usize = from;
    if start < chars.len() && (chars[start] == '!' || chars[start] == '^') {
        start = start + 1;
    }
    assert(start == from + mark_len(t));
    if start == chars.len() {
        return chars.len();
    }
    let k: usize = find_bracket(chars, start + 1);
    proof {
        assert(t.skip(mark_len(t) + 1) =~= chars@.skip(start + 1));
        bracket_is_found(chars@.skip(start + 1));
    }
    k
}

/// Appends the class whose body is `chars[from..to]`.
fn push_class(out: &mut String, chars: &Vec<char>, from: usize, to: usize)
    requires
        from <= to <= chars.len(),
    ensures
        final(out)@ == old(out)@ + translated_class(chars@.subrange(from as int, to as int)),
{
    let ghost body = chars@.subrange(from as int, to as int);
    let negated: bool = from < to && (chars[from] == '!' || chars[from] == '^');
    assert(negated <==> mark_len(body) == 1);
    out.push('[');
    let mut i: usize = from;
    if negated {
        out.push('^');
        i = from + 1;
    }
    let ghost start = i as int;
    let ghost front = out@;
    assert(chars@.subrange(start, i as int) =~= Seq::<char>::empty());
    assert(front + doubled(Seq::<char>::empty()) =~= front);
    while i < to
        invariant
            from <= start <= i <= to <= chars.len(),
            out@ == front + doubled(chars@.subrange(start, i as int)),
        decreases to - i,
    {
        let c: char = chars[i];
        let ghost done = chars@.subrange(start, i as int);
        let ghost before = out@;
        if c == '\\' {
            out.push('\\');
        }
        out.push(c);
        proof {
            let more = chars@.subrange(start, i + 1);
            assert(more.drop_last() =~= done);
            assert(more.last() == c);
            if c == '\\' {
                assert(out@ =~= before + seq!['\\', '\\']);
            }
            assert(out@ =~= front + doubled(more));
        }
        i += 1;
    }
    out.push(']');
    proof {
        if negated {
            assert(body.skip(1) =~= chars@.subrange(start, to as int));
            assert(front =~= old(out)@ + seq!['[', '^']);
        } else {
            assert(body =~= chars@.subrange(start, to as int));
            assert(front =~= old(out)@ + seq!['[']);
        }
        assert(out@ =~= old(out)@ + translated_class(body));
    }
}

/// Converts a glob to the regular expression that stands for it.
///
/// `*` becomes `.*`, `?` becomes `.`, a class `[...]` is passed through with a
/// leading `!` or `^` written `^`, every other character that is special in a
/// regular expression is escaped, a bracket that starts no class among them, and
/// the result is anchored with `^` and `$`.
pub fn glob_to_regex(glob: &str) -> (r: String)
    ensures
        r@ == glob_regex(glob@),
{
    let chars: Vec<char> = chars_of(glob);
    let mut result: String = String::new();
    result.push('^');
    let mut i: usize = 0;
    assert(chars@.skip(0) =~= chars@);
    assert(result@ =~= seq!['^']);
    while i < chars.len()
        invariant
            i <= chars@.len(),
            chars@ == glob@,
            result@ + translated(chars@.skip(i as int)) == seq!['^'] + translated(glob@),
        decreases chars@.len() - i,
    {
        let c: char = chars[i];
        let ghost g = chars@.skip(i as int);
        let ghost before = result@;
        let ghost piece: Seq<char>;
        assert(g.skip(1) =~= chars@.skip(i + 1));
        let close: usize = if c == '[' {
            find_class_end(&chars, i + 1)
        } else {
            chars.len()
        };
        if close < chars.len() {
            push_class(&mut result, &chars, i + 1, close);
            proof {
                bracket_is_found(g.skip(1).skip(mark_len(g.skip(1)) + 1));
                assert(chars@.subrange(i + 1, close as int) =~= class_body(g));
                assert(after_class(g) =~= chars@.skip(close + 1));
                piece = translated_class(class_body(g));
            }
            i = close + 1;
        } else {
            assert(!starts_class(g));
            if c == '*' {
                result.push('.');
                result.push('*');
            } else if c == '?' {
                result.push('.');
            } else {
                if regex_special(c) {
                    result.push('\\');
                }
                result.push(c);
            }
            proof {
                piece = translated_char(c);
            }
            i += 1;
        }
        proof {
            let rest = translated(chars@.skip(i as int));
            assert(result@ =~= before + piece);
            assert(translated(g) == piece + rest);
            assert(before + (piece + rest) =~= result@ + rest);
        }
    }
    assert(chars@.skip(i as int) =~= Seq::<char>::empty());
    assert(result@ =~= seq!['^'] + translated(glob@));
    result.push('$');
    result
}

// ---------------------------------------------------------------------------
// Laws
// ---------------------------------------------------------------------------

/// Where reading a regular expression stands.
#[derive(Debug, Clone, Copy, PartialEq, Eq, Structural)]
pub enum Place {
    Outside,
    /// After the bracket that opens a class.
    Opened,
    /// After the mark of a negated class.
    Negated,
    /// After a character of a class.
    Inside,
}

/// Where reading stands after one character that is not escaped and starts no
/// escape. The first character of a class belongs to it even if it is a closing
/// bracket. An opening bracket inside a class is taken for an ordinary character.
pub open spec fn place_after(p: Place, c: char) -> Place {
    match p {
        Place::Outside => if c == '[' {
            Place::Opened
        } else {
            Place::Outside
        },
        Place::Opened => if c == '^' {
            Place::Negated
        } else {
            Place::Inside
        },
        Place::Negated => Place::Inside,
        Place::Inside => if c == ']' {
            Place::Outside
        } else {
            Place::Inside
        },
    }
}

/// A regular expression, read from the place `p` on, ends in the middle of an escape
/// or of a class, so that what is put after it would be taken in.
pub open spec fn is_left_open(r: Seq<char>, p: Place) -> bool
    decreases r.len(),
{
    if r.len() == 0 {
        p != Place::Outside
    } else if r[0] == '\\' {
        r.len() == 1 || is_left_open(
            r.skip(2),
            if p == Place::Outside {
                p
            } else {
                Place::Inside
            },
        )
    } else {
        is_left_open(r.skip(1), place_after(p, r[0]))
    }
}

proof fn open_after_a_join(a: Seq<char>, b: Seq<char>, p: Place)
    requires
        !is_left_open(a, p),
    ensures
        is_left_open(a + b, p) == is_left_open(b, Place::Outside),
    decreases a.len(),
{
    let s = a + b;
    if a.len() == 0 {
        assert(s =~= b);
    } else if a[0] == '\\' {
        assert(s.skip(2) =~= a.skip(2) + b);
        open_after_a_join(
            a.skip(2),
            b,
            if p == Place::Outside {
                p
            } else {
                Place::Inside
            },
        );
    } else {
        assert(s.skip(1) =~= a.skip(1) + b);
        open_after_a_join(a.skip(1), b, place_after(p, a[0]));
    }
}

/// Doubling its backslashes keeps the body of a class from closing it, and from
/// taking in what follows.
proof fn doubled_stays_inside(body: Seq<char>, rest: Seq<char>)
    requires
        !body.contains(']'),
    ensures
        is_left_open(doubled(body) + rest, Place::Inside) == is_left_open(rest, Place::Inside),
    decreases body.len(),
{
    if body.len() == 0 {
        assert(doubled(body) + rest =~= rest);
    } else {
        let c = body.last();
        let front = body.drop_last();
        assert(!front.contains(']')) by {
            if front.contains(']') {
                let i = choose|i: int| 0 <= i < front.len() && front[i] == ']';
                assert(body[i] == ']');
            }
        }
        assert(c != ']') by {
            assert(body[body.len() - 1] == c);
        }
        if c == '\\' {
            let more = seq!['\\', '\\'] + rest;
            doubled_stays_inside(front, more);
            assert(doubled(body) + rest =~= doubled(front) + more);
            assert(more.skip(2) =~= rest);
        } else {
            let more = seq![c] + rest;
            doubled_stays_inside(front, more);
            assert(doubled(body) + rest =~= doubled(front) + more);
            assert(more.skip(1) =~= rest);
        }
    }
}

/// The first character of a class comes first.
proof fn doubled_from_the_start(body: Seq<char>)
    requires
        body.len() > 0,
    ensures
        doubled(body) == doubled(body.take(1)) + doubled(body.skip(1)),
        doubled(body.take(1)) == (if body[0] == '\\' {
            seq!['\\', '\\']
        } else {
            seq![body[0]]
        }),
    decreases body.len(),
{
    let first = body.take(1);
    assert(first.drop_last() =~= Seq::<char>::empty());
    assert(doubled(first.drop_last()) =~= Seq::<char>::empty());
    assert(doubled(first) =~= if body[0] == '\\' {
        seq!['\\', '\\']
    } else {
        seq![body[0]]
    });
    if body.len() == 1 {
        assert(first =~= body);
        assert(doubled(body.skip(1)) =~= Seq::<char>::empty());
        assert(doubled(first) + doubled(body.skip(1)) =~= doubled(body));
    } else {
        doubled_from_the_start(body.drop_last());
        assert(body.drop_last().take(1) =~= first);
        assert(body.drop_last().skip(1) =~= body.skip(1).drop_last());
        assert(body.skip(1).last() == body.last());
        assert(doubled(body) =~= doubled(first) + doubled(body.skip(1)));
    }
}

/// The characters of a class, without the mark of a negated one.
pub open spec fn members(body: Seq<char>) -> Seq<char> {
    body.skip(mark_len(body))
}

/// What can stand between the brackets of a class: at least one character, of which
/// only the first can be a closing bracket.
pub open spec fn is_body(body: Seq<char>) -> bool {
    members(body).len() > 0 && !members(body).skip(1).contains(']')
}

proof fn class_is_closed(body: Seq<char>)
    requires
        is_body(body),
    ensures
        !is_left_open(translated_class(body), Place::Outside),
{
    let r = translated_class(body);
    let close = seq![']'];
    let inner = members(body);
    let tail = doubled(inner.skip(1)) + close;
    let all = doubled(inner) + close;
    let start: Place = if mark_len(body) == 1 {
        Place::Negated
    } else {
        Place::Opened
    };
    assert(close.skip(1) =~= Seq::<char>::empty());
    assert(!is_left_open(close.skip(1), Place::Outside));
    assert(!is_left_open(close, Place::Inside));
    doubled_stays_inside(inner.skip(1), close);
    doubled_from_the_start(inner);
    assert(all =~= doubled(inner.take(1)) + tail);
    if inner[0] == '\\' {
        assert(all.skip(2) =~= tail);
        assert(all[0] == '\\');
    } else {
        assert(all.skip(1) =~= tail);
        assert(all[0] == inner[0]);
    }
    assert(!is_left_open(all, start));
    assert(r[0] == '[');
    if mark_len(body) == 1 {
        let t = r.skip(1);
        assert(t[0] == '^');
        assert(t.skip(1) =~= all);
        assert(!is_left_open(t, Place::Opened));
    } else {
        assert(body.skip(0) =~= body);
        assert(r.skip(1) =~= all);
    }
}

/// The class that a glob starts with has a body that can stand there.
proof fn class_has_a_body(g: Seq<char>)
    requires
        starts_class(g),
    ensures
        is_body(class_body(g)),
        0 < body_len(g) < g.len() - 1,
        g[body_len(g) + 1] == ']',
        g == seq!['['] + class_body(g) + seq![']'] + after_class(g),
{
    let t = g.skip(1);
    let m = mark_len(t);
    let u = t.skip(m + 1);
    bracket_is_found(u);
    let body = class_body(g);
    assert(mark_len(body) == m) by {
        assert(body[0] == t[0]);
    }
    let rest = members(body).skip(1);
    assert(!rest.contains(']')) by {
        if rest.contains(']') {
            let i = choose|i: int| 0 <= i < rest.len() && rest[i] == ']';
            assert(u[i] == ']');
        }
    }
    assert(u[before_bracket(u) as int] == g[body_len(g) + 1]);
    assert(g =~= seq!['['] + body + seq![']'] + after_class(g));
}

/// A translated glob is never left open: no backslash and no bracket of it can take
/// in what comes after.
pub proof fn translation_is_complete(g: Seq<char>)
    ensures
        !is_left_open(translated(g), Place::Outside),
    decreases g.len(),
{
    if g.len() > 0 {
        if starts_class(g) {
            class_has_a_body(g);
            let body = class_body(g);
            class_is_closed(body);
            translation_is_complete(after_class(g));
            open_after_a_join(
                translated_class(body),
                translated(after_class(g)),
                Place::Outside,
            );
        } else {
            let piece = translated_char(g[0]);
            assert(!is_left_open(piece, Place::Outside)) by {
                reveal_with_fuel(is_left_open, 3);
            }
            translation_is_complete(g.skip(1));
            open_after_a_join(piece, translated(g.skip(1)), Place::Outside);
        }
    }
}

/// Every translated glob is anchored at both ends: it starts with `^` and ends with
/// a `$` that is neither escaped nor part of a class. Opening brackets inside a
/// class are passed through and count as ordinary characters here.
pub proof fn glob_regex_is_anchored(g: Seq<char>)
    ensures
        glob_regex(g).len() >= 2,
        glob_regex(g).first() == '^',
        glob_regex(g).last() == '$',
        !is_left_open(glob_regex(g).drop_last(), Place::Outside),
{
    translation_is_complete(g);
    let r = glob_regex(g).drop_last();
    assert(r =~= seq!['^'] + translated(g));
    assert(r.skip(1) =~= translated(g));
}

/// A bracket that is never closed is an ordinary character.
pub proof fn unclosed_bracket_is_escaped(g: Seq<char>)
    requires
        !g.contains(']'),
    ensures
        translated(seq!['['] + g) == seq!['\\', '['] + translated(g),
{
    let s = seq!['['] + g;
    assert(s.skip(1) =~= g);
}

/// An opening bracket stands in `g` outside classes.
pub open spec fn has_unclosed(g: Seq<char>) -> bool
    decreases g.len(),
{
    if g.len() == 0 {
        false
    } else if starts_class(g) {
        proof {
            bracket_is_found(g.skip(1).skip(mark_len(g.skip(1)) + 1));
        }
        has_unclosed(after_class(g))
    } else {
        g[0] == '[' || has_unclosed(g.skip(1))
    }
}

/// A glob is translated piece by piece: where the first piece leaves no bracket
/// open, the translation of the whole is that of the first followed by that of the
/// second.
pub proof fn translation_of_a_join(a: Seq<char>, b: Seq<char>)
    requires
        !has_unclosed(a),
    ensures
        translated(a + b) == translated(a) + translated(b),
    decreases a.len(),
{
    let s = a + b;
    if a.len() == 0 {
        assert(s =~= b);
        assert(translated(a) + translated(b) =~= translated(b));
    } else if starts_class(a) {
        let rest = after_class(a);
        let body = class_body(a);
        class_has_a_body(a);
        assert(s =~= seq!['['] + body + seq![']'] + (rest + b));
        class_is_passed_through(body, rest + b);
        translation_of_a_join(rest, b);
        assert(translated(s) =~= translated(a) + translated(b));
    } else {
        assert(s.skip(1) =~= a.skip(1) + b);
        translation_of_a_join(a.skip(1), b);
        assert(translated(s) =~= translated(a) + translated(b));
    }
}

/// A class is passed through in its place, whatever follows it.
pub proof fn class_is_passed_through(body: Seq<char>, b: Seq<char>)
    requires
        is_body(body),
    ensures
        translated(seq!['['] + body + seq![']'] + b) == translated_class(body) + translated(b),
{
    let s = seq!['['] + body + seq![']'] + b;
    let t = s.skip(1);
    let m = mark_len(body);
    let rest = members(body).skip(1);
    let u = t.skip(m + 1);
    assert(t =~= body + seq![']'] + b);
    assert(t[0] == body[0]);
    assert(mark_len(t) == m);
    assert(u =~= rest + seq![']'] + b);
    assert(u[rest.len() as int] == ']');
    bracket_is_found(u);
    assert(before_bracket(u) == rest.len()) by {
        if before_bracket(u) < rest.len() {
            assert(rest[before_bracket(u) as int] == ']');
        }
    }
    assert(class_body(s) =~= body);
    assert(after_class(s) =~= b);
}

/// Text in which nothing is special in a glob or in a regular expression is its
/// own translation.
pub proof fn translation_of_plain_text(g: Seq<char>)
    requires
        forall|i: int|
            0 <= i < g.len() ==> !is_wildcard(#[trigger] g[i]) && !is_regex_special(g[i]),
    ensures
        glob_regex(g) == seq!['^'] + g + seq!['$'],
{
    translated_plain_text(g);
}

proof fn translated_plain_text(g: Seq<char>)
    requires
        forall|i: int|
            0 <= i < g.len() ==> !is_wildcard(#[trigger] g[i]) && !is_regex_special(g[i]),
    ensures
        translated(g) == g,
    decreases g.len(),
{
    if g.len() > 0 {
        assert forall|i: int| 0 <= i < g.skip(1).len() implies !is_wildcard(
            #[trigger] g.skip(1)[i],
        ) && !is_regex_special(g.skip(1)[i]) by {
            assert(g.skip(1)[i] == g[i + 1]);
        }
        translated_plain_text(g.skip(1));
        assert(seq![g[0]] + g.skip(1) =~= g);
    }
}

/// Outside classes every character that is special in a regular expression and is
/// no wildcard stands escaped in the translation, alone and in its place.
pub proof fn special_characters_are_escaped(a: Seq<char>, c: char, b: Seq<char>)
    requires
        !has_unclosed(a),
        is_regex_special(c),
        c == '[' ==> !b.contains(']'),
    ensures
        translated(a + seq![c] + b) == translated(a) + seq!['\\', c] + translated(b),
{
    let t = seq![c] + b;
    assert(t.skip(1) =~= b);
    assert(a + seq![c] + b =~= a + t);
    translation_of_a_join(a, t);
    assert(translated(a) + (seq!['\\', c] + translated(b)) =~= translated(a) + seq!['\\', c]
        + translated(b));
}

} // verus!
