//! What replacing, trimming and the reading of numbers come to.
use vstd::prelude::*;

use vstd::arithmetic::power::pow;

use crate::text;

verus! {

/// The first occurrence of a text becomes the new text, what comes before it stays,
/// and what comes after it is dealt with on its own.
pub proof fn first_occurrence_is_replaced(
    w: Seq<char>,
    from: Seq<char>,
    rest: Seq<char>,
    to: Seq<char>,
)
    requires
        from.len() > 0,
        forall|i: int|
            0 <= i < w.len() ==> #[trigger] (w + from + rest).subrange(i, i + from.len()) != from,
    ensures
        text::replaced(w + from + rest, from, to) == w + to + text::replaced(rest, from, to),
    decreases w.len(),
{
    let s = w + from + rest;
    let r = text::replaced(rest, from, to);
    if w.len() == 0 {
        assert(s.subrange(0, from.len() as int) =~= from);
        assert(s.skip(from.len() as int) =~= rest);
        assert(w + to + r =~= to + r);
    } else {
        assert(s.subrange(0int, 0int + from.len()) != from);
        let t = w.skip(1) + from + rest;
        assert(s.skip(1) =~= t);
        assert forall|i: int| 0 <= i < w.skip(1).len() implies #[trigger] t.subrange(
            i,
            i + from.len(),
        ) != from by {
            assert(t.subrange(i, i + from.len()) =~= s.subrange(i + 1, i + 1 + from.len()));
        }
        first_occurrence_is_replaced(w.skip(1), from, rest, to);
        assert(seq![s[0]] + (w.skip(1) + to + r) =~= w + to + r);
    }
}

proof fn start_of_trimmed(s: Seq<char>) -> (i: int)
    ensures
        0 <= i <= s.len(),
        text::trimmed_start(s) == s.skip(i),
        forall|k: int| 0 <= k < i ==> text::is_white_space(#[trigger] s[k]),
        i < s.len() ==> !text::is_white_space(s[i]),
    decreases s.len(),
{
    if s.len() > 0 && text::is_white_space(s[0]) {
        let t = s.skip(1);
        let j = start_of_trimmed(t);
        assert(t.skip(j) =~= s.skip(j + 1));
        assert forall|k: int| 0 <= k < j + 1 implies text::is_white_space(#[trigger] s[k]) by {
            if k > 0 {
                assert(t[k - 1] == s[k]);
            }
        }
        if j < t.len() {
            assert(t[j] == s[j + 1]);
        }
        j + 1
    } else {
        assert(s.skip(0) =~= s);
        0
    }
}

proof fn end_of_trimmed(s: Seq<char>) -> (j: int)
    ensures
        0 <= j <= s.len(),
        text::trimmed_end(s) == s.take(j),
        forall|k: int| j <= k < s.len() ==> text::is_white_space(#[trigger] s[k]),
        j > 0 ==> !text::is_white_space(s[j - 1]),
    decreases s.len(),
{
    if s.len() > 0 && text::is_white_space(s.last()) {
        let t = s.drop_last();
        let j = end_of_trimmed(t);
        assert(t.take(j) =~= s.take(j));
        assert forall|k: int| j <= k < s.len() implies text::is_white_space(#[trigger] s[k]) by {
            if k < s.len() - 1 {
                assert(t[k] == s[k]);
            }
        }
        if j > 0 {
            assert(t[j - 1] == s[j - 1]);
        }
        j
    } else {
        assert(s.take(s.len() as int) =~= s);
        s.len() as int
    }
}

/// Trimming takes white space away at both ends, all of it, and nothing else.
pub proof fn trimming_takes_only_white_space(s: Seq<char>) -> (r: (int, int))
    ensures
        0 <= r.0 <= r.1 <= s.len(),
        text::trimmed(s) == s.subrange(r.0, r.1),
        forall|k: int| 0 <= k < r.0 ==> text::is_white_space(#[trigger] s[k]),
        forall|k: int| r.1 <= k < s.len() ==> text::is_white_space(#[trigger] s[k]),
        r.0 < r.1 ==> !text::is_white_space(s[r.0]) && !text::is_white_space(s[r.1 - 1]),
{
    let i = start_of_trimmed(s);
    let t = s.skip(i);
    let j = end_of_trimmed(t);
    assert(t.take(j) =~= s.subrange(i, i + j));
    assert forall|k: int| i + j <= k < s.len() implies text::is_white_space(#[trigger] s[k]) by {
        assert(t[k - i] == s[k]);
    }
    if j > 0 {
        assert(t[j - 1] == s[i + j - 1]);
        assert(t[0] == s[i]);
    }
    (i, i + j)
}

/// The value of digits one after the other is that of the first, moved up by as many
/// places as the second has, and that of the second.
pub proof fn digits_have_places(a: Seq<char>, b: Seq<char>, radix: nat)
    requires
        radix >= 1,
    ensures
        text::digits_value(a + b, radix) == text::digits_value(a, radix) * pow(
            radix as int,
            b.len(),
        ) + text::digits_value(b, radix),
    decreases b.len(),
{
    reveal(pow);
    if b.len() == 0 {
        assert(a + b =~= a);
    } else {
        digits_have_places(a, b.drop_last(), radix);
        assert((a + b).drop_last() =~= a + b.drop_last());
        let x = text::digits_value(a, radix) as int;
        let p = pow(radix as int, (b.len() - 1) as nat);
        let v = text::digits_value(b.drop_last(), radix) as int;
        let r = radix as int;
        assert(pow(r, b.len()) == r * p);
        assert((x * p + v) * r == x * (r * p) + v * r) by (nonlinear_arith);
    }
}

/// A digit alone is worth what it says.
pub proof fn single_digit_value(d: nat, radix: nat)
    requires
        d < 10,
    ensures
        text::digits_value(seq![(48 + d) as char], radix) == d,
        text::digits_value(Seq::empty(), radix) == 0,
{
    let s = seq![(48 + d) as char];
    assert(s.drop_last() =~= Seq::<char>::empty());
    assert(text::digits_value(s.drop_last(), radix) == 0);
    assert(0 * radix == 0) by (nonlinear_arith);
}

/// A number that was written in decimal is read back, with or without a plus sign,
/// if it is not too large, and with zeros before it.
pub proof fn written_number_is_read(n: nat, max: nat, zeros: nat)
    ensures
        ({
            let digits = Seq::new(zeros, |i: int| '0') + text::decimal(n);
            let r: Option<nat> = if n <= max {
                Some(n)
            } else {
                None
            };
            &&& text::unsigned_in(digits, 10, max) == r
            &&& text::unsigned_in(seq!['+'] + digits, 10, max) == r
        }),
{
    let z = Seq::new(zeros, |i: int| '0');
    let digits = z + text::decimal(n);
    text::decimal_round_trip(n);
    zeros_are_worth_nothing(z);
    digits_have_places(z, text::decimal(n), 10);
    assert forall|i: int| 0 <= i < digits.len() implies text::is_digit(
        #[trigger] digits[i],
        10,
    ) by {
        if i >= zeros {
            assert(digits[i] == text::decimal(n)[i - zeros]);
        }
    }
    assert(text::is_digit(digits[0], 10));
    assert((seq!['+'] + digits).skip(1) =~= digits);
}

proof fn zeros_are_worth_nothing(z: Seq<char>)
    requires
        forall|i: int| 0 <= i < z.len() ==> #[trigger] z[i] == '0',
    ensures
        text::digits_value(z, 10) == 0,
    decreases z.len(),
{
    if z.len() > 0 {
        let f = z.drop_last();
        assert forall|i: int| 0 <= i < f.len() implies #[trigger] f[i] == '0' by {
            assert(f[i] == z[i]);
        }
        assert(z[z.len() - 1] == '0');
        zeros_are_worth_nothing(f);
    }
}

/// A text that holds anything but digits after an optional plus sign, or nothing, is
/// no number.
pub proof fn other_text_is_no_number(s: Seq<char>, i: int, radix: nat, max: nat)
    requires
        1 <= radix <= 10,
        s.len() == 0 || s == seq!['+'] || (0 <= i < s.len() && !(48 <= s[i] as nat && (s[i] as nat)
            < 48 + radix) && !(i == 0 && s[i] == '+')),
    ensures
        text::unsigned_in(s, radix, max) is None,
{
    if s.len() > 0 && s != seq!['+'] {
        let t = text::without_plus(s);
        if t.len() > 0 && text::all_digits(t, radix) {
            if s[0] == '+' {
                assert(t[i - 1] == s[i]);
            } else {
                assert(t[i] == s[i]);
            }
        }
    } else if s.len() > 0 {
        assert(s.skip(1) =~= Seq::<char>::empty());
    }
}

/// Signed numbers are read back: without a sign, with a plus sign and with a minus
/// sign, within 64 bits.
pub proof fn written_signed_number_is_read(n: nat)
    ensures
        text::signed_in(text::decimal(n)) == (if n <= i64::MAX {
            Some(n as int)
        } else {
            None
        }),
        text::signed_in(seq!['+'] + text::decimal(n)) == (if n <= i64::MAX {
            Some(n as int)
        } else {
            None
        }),
        text::signed_in(seq!['-'] + text::decimal(n)) == (if -(n as int) >= i64::MIN {
            Some(-(n as int))
        } else {
            None
        }),
{
    let d = text::decimal(n);
    text::decimal_round_trip(n);
    assert(text::is_digit(d[0], 10));
    written_number_is_read(n, i64::MAX as nat, 0);
    assert(Seq::new(0nat, |i: int| '0') + d =~= d);
    assert((seq!['-'] + d).skip(1) =~= d);
    assert((seq!['+'] + d).skip(1) =~= d);
}

/// A text that holds anything but digits after an optional sign, or nothing, is no
/// signed number.
pub proof fn other_text_is_no_signed_number(s: Seq<char>, i: int)
    requires
        s.len() == 0 || s == seq!['+'] || s == seq!['-'] || (0 <= i < s.len() && !(48
            <= s[i] as nat <= 57) && !(i == 0 && (s[i] == '+' || s[i] == '-'))),
    ensures
        text::signed_in(s) is None,
{
    if s == seq!['-'] {
        assert(s[0] == '-');
    }
    if s.len() > 0 && s[0] == '-' {
        let t = s.skip(1);
        if s == seq!['-'] {
            assert(t =~= Seq::<char>::empty());
        } else if text::all_digits(t, 10) {
            assert(t[i - 1] == s[i]);
        }
    } else {
        other_text_is_no_number(s, i, 10, i64::MAX as nat);
    }
}

/// A negative number is written as a minus sign and the digits of its amount, any
/// other as its digits alone.
pub proof fn sign_is_written(n: int)
    ensures
        n >= 0 ==> text::signed_decimal(n) == text::decimal(n as nat),
        n < 0 ==> text::signed_decimal(n)[0] == '-' && text::signed_decimal(n).skip(1)
            == text::decimal((-n) as nat),
{
    if n < 0 {
        assert(text::signed_decimal(n).skip(1) =~= text::decimal((-n) as nat));
    }
}

/// White space is the tab and the four control characters after it, the space, and the
/// characters outside of ASCII that stand for a space or for the end of a line.
pub proof fn white_space_by_code_point(c: char)
    ensures
        text::is_white_space(c) <==> {
            let n = c as nat;
            ||| 9 <= n <= 13
            ||| n == 32
            ||| n == 133
            ||| n == 160
            ||| n == 5760
            ||| 8192 <= n <= 8202
            ||| 8232 <= n <= 8233
            ||| n == 8239
            ||| n == 8287
            ||| n == 12288
        },
{
}

/// The empty text occurs before every character and at the end: around one character
/// it is replaced twice, and between two texts once.
pub proof fn empty_text_occurs_everywhere(a: Seq<char>, b: Seq<char>, c: char, to: Seq<char>)
    ensures
        ({
            let none = Seq::<char>::empty();
            let first = text::replaced(a, none, to);
            &&& text::replaced(none, none, to) == to
            &&& text::replaced(seq![c], none, to) == to + seq![c] + to
            &&& first.len() >= to.len()
            &&& text::replaced(a + b, none, to) == first.take(first.len() - to.len())
                + text::replaced(b, none, to)
        }),
    decreases a.len(),
{
    let none = Seq::<char>::empty();
    assert(seq![c].skip(1) =~= none);
    assert(text::spread(none, to) == to);
    assert(text::spread(seq![c], to) == to + seq![c] + text::spread(seq![c].skip(1), to));
    let first = text::spread(a, to);
    let second = text::spread(b, to);
    if a.len() == 0 {
        assert(a + b =~= b);
        assert(first.take(0) + second =~= second);
    } else {
        empty_text_occurs_everywhere(a.skip(1), b, c, to);
        let rest = text::spread(a.skip(1), to);
        assert((a + b).skip(1) =~= a.skip(1) + b);
        assert((a + b)[0] == a[0]);
        assert(first =~= to + seq![a[0]] + rest);
        assert(text::spread(a + b, to) =~= to + seq![a[0]] + (rest.take(rest.len() - to.len())
            + second));
        assert(first.take(first.len() - to.len()) =~= to + seq![a[0]] + rest.take(
            rest.len() - to.len(),
        ));
        assert(text::spread(a + b, to) =~= first.take(first.len() - to.len()) + second);
    }
}

} // verus!
