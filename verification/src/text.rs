//! Text as sequences of characters: searching, replacing, trimming, and the
//! reading and writing of numbers.
use vstd::prelude::*;

verus! {

// ---------------------------------------------------------------------------
// Character classes
// ---------------------------------------------------------------------------

/// The Unicode property `White_Space`.
pub open spec fn is_white_space(c: char) -> bool {
    ||| '\u{9}' <= c <= '\u{d}'
    ||| c == '\u{20}'
    ||| c == '\u{85}'
    ||| c == '\u{a0}'
    ||| c == '\u{1680}'
    ||| '\u{2000}' <= c <= '\u{200a}'
    ||| c == '\u{2028}'
    ||| c == '\u{2029}'
    ||| c == '\u{202f}'
    ||| c == '\u{205f}'
    ||| c == '\u{3000}'
}

/// What `char::is_alphabetic` answers.
pub uninterp spec fn char_is_alphabetic(c: char) -> bool;

/// What `char::is_numeric` answers.
pub uninterp spec fn char_is_numeric(c: char) -> bool;

/// `char::is_whitespace` tests the Unicode property `White_Space`.
pub assume_specification[ char::is_whitespace ](c: char) -> (b: bool)
    ensures
        b == is_white_space(c),
;

/// `char::is_alphabetic` tests the Unicode property `Alphabetic`, which of the
/// ASCII characters only the letters have.
pub assume_specification[ char::is_alphabetic ](c: char) -> (b: bool)
    ensures
        b == char_is_alphabetic(c),
        c <= '\u{7f}' ==> b == ('a' <= c <= 'z' || 'A' <= c <= 'Z'),
;

/// `char::is_numeric` tests for the Unicode general categories of numbers, to
/// which of the ASCII characters only the digits belong.
pub assume_specification[ char::is_numeric ](c: char) -> (b: bool)
    ensures
        b == char_is_numeric(c),
        c <= '\u{7f}' ==> b == ('0' <= c <= '9'),
;

/// A letter or a number.
pub open spec fn is_alphanumeric(c: char) -> bool {
    char_is_alphabetic(c) || char_is_numeric(c)
}

// ---------------------------------------------------------------------------
// Strings and characters
// ---------------------------------------------------------------------------

/// `String::push` appends one character.
pub assume_specification[ String::push ](s: &mut String, c: char)
    ensures
        final(s)@ == old(s)@.push(c),
;

/// The characters of a string.
pub fn chars_of(s: &str) -> (v: Vec<char>)
    ensures
        v@ == s@,
{
    let mut v: Vec<char> = Vec::new();
    for c in it: s.chars()
        invariant
            v@ == s@.take(it.index() as int),
            it.seq() == s@,
    {
        v.push(c);
        assert(s@.take(it.index() + 1) == s@.take(it.index() as int).push(s@[it.index() as int]));
    }
    assert(s@.take(s@.len() as int) == s@);
    v
}

/// Appends the characters `v[from..to]` to `out`.
pub fn push_chars(out: &mut String, v: &Vec<char>, from: usize, to: usize)
    requires
        from <= to <= v@.len(),
    ensures
        final(out)@ == old(out)@ + v@.subrange(from as int, to as int),
{
    let mut i: usize = from;
    while i < to
        invariant
            from <= i <= to <= v@.len(),
            out@ == old(out)@ + v@.subrange(from as int, i as int),
        decreases to - i,
    {
        out.push(v[i]);
        assert(v@.subrange(from as int, i + 1) == v@.subrange(from as int, i as int).push(
            v@[i as int],
        ));
        i += 1;
    }
}

/// The string that consists of the characters `v[from..to]`.
pub fn string_of(v: &Vec<char>, from: usize, to: usize) -> (s: String)
    requires
        from <= to <= v@.len(),
    ensures
        s@ == v@.subrange(from as int, to as int),
{
    let mut s: String = String::new();
    push_chars(&mut s, v, from, to);
    s
}

/// Whether two strings hold the same characters.
pub fn same_text(a: &str, b: &str) -> (same: bool)
    ensures
        same == (a@ == b@),
{
    a.to_owned() == b.to_owned()
}

/// Two strings one after the other.
pub fn join2(a: &str, b: &str) -> (s: String)
    ensures
        s@ == a@ + b@,
{
    a.to_owned().concat(b)
}

/// Three strings one after the other.
pub fn join3(a: &str, b: &str, c: &str) -> (s: String)
    ensures
        s@ == a@ + b@ + c@,
{
    a.to_owned().concat(b).concat(c)
}

// ---------------------------------------------------------------------------
// Searching and replacing
// ---------------------------------------------------------------------------

/// `pat` stands in `s` at position `i`.
pub open spec fn occurs_at(s: Seq<char>, pat: Seq<char>, i: int) -> bool {
    0 <= i && i + pat.len() <= s.len() && s.subrange(i, i + pat.len()) == pat
}

/// `pat` stands somewhere in `s`.
pub open spec fn occurs_in(s: Seq<char>, pat: Seq<char>) -> bool {
    exists|i: int| occurs_at(s, pat, i)
}

/// `to` before every character of `s`, and once more at the end.
pub open spec fn spread(s: Seq<char>, to: Seq<char>) -> Seq<char>
    decreases s.len(),
{
    if s.len() == 0 {
        to
    } else {
        to + seq![s[0]] + spread(s.skip(1), to)
    }
}

/// `s` with the occurrences of `from` that do not overlap, taken from the left,
/// replaced by `to`. The empty text occurs before every character and at the end.
pub open spec fn replaced(s: Seq<char>, from: Seq<char>, to: Seq<char>) -> Seq<char>
    decreases s.len(),
{
    if from.len() == 0 {
        spread(s, to)
    } else if s.len() == 0 {
        s
    } else if occurs_at(s, from, 0) {
        to + replaced(s.skip(from.len() as int), from, to)
    } else {
        seq![s[0]] + replaced(s.skip(1), from, to)
    }
}

/// Whether `pat` stands in `s` at position `i`.
fn stands_at(s: &Vec<char>, pat: &Vec<char>, i: usize) -> (b: bool)
    requires
        i <= s@.len(),
    ensures
        b == occurs_at(s@, pat@, i as int),
{
    if pat.len() > s.len() - i {
        return false;
    }
    let mut k: usize = 0;
    while k < pat.len()
        invariant
            k <= pat@.len(),
            i + pat@.len() <= s.len(),
            forall|j: int| 0 <= j < k ==> s@[i + j] == pat@[j],
        decreases pat@.len() - k,
    {
        if s[i + k] != pat[k] {
            assert(s@.subrange(i as int, i + pat@.len())[k as int] != pat@[k as int]);
            return false;
        }
        k += 1;
    }
    assert(s@.subrange(i as int, i + pat@.len()) =~= pat@);
    true
}

/// Whether `c` stands somewhere in `s`.
pub fn contains_char(s: &str, c: char) -> (b: bool)
    ensures
        b == s@.contains(c),
{
    let v: Vec<char> = chars_of(s);
    let mut i: usize = 0;
    while i < v.len()
        invariant
            i <= v@.len(),
            v@ == s@,
            forall|j: int| 0 <= j < i ==> s@[j] != c,
        decreases v@.len() - i,
    {
        if v[i] == c {
            return true;
        }
        i += 1;
    }
    false
}

/// Replaces every occurrence of `from` in `orig` by `to`.
pub fn replace_all(orig: &str, from: &str, to: &str) -> (r: String)
    ensures
        r@ == replaced(orig@, from@, to@),
{
    let s: Vec<char> = chars_of(orig);
    let pat: Vec<char> = chars_of(from);
    let mut out: String = String::new();
    let mut i: usize = 0;
    assert(s@.skip(0) == s@);
    while i < s.len()
        invariant
            i <= s@.len(),
            s@ == orig@,
            pat@ == from@,
            out@ + replaced(s@.skip(i as int), from@, to@) == replaced(orig@, from@, to@),
        decreases s@.len() - i,
    {
        let ghost rest = s@.skip(i as int);
        let ghost before = out@;
        if pat.len() == 0 {
            out.append(to);
            out.push(s[i]);
            proof {
                assert(rest.skip(1) == s@.skip(i + 1));
                assert(before + (to@ + seq![rest[0]] + spread(rest.skip(1), to@)) == out@ + spread(
                    rest.skip(1),
                    to@,
                ));
            }
            i += 1;
        } else if stands_at(&s, &pat, i) {
            out.append(to);
            proof {
                assert(rest.subrange(0, from@.len() as int) == s@.subrange(
                    i as int,
                    i + from@.len(),
                ));
                assert(rest.skip(from@.len() as int) == s@.skip(i + from@.len()));
                assert(before + (to@ + replaced(rest.skip(from@.len() as int), from@, to@)) == out@
                    + replaced(rest.skip(from@.len() as int), from@, to@));
            }
            i += pat.len();
        } else {
            out.push(s[i]);
            proof {
                if occurs_at(rest, from@, 0) {
                    assert(rest.subrange(0, from@.len() as int) == s@.subrange(
                        i as int,
                        i + from@.len(),
                    ));
                }
                assert(rest.skip(1) == s@.skip(i + 1));
                assert(before + (seq![rest[0]] + replaced(rest.skip(1), from@, to@)) == out@
                    + replaced(rest.skip(1), from@, to@));
            }
            i += 1;
        }
    }
    assert(s@.skip(i as int) == Seq::<char>::empty());
    if pat.len() == 0 {
        out.append(to);
    }
    out
}

/// Replacing what does not occur changes nothing.
pub proof fn replacing_absent_text(s: Seq<char>, from: Seq<char>, to: Seq<char>)
    requires
        !occurs_in(s, from),
    ensures
        replaced(s, from, to) == s,
    decreases s.len(),
{
    if from.len() == 0 {
        assert(s.subrange(0, 0) == from);
        assert(occurs_at(s, from, 0));
    } else if s.len() > 0 {
        assert(!occurs_at(s, from, 0));
        assert forall|i: int| !occurs_at(s.skip(1), from, i) by {
            if occurs_at(s.skip(1), from, i) {
                assert(s.skip(1).subrange(i, i + from.len()) == s.subrange(
                    i + 1,
                    i + 1 + from.len(),
                ));
                assert(occurs_at(s, from, i + 1));
            }
        }
        replacing_absent_text(s.skip(1), from, to);
        assert(seq![s[0]] + s.skip(1) == s);
    }
}

/// Replacing a text by itself changes nothing.
pub proof fn replacing_by_itself(s: Seq<char>, from: Seq<char>)
    ensures
        replaced(s, from, from) == s,
    decreases s.len(),
{
    if from.len() == 0 {
        if s.len() > 0 {
            replacing_by_itself(s.skip(1), from);
            assert(from + seq![s[0]] + s.skip(1) == s);
        }
    } else if s.len() > 0 {
        if occurs_at(s, from, 0) {
            replacing_by_itself(s.skip(from.len() as int), from);
            assert(from + s.skip(from.len() as int) == s);
        } else {
            replacing_by_itself(s.skip(1), from);
            assert(seq![s[0]] + s.skip(1) == s);
        }
    }
}

// ---------------------------------------------------------------------------
// Trimming
// ---------------------------------------------------------------------------

/// `s` without the white space at its start.
pub open spec fn trimmed_start(s: Seq<char>) -> Seq<char>
    decreases s.len(),
{
    if s.len() > 0 && is_white_space(s[0]) {
        trimmed_start(s.skip(1))
    } else {
        s
    }
}

/// `s` without the white space at its end.
pub open spec fn trimmed_end(s: Seq<char>) -> Seq<char>
    decreases s.len(),
{
    if s.len() > 0 && is_white_space(s.last()) {
        trimmed_end(s.drop_last())
    } else {
        s
    }
}

/// `s` without the white space at its ends.
pub open spec fn trimmed(s: Seq<char>) -> Seq<char> {
    trimmed_end(trimmed_start(s))
}

/// Removes the white space at both ends.
pub fn trim(s: &str) -> (r: String)
    ensures
        r@ == trimmed(s@),
{
    let v: Vec<char> = chars_of(s);
    let mut from: usize = 0;
    let mut to: usize = v.len();
    assert(v@.skip(0) == v@);
    while from < to && v[from].is_whitespace()
        invariant
            from <= to == v@.len(),
            v@ == s@,
            trimmed_start(s@) == trimmed_start(v@.skip(from as int)),
        decreases to - from,
    {
        assert(v@.skip(from as int).skip(1) == v@.skip(from + 1));
        from += 1;
    }
    assert(v@.skip(from as int) == v@.subrange(from as int, to as int));
    assert(trimmed_start(s@) == v@.subrange(from as int, to as int));
    while from < to && v[to - 1].is_whitespace()
        invariant
            from <= to <= v@.len(),
            trimmed(s@) == trimmed_end(v@.subrange(from as int, to as int)),
        decreases to - from,
    {
        assert(v@.subrange(from as int, to as int).drop_last() == v@.subrange(
            from as int,
            to - 1,
        ));
        to -= 1;
    }
    string_of(&v, from, to)
}

// ---------------------------------------------------------------------------
// Numbers
// ---------------------------------------------------------------------------

/// The character for the decimal digit `d`.
pub open spec fn digit_char(d: nat) -> char {
    (48 + d) as char
}

/// The decimal digits of `n`, with no leading zero.
pub open spec fn decimal(n: nat) -> Seq<char>
    decreases n,
{
    if n < 10 {
        seq![digit_char(n)]
    } else {
        decimal(n / 10).push(digit_char(n % 10))
    }
}

/// The decimal digits of `n`, after a minus sign where it is negative.
pub open spec fn signed_decimal(n: int) -> Seq<char> {
    if n < 0 {
        seq!['-'] + decimal((-n) as nat)
    } else {
        decimal(n as nat)
    }
}

/// Writes `n` in decimal.
pub fn decimal_text(n: u64) -> (s: String)
    ensures
        s@ == decimal(n as nat),
    decreases n,
{
    let last: char = (48 + (n % 10) as u8) as char;
    if n < 10 {
        let mut s: String = String::new();
        s.push(last);
        assert(s@ == decimal(n as nat));
        s
    } else {
        let mut s: String = decimal_text(n / 10);
        s.push(last);
        s
    }
}

/// Writes `n` in decimal, with a minus sign where it is negative.
pub fn signed_decimal_text(n: i32) -> (s: String)
    ensures
        s@ == signed_decimal(n as int),
{
    if n < 0 {
        let digits: String = decimal_text((-(n as i64)) as u64);
        let mut s: String = String::new();
        s.push('-');
        assert(s@ == seq!['-']);
        s.append(digits.as_str());
        s
    } else {
        decimal_text(n as u64)
    }
}

/// `c` is a digit of the given radix, which is at most ten.
pub open spec fn is_digit(c: char, radix: nat) -> bool {
    48 <= c as nat && (c as nat) < 48 + radix
}

/// At least one character, and all of them digits.
pub open spec fn all_digits(s: Seq<char>, radix: nat) -> bool {
    s.len() > 0 && forall|i: int| 0 <= i < s.len() ==> is_digit(#[trigger] s[i], radix)
}

/// The number that a sequence of digits writes.
pub open spec fn digits_value(s: Seq<char>, radix: nat) -> nat
    decreases s.len(),
{
    if s.len() == 0 {
        0
    } else {
        digits_value(s.drop_last(), radix) * radix + (s.last() as nat - 48) as nat
    }
}

/// What a sequence of digits writes, if that is at most `max`.
pub open spec fn number_in(s: Seq<char>, radix: nat, max: nat) -> Option<nat> {
    if all_digits(s, radix) && digits_value(s, radix) <= max {
        Some(digits_value(s, radix))
    } else {
        None
    }
}

/// `s` without a plus sign at its start.
pub open spec fn without_plus(s: Seq<char>) -> Seq<char> {
    if s.len() > 0 && s[0] == '+' {
        s.skip(1)
    } else {
        s
    }
}

/// The unsigned number that `s` writes: digits, after an optional plus sign.
pub open spec fn unsigned_in(s: Seq<char>, radix: nat, max: nat) -> Option<nat> {
    number_in(without_plus(s), radix, max)
}

/// The 64-bit signed number that `s` writes: decimal digits, after an optional sign.
pub open spec fn signed_in(s: Seq<char>) -> Option<int> {
    if s.len() > 0 && s[0] == '-' {
        match number_in(s.skip(1), 10, 0x8000_0000_0000_0000) {
            Some(n) => Some(-(n as int)),
            None => None,
        }
    } else {
        match unsigned_in(s, 10, 0x7fff_ffff_ffff_ffff) {
            Some(n) => Some(n as int),
            None => None,
        }
    }
}

/// A longer run of digits writes no smaller number.
proof fn digits_value_grows(s: Seq<char>, k: int, radix: nat)
    requires
        0 <= k <= s.len(),
        radix >= 1,
    ensures
        digits_value(s.take(k), radix) <= digits_value(s, radix),
    decreases s.len(),
{
    if k < s.len() {
        digits_value_grows(s.drop_last(), k, radix);
        assert(s.drop_last().take(k) == s.take(k));
        let v = digits_value(s.drop_last(), radix);
        assert(v <= v * radix) by (nonlinear_arith)
            requires
                radix >= 1,
        ;
    } else {
        assert(s.take(k) == s);
    }
}

/// The value of a digit.
pub fn digit_of(c: char, radix: u64) -> (r: Option<u64>)
    requires
        1 <= radix <= 10,
    ensures
        r is Some <==> is_digit(c, radix as nat),
        r matches Some(d) ==> d == c as nat - 48,
{
    let code: u32 = c as u32;
    if code < 48 || code >= 48 + radix as u32 {
        None
    } else {
        Some((code - 48) as u64)
    }
}

/// Reads the digits `v[from..]` as a number that is at most `max`.
fn read_digits(v: &Vec<char>, from: usize, radix: u64, max: u64) -> (r: Option<u64>)
    requires
        from <= v@.len(),
        1 <= radix <= 10,
    ensures
        r matches Some(n) ==> number_in(v@.skip(from as int), radix as nat, max as nat) == Some(
            n as nat,
        ),
        r is None ==> number_in(v@.skip(from as int), radix as nat, max as nat) is None,
{
    let ghost s = v@.skip(from as int);
    if from == v.len() {
        return None;
    }
    let mut n: u64 = 0;
    let mut i: usize = from;
    while i < v.len()
        invariant
            from <= i <= v@.len(),
            from < v@.len(),
            s == v@.skip(from as int),
            1 <= radix <= 10,
            n <= max,
            n == digits_value(s.take(i - from), radix as nat),
            forall|j: int| 0 <= j < i - from ==> is_digit(#[trigger] s[j], radix as nat),
        decreases v@.len() - i,
    {
        let c: char = v[i];
        assert(s[i - from] == c);
        let d: u64 = match digit_of(c, radix) {
            None => {
                return None;
            },
            Some(d) => d,
        };
        proof {
            assert(s.take(i + 1 - from).drop_last() == s.take(i - from));
            assert(digits_value(s.take(i + 1 - from), radix as nat) == n * radix + d);
            digits_value_grows(s, i + 1 - from, radix as nat);
        }
        match n.checked_mul(radix) {
            None => {
                return None;
            },
            Some(m) => {
                if d > max || m > max - d {
                    assert(n * radix + d > max);
                    return None;
                }
                n = m + d;
            },
        }
        i += 1;
    }
    assert(s.take(i - from) == s);
    Some(n)
}

/// Reads an unsigned number of the given radix that is at most `max`.
pub fn parse_unsigned(s: &str, radix: u64, max: u64) -> (r: Option<u64>)
    requires
        1 <= radix <= 10,
    ensures
        r matches Some(n) ==> unsigned_in(s@, radix as nat, max as nat) == Some(n as nat),
        r is None ==> unsigned_in(s@, radix as nat, max as nat) is None,
{
    let v: Vec<char> = chars_of(s);
    if v.len() > 0 && v[0] == '+' {
        read_digits(&v, 1, radix, max)
    } else {
        assert(v@.skip(0) == v@);
        read_digits(&v, 0, radix, max)
    }
}

/// Reads a 64-bit signed number.
pub fn parse_signed(s: &str) -> (r: Option<i64>)
    ensures
        r matches Some(n) ==> signed_in(s@) == Some(n as int),
        r is None ==> signed_in(s@) is None,
{
    let v: Vec<char> = chars_of(s);
    if v.len() > 0 && v[0] == '-' {
        match read_digits(&v, 1, 10, 0x8000_0000_0000_0000) {
            None => None,
            Some(n) => {
                if n == 0x8000_0000_0000_0000 {
                    Some(i64::MIN)
                } else {
                    Some(-(n as i64))
                }
            },
        }
    } else {
        match parse_unsigned(s, 10, 0x7fff_ffff_ffff_ffff) {
            None => None,
            Some(n) => Some(n as i64),
        }
    }
}

/// Reading what was written in decimal gives the number back.
pub proof fn decimal_round_trip(n: nat)
    ensures
        all_digits(decimal(n), 10),
        digits_value(decimal(n), 10) == n,
    decreases n,
{
    if n < 10 {
        assert(decimal(n).drop_last() == Seq::<char>::empty());
        assert(digits_value(decimal(n).drop_last(), 10) == 0);
    } else {
        decimal_round_trip(n / 10);
        assert(decimal(n).drop_last() == decimal(n / 10));
        assert(decimal(n).last() == digit_char(n % 10));
    }
}

/// Numbers that are written alike are equal.
pub proof fn decimal_is_injective(m: nat, n: nat)
    requires
        decimal(m) == decimal(n),
    ensures
        m == n,
{
    decimal_round_trip(m);
    decimal_round_trip(n);
}

/// A number from one on is written without a zero at its start.
pub proof fn decimal_starts_without_zero(n: nat)
    requires
        n >= 1,
    ensures
        decimal(n).len() >= 1,
        '1' <= decimal(n)[0] <= '9',
    decreases n,
{
    if n >= 10 {
        decimal_starts_without_zero(n / 10);
        assert(decimal(n)[0] == decimal(n / 10)[0]);
    }
}

/// The first digits of a number write one that is no larger.
pub proof fn decimal_prefix(n: nat, k: int) -> (m: nat)
    requires
        1 <= k <= decimal(n).len(),
    ensures
        m <= n,
        decimal(n).take(k) == decimal(m),
    decreases n,
{
    if k == decimal(n).len() {
        assert(decimal(n).take(k) =~= decimal(n));
        n
    } else {
        let m = decimal_prefix(n / 10, k);
        assert(decimal(n).take(k) =~= decimal(n / 10).take(k));
        m
    }
}

} // verus!
