//! What the filters mean for an entry.
use vstd::prelude::*;

use crate::filter;
#[allow(unused_imports)]
use crate::filter::{CmpOp, EntryMeta};
#[allow(unused_imports)]
use crate::options::Options;
use crate::text;
use crate::text_laws;

verus! {

/// An age of zero seconds or more is the quotient by the seconds of a day: so many
/// whole days have passed, and the next is not over.
pub proof fn age_counts_whole_days(secs: int)
    ensures
        secs >= 0 ==> filter::whole_days(secs) * 86400 <= secs < (filter::whole_days(secs) + 1)
            * 86400,
        secs <= 0 ==> (filter::whole_days(secs) - 1) * 86400 < secs <= filter::whole_days(secs)
            * 86400,
        secs >= 0 ==> filter::whole_days(secs + 86400) == filter::whole_days(secs) + 1,
{
}

/// A time filter in seconds: older than `n` days means that `n + 1` days have passed,
/// newer than `n` that `n` have not, exactly `n` that `n` have and `n + 1` have not.
/// Times in the future count the other way round, and an unknown age never passes.
pub proof fn time_filter_in_seconds(m: EntryMeta, o: Options)
    requires
        o.mtime_filter.active,
    ensures
        m.age_secs is None ==> !filter::time_passes(m, o.mtime_filter),
        m.age_secs matches Some(secs) ==> {
            let n = o.mtime_filter.days;
            filter::time_passes(m, o.mtime_filter) <==> match o.mtime_filter.op {
                CmpOp::Gt => if n >= 0 {
                    secs >= (n + 1) * 86400
                } else {
                    secs > n * 86400
                },
                CmpOp::Lt => if n > 0 {
                    secs < n * 86400
                } else {
                    secs <= (n - 1) * 86400
                },
                CmpOp::Eq => if n > 0 {
                    n * 86400 <= secs < (n + 1) * 86400
                } else if n < 0 {
                    (n - 1) * 86400 < secs <= n * 86400
                } else {
                    -86400 < secs < 86400
                },
            }
        },
{
}

/// What has become a day older since passes a filter for one day more.
pub proof fn a_day_later_is_a_day_older(secs: int, n: int, op: CmpOp)
    requires
        secs >= 0,
    ensures
        filter::compares(op, filter::whole_days(secs + 86400), n + 1) == filter::compares(
            op,
            filter::whole_days(secs),
            n,
        ),
{
}

/// A larger value never fails where a smaller one is above the threshold, a smaller
/// one never fails where a larger one is below it, and only the threshold equals it.
pub proof fn comparisons_compare(value: int, threshold: int)
    ensures
        filter::compares(CmpOp::Gt, value, threshold) <==> threshold < value,
        filter::compares(CmpOp::Lt, value, threshold) <==> value < threshold,
        filter::compares(CmpOp::Eq, value, threshold) <==> value == threshold,
{
}

/// The last twelve bits of a mode are its remainder by 4096.
proof fn low_bits(mode: u32)
    ensures
        (mode & 0o7777) == mode % 4096,
{
    assert((mode & 0o7777) == mode % 4096) by (bit_vector);
}

/// An entry passes exactly when it passes each filter that was asked for: the type,
/// the size in bytes of a file, the age, the permission bits without the bits of the
/// type, the name of the owner and that of the group.
pub proof fn entry_passes_each_filter(m: EntryMeta, o: Options)
    ensures
        filter::passes(m, o) <==> {
            &&& o.type_filter == 'f' ==> m.is_file
            &&& o.type_filter == 'd' ==> m.is_dir
            &&& o.type_filter == 'l' ==> m.is_symlink
            &&& o.size_filter.active && o.size_filter.op == CmpOp::Gt ==> m.is_file && m.size
                > o.size_filter.bytes
            &&& o.size_filter.active && o.size_filter.op == CmpOp::Lt ==> m.is_file && m.size
                < o.size_filter.bytes
            &&& o.size_filter.active && o.size_filter.op == CmpOp::Eq ==> m.is_file && m.size
                == o.size_filter.bytes
            &&& filter::time_passes(m, o.mtime_filter)
            &&& o.perm_filter@.len() > 0 ==> text::unsigned_in(
                o.perm_filter@,
                8,
                0xffff_ffff,
            ) == Some((m.mode % 4096) as nat)
            &&& o.user_filter@.len() > 0 ==> m.owner is Some && m.owner->0@ == o.user_filter@
            &&& o.group_filter@.len() > 0 ==> m.group is Some && m.group->0@ == o.group_filter@
        },
        !o.mtime_filter.active ==> filter::time_passes(m, o.mtime_filter),
{
    low_bits(m.mode);
}

/// A wrong permission filter is noticed exactly at an entry that passes the filters
/// on type, size and age.
pub proof fn wrong_permission_is_noticed(m: EntryMeta, o: Options)
    ensures
        filter::permission_fault(m, o) <==> {
            &&& o.type_filter == 'f' ==> m.is_file
            &&& o.type_filter == 'd' ==> m.is_dir
            &&& o.type_filter == 'l' ==> m.is_symlink
            &&& o.size_filter.active ==> {
                &&& m.is_file
                &&& filter::compares(
                    o.size_filter.op,
                    m.size as int,
                    o.size_filter.bytes as int,
                )
            }
            &&& filter::time_passes(m, o.mtime_filter)
            &&& o.perm_filter@.len() > 0
            &&& text::unsigned_in(o.perm_filter@, 8, 0xffff_ffff) is None
        },
        filter::permission_fault(m, o) ==> !filter::passes(m, o),
{
}

/// Octal digits are read as such: three of them are worth 64, 8 and 1, and one before
/// them 512.
pub proof fn octal_digits_are_read(a: nat, b: nat, c: nat, d: nat)
    requires
        a < 8 && b < 8 && c < 8 && d < 8,
    ensures
        filter::permission_in(
            seq![(48 + a) as char, (48 + b) as char, (48 + c) as char],
        ) == Some(64 * a + 8 * b + c),
        filter::permission_in(
            seq![(48 + d) as char, (48 + a) as char, (48 + b) as char, (48 + c) as char],
        ) == Some(512 * d + 64 * a + 8 * b + c),
{
    let ca = (48 + a) as char;
    let cb = (48 + b) as char;
    let cc = (48 + c) as char;
    let cd = (48 + d) as char;
    let s1 = seq![ca];
    let s2 = seq![ca, cb];
    let s3 = seq![ca, cb, cc];
    text_laws::single_digit_value(a, 8);
    assert(s2.drop_last() =~= s1);
    assert(s3.drop_last() =~= s2);
    let t1 = seq![cd];
    let t2 = seq![cd, ca];
    let t3 = seq![cd, ca, cb];
    let t4 = seq![cd, ca, cb, cc];
    text_laws::single_digit_value(d, 8);
    assert(t2.drop_last() =~= t1);
    assert(t3.drop_last() =~= t2);
    assert(t4.drop_last() =~= t3);
    assert(text::digits_value(s2, 8) == a * 8 + b);
    assert(text::digits_value(s3, 8) == (a * 8 + b) * 8 + c);
    assert(text::digits_value(t2, 8) == d * 8 + a);
    assert(text::digits_value(t3, 8) == (d * 8 + a) * 8 + b);
    assert(text::digits_value(t4, 8) == ((d * 8 + a) * 8 + b) * 8 + c);
}

/// Permission bits of any number of octal digits are read in their places, and
/// anything that is no octal digit makes the filter wrong.
pub proof fn octal_filter_is_a_number(s: Seq<char>)
    requires
        s.len() > 0,
        s[0] != '+',
    ensures
        (forall|i: int| 0 <= i < s.len() ==> 48 <= (#[trigger] s[i]) as nat <= 55)
            && text::digits_value(s, 8) <= 0xffff_ffff ==> filter::permission_in(s) == Some(
            text::digits_value(s, 8),
        ),
        (exists|i: int| 0 <= i < s.len() && !(48 <= (#[trigger] s[i]) as nat <= 55))
            ==> filter::permission_in(s) is None,
{
}

proof fn digits_have_no_suffix(n: nat)
    ensures
        filter::unit_of(text::decimal(n)) is None,
        text::decimal(n).len() > 0,
{
    text::decimal_round_trip(n);
    let d = text::decimal(n);
    assert(text::is_digit(d[d.len() - 1], 10));
}

/// A size is a number of bytes, or with a suffix of kibibytes, mebibytes or
/// gibibytes: each larger unit is 1024 of the next smaller one. Numbers beyond 64
/// bits are no sizes.
pub proof fn sizes_have_units(n: nat)
    ensures
        n <= u64::MAX ==> {
            let d = text::decimal(n);
            &&& filter::bytes_in(d) == Some(n)
            &&& filter::bytes_in(d.push('K')) == Some(n * 1024)
            &&& filter::bytes_in(d.push('k')) == filter::bytes_in(d.push('K'))
            &&& filter::bytes_in(d.push('M')) == Some(n * 1048576)
            &&& filter::bytes_in(d.push('m')) == filter::bytes_in(d.push('M'))
            &&& filter::bytes_in(d.push('G')) == Some(n * 1073741824)
            &&& filter::bytes_in(d.push('g')) == filter::bytes_in(d.push('G'))
        },
        n > u64::MAX ==> {
            let d = text::decimal(n);
            &&& filter::bytes_in(d) is None
            &&& filter::bytes_in(d.push('K')) is None
            &&& filter::bytes_in(d.push('M')) is None
            &&& filter::bytes_in(d.push('G')) is None
        },
{
    let d = text::decimal(n);
    digits_have_no_suffix(n);
    text_laws::written_number_is_read(n, u64::MAX as nat, 0);
    assert(Seq::new(0nat, |i: int| '0') + d =~= d);
    assert(d.push('K').drop_last() =~= d);
    assert(d.push('k').drop_last() =~= d);
    assert(d.push('M').drop_last() =~= d);
    assert(d.push('m').drop_last() =~= d);
    assert(d.push('G').drop_last() =~= d);
    assert(d.push('g').drop_last() =~= d);
    assert(n * 1 == n);
}

/// A text with a character that is no digit is no size, wherever that character
/// stands, unless it is a plus sign that comes first or a suffix that comes last.
pub proof fn other_text_is_no_size(s: Seq<char>, i: int)
    requires
        0 <= i < s.len(),
        !(48 <= s[i] as nat <= 57),
        !(i == 0 && s[i] == '+'),
        !(i == s.len() - 1 && (s[i] == 'K' || s[i] == 'k' || s[i] == 'M' || s[i] == 'm' || s[i]
            == 'G' || s[i] == 'g')),
    ensures
        filter::bytes_in(s) is None,
{
    if filter::unit_of(s) is Some {
        assert(i < s.len() - 1);
        assert(s.drop_last()[i] == s[i]);
        text_laws::other_text_is_no_number(s.drop_last(), i, 10, u64::MAX as nat);
    } else {
        text_laws::other_text_is_no_number(s, i, 10, u64::MAX as nat);
    }
}

/// A size without digits is none.
pub proof fn size_needs_digits()
    ensures
        filter::bytes_in(Seq::empty()) is None,
        filter::bytes_in(seq!['K']) is None,
        filter::bytes_in(seq!['M']) is None,
        filter::bytes_in(seq!['G']) is None,
{
    assert(seq!['K'].drop_last() =~= Seq::<char>::empty());
    assert(seq!['M'].drop_last() =~= Seq::<char>::empty());
    assert(seq!['G'].drop_last() =~= Seq::<char>::empty());
    text_laws::other_text_is_no_number(Seq::empty(), 0, 10, u64::MAX as nat);
}

/// A plus sign before a filter asks for more, a minus sign for less, and a filter
/// that starts with neither for exactly that; the sign is no part of the value.
pub proof fn signs_ask_for_comparisons(s: Seq<char>)
    ensures
        filter::op_of(seq!['+'] + s) == CmpOp::Gt,
        filter::without_op(seq!['+'] + s) == s,
        filter::op_of(seq!['-'] + s) == CmpOp::Lt,
        filter::without_op(seq!['-'] + s) == s,
        s.len() == 0 || (s[0] != '+' && s[0] != '-') ==> filter::op_of(s) == CmpOp::Eq
            && filter::without_op(s) == s,
{
    assert((seq!['+'] + s).skip(1) =~= s);
    assert((seq!['-'] + s).skip(1) =~= s);
}

/// A size filter fits whenever it is no size at all, and else exactly when its bytes
/// fit in 64 bits.
pub proof fn sizes_that_fit(s: Seq<char>)
    ensures
        filter::bytes_in(filter::without_op(s)) is None ==> filter::size_in_range(s),
        filter::bytes_in(filter::without_op(s)) matches Some(n) ==> (filter::size_in_range(s) <==> n
            <= 0xffff_ffff_ffff_ffff),
{
}

} // verus!
