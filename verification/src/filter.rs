//! Filters on the metadata of an entry.
use vstd::prelude::*;

use crate::options::Options;
use crate::text;
use crate::text::{chars_of, join3, parse_signed, parse_unsigned, same_text, string_of};

verus! {

/// How a value is compared with a threshold.
#[derive(Debug, Clone, Copy, PartialEq, Eq, Structural)]
pub enum CmpOp {
    /// Equal to it.
    Eq,
    /// Below it.
    Lt,
    /// Above it.
    Gt,
}

/// A filter on the size in bytes.
#[derive(Debug, Clone, Copy, PartialEq, Eq, Structural)]
pub struct SizeFilter {
    pub active: bool,
    pub op: CmpOp,
    pub bytes: u64,
}

/// A filter on the age in whole days.
#[derive(Debug, Clone, Copy, PartialEq, Eq, Structural)]
pub struct TimeFilter {
    pub active: bool,
    pub op: CmpOp,
    pub days: i64,
}

/// What can be wrong with a filter.
#[derive(Debug)]
pub enum FilterError {
    InvalidSize { text: String },
    InvalidTime { text: String },
    InvalidPermission { text: String },
}

impl FilterError {
    /// The message for the error.
    pub open spec fn spec_message(&self) -> Seq<char> {
        match self {
            FilterError::InvalidSize { text } => "invalid size value '"@ + text@ + "'"@,
            FilterError::InvalidTime { text } => "invalid time value '"@ + text@ + "'"@,
            FilterError::InvalidPermission { text } => "invalid permission filter '"@ + text@
                + "'"@,
        }
    }

    /// The message to show for the error.
    pub fn message(&self) -> (s: String)
        ensures
            s@ == self.spec_message(),
    {
        match self {
            FilterError::InvalidSize { text } => join3("invalid size value '", text.as_str(), "'"),
            FilterError::InvalidTime { text } => join3("invalid time value '", text.as_str(), "'"),
            FilterError::InvalidPermission { text } => join3(
                "invalid permission filter '",
                text.as_str(),
                "'",
            ),
        }
    }
}

// ---------------------------------------------------------------------------
// Reading filters
// ---------------------------------------------------------------------------

/// The comparison that a filter asks for: `+` above, `-` below, else equal.
pub open spec fn op_of(s: Seq<char>) -> CmpOp {
    if s.len() > 0 && s[0] == '+' {
        CmpOp::Gt
    } else if s.len() > 0 && s[0] == '-' {
        CmpOp::Lt
    } else {
        CmpOp::Eq
    }
}

/// A filter without the sign that asks for a comparison.
pub open spec fn without_op(s: Seq<char>) -> Seq<char> {
    if op_of(s) == CmpOp::Eq {
        s
    } else {
        s.skip(1)
    }
}

/// How many bytes a suffix stands for, or `None` where there is no suffix.
pub open spec fn unit_of(s: Seq<char>) -> Option<nat> {
    if s.len() == 0 {
        None
    } else if s.last() == 'K' || s.last() == 'k' {
        Some(1024)
    } else if s.last() == 'M' || s.last() == 'm' {
        Some(1024 * 1024)
    } else if s.last() == 'G' || s.last() == 'g' {
        Some(1024 * 1024 * 1024)
    } else {
        None
    }
}

/// The number of bytes that a size writes: a number of 64 bits, times its unit.
pub open spec fn bytes_in(s: Seq<char>) -> Option<nat> {
    let (digits, unit) = match unit_of(s) {
        Some(unit) => (s.drop_last(), unit),
        None => (s, 1nat),
    };
    match text::unsigned_in(digits, 10, u64::MAX as nat) {
        Some(n) => Some(n * unit),
        None => None,
    }
}

/// The size that a size filter asks for does not exceed 64 bits.
pub open spec fn size_in_range(s: Seq<char>) -> bool {
    bytes_in(without_op(s)) matches Some(n) ==> n <= u64::MAX
}

/// Takes the comparison off the front of a filter.
fn split_op(s: &str) -> (r: (CmpOp, Vec<char>))
    ensures
        r.0 == op_of(s@),
        r.1@ == without_op(s@),
{
    let v: Vec<char> = chars_of(s);
    if v.len() > 0 && v[0] == '+' {
        let mut w: Vec<char> = v;
        w.remove(0);
        assert(w@ =~= s@.skip(1));
        (CmpOp::Gt, w)
    } else if v.len() > 0 && v[0] == '-' {
        let mut w: Vec<char> = v;
        w.remove(0);
        assert(w@ =~= s@.skip(1));
        (CmpOp::Lt, w)
    } else {
        (CmpOp::Eq, v)
    }
}

/// Reads a size as a number and the unit that it counts.
fn split_size(v: &Vec<char>) -> (r: Option<(u64, u64)>)
    ensures
        r matches Some((n, unit)) ==> bytes_in(v@) == Some((n * unit) as nat),
        r is None ==> bytes_in(v@) is None,
{
    let len: usize = v.len();
    let last: char = if len > 0 {
        v[len - 1]
    } else {
        '\0'
    };
    let unit: u64 = if last == 'K' || last == 'k' {
        1024
    } else if last == 'M' || last == 'm' {
        1024 * 1024
    } else if last == 'G' || last == 'g' {
        1024 * 1024 * 1024
    } else {
        1
    };
    let end: usize = if unit == 1 {
        len
    } else {
        len - 1
    };
    let digits: String = string_of(v, 0, end);
    proof {
        if unit == 1 {
            assert(digits@ =~= v@);
        } else {
            assert(digits@ =~= v@.drop_last());
        }
    }
    match parse_unsigned(digits.as_str(), 10, u64::MAX) {
        Some(n) => Some((n, unit)),
        None => None,
    }
}

/// Whether the size that a size filter asks for fits in 64 bits.
pub fn size_fits(s: &str) -> (b: bool)
    ensures
        b == size_in_range(s@),
{
    let (_, v): (CmpOp, Vec<char>) = split_op(s);
    match split_size(&v) {
        Some((n, unit)) => n.checked_mul(unit).is_some(),
        None => true,
    }
}

/// Reads a size filter: `[+|-]<number>[K|M|G]`.
pub fn parse_size_filter(s: &str) -> (r: Result<SizeFilter, FilterError>)
    requires
        size_in_range(s@),
    ensures
        match (r, bytes_in(without_op(s@))) {
            (Ok(f), Some(n)) => f.active && f.op == op_of(s@) && f.bytes == n,
            (Err(FilterError::InvalidSize { text }), None) => text@ == s@,
            _ => false,
        },
{
    let (op, v): (CmpOp, Vec<char>) = split_op(s);
    match split_size(&v) {
        Some((n, unit)) => {
            let bytes: u64 = n * unit;
            Ok(SizeFilter { active: true, op, bytes })
        },
        None => Err(FilterError::InvalidSize { text: s.to_owned() }),
    }
}

/// Reads a time filter: `[+|-]<days>`.
pub fn parse_time_filter(s: &str) -> (r: Result<TimeFilter, FilterError>)
    ensures
        match (r, text::signed_in(without_op(s@))) {
            (Ok(f), Some(n)) => f.active && f.op == op_of(s@) && f.days == n,
            (Err(FilterError::InvalidTime { text }), None) => text@ == s@,
            _ => false,
        },
{
    let (op, v): (CmpOp, Vec<char>) = split_op(s);
    let number: String = string_of(&v, 0, v.len());
    assert(number@ =~= v@);
    match parse_signed(number.as_str()) {
        Some(days) => Ok(TimeFilter { active: true, op, days }),
        None => Err(FilterError::InvalidTime { text: s.to_owned() }),
    }
}

// ---------------------------------------------------------------------------
// Applying filters
// ---------------------------------------------------------------------------

/// What the filters look at of an entry.
pub struct EntryMeta {
    pub is_file: bool,
    pub is_dir: bool,
    pub is_symlink: bool,
    /// Size in bytes.
    pub size: u64,
    /// Whole seconds since the last change, if that is known; negative where the
    /// change lies in the future.
    pub age_secs: Option<i128>,
    /// Type and permission bits.
    pub mode: u32,
    /// Name of the owner, if there is one.
    pub owner: Option<String>,
    /// Name of the group, if there is one.
    pub group: Option<String>,
}

/// `value` stands to `threshold` as `op` asks.
pub open spec fn compares(op: CmpOp, value: int, threshold: int) -> bool {
    match op {
        CmpOp::Eq => value == threshold,
        CmpOp::Lt => value < threshold,
        CmpOp::Gt => value > threshold,
    }
}

/// The entry is of the type asked for. A character that names no type asks for none.
pub open spec fn type_passes(m: EntryMeta, type_filter: char) -> bool {
    &&& type_filter == 'f' ==> m.is_file
    &&& type_filter == 'd' ==> m.is_dir
    &&& type_filter == 'l' ==> m.is_symlink
}

/// The entry is a file of the size asked for.
pub open spec fn size_passes(m: EntryMeta, f: SizeFilter) -> bool {
    f.active ==> m.is_file && compares(f.op, m.size as int, f.bytes as int)
}

/// An age in whole days: the seconds divided by those of a day, towards zero.
pub open spec fn whole_days(secs: int) -> int {
    if secs >= 0 {
        secs / 86400
    } else {
        -((-secs) / 86400)
    }
}

/// The entry is of the age asked for, in whole days.
pub open spec fn time_passes(m: EntryMeta, f: TimeFilter) -> bool {
    f.active ==> {
        &&& m.age_secs matches Some(secs)
        &&& compares(f.op, whole_days(secs as int), f.days as int)
    }
}

/// The permission bits that a permission filter asks for.
pub open spec fn permission_in(perm_filter: Seq<char>) -> Option<nat> {
    text::unsigned_in(perm_filter, 8, u32::MAX as nat)
}

/// The entry has exactly the permission bits asked for.
pub open spec fn permission_passes(m: EntryMeta, perm_filter: Seq<char>) -> bool {
    perm_filter.len() > 0 ==> permission_in(perm_filter) == Some((m.mode & 0o7777) as nat)
}

/// The name is the one asked for.
pub open spec fn name_passes(name: Option<String>, filter: Seq<char>) -> bool {
    filter.len() > 0 ==> name is Some && name->Some_0@ == filter
}

/// The entry passes the filters that come before the one on permissions.
pub open spec fn passes_before_permission(m: EntryMeta, o: Options) -> bool {
    &&& type_passes(m, o.type_filter)
    &&& size_passes(m, o.size_filter)
    &&& time_passes(m, o.mtime_filter)
}

/// The entry passes all filters.
pub open spec fn passes(m: EntryMeta, o: Options) -> bool {
    &&& passes_before_permission(m, o)
    &&& permission_passes(m, o.perm_filter@)
    &&& name_passes(m.owner, o.user_filter@)
    &&& name_passes(m.group, o.group_filter@)
}

/// The permission filter is looked at and is not an octal number.
pub open spec fn permission_fault(m: EntryMeta, o: Options) -> bool {
    &&& passes_before_permission(m, o)
    &&& o.perm_filter@.len() > 0
    &&& permission_in(o.perm_filter@) is None
}

/// Compares an unsigned value with a threshold.
fn compare_u64(op: CmpOp, value: u64, threshold: u64) -> (b: bool)
    ensures
        b == compares(op, value as int, threshold as int),
{
    match op {
        CmpOp::Eq => value == threshold,
        CmpOp::Lt => value < threshold,
        CmpOp::Gt => value > threshold,
    }
}

/// Compares a signed value with a threshold.
fn compare_i128(op: CmpOp, value: i128, threshold: i128) -> (b: bool)
    ensures
        b == compares(op, value as int, threshold as int),
{
    match op {
        CmpOp::Eq => value == threshold,
        CmpOp::Lt => value < threshold,
        CmpOp::Gt => value > threshold,
    }
}

/// An age in whole days.
fn days_of(secs: i128) -> (days: i128)
    ensures
        days == whole_days(secs as int),
{
    if secs >= 0 {
        secs / 86400
    } else if secs > -86400 {
        0
    } else {
        let rest: i128 = -(secs + 86400);
        -(rest / 86400) - 1
    }
}

/// Whether a name is the one asked for.
fn name_matches(name: &Option<String>, filter: &str) -> (b: bool)
    ensures
        b == name_passes(*name, filter@),
{
    if filter.is_empty() {
        return true;
    }
    match name {
        Some(n) => same_text(n.as_str(), filter),
        None => false,
    }
}

/// Tests an entry against all filters: type, size, age, permissions, owner, group.
pub fn matches_filters(meta: &EntryMeta, opts: &Options) -> (r: Result<bool, FilterError>)
    ensures
        match r {
            Ok(b) => !permission_fault(*meta, *opts) && b == passes(*meta, *opts),
            Err(FilterError::InvalidPermission { text }) => permission_fault(*meta, *opts) && text@
                == opts.perm_filter@,
            Err(_) => false,
        },
{
    if opts.type_filter == 'f' {
        if !meta.is_file {
            return Ok(false);
        }
    } else if opts.type_filter == 'd' {
        if !meta.is_dir {
            return Ok(false);
        }
    } else if opts.type_filter == 'l' {
        if !meta.is_symlink {
            return Ok(false);
        }
    }
    if opts.size_filter.active {
        if !meta.is_file {
            return Ok(false);
        }
        if !compare_u64(opts.size_filter.op, meta.size, opts.size_filter.bytes) {
            return Ok(false);
        }
    }
    if opts.mtime_filter.active {
        match meta.age_secs {
            Some(secs) => {
                if !compare_i128(
                    opts.mtime_filter.op,
                    days_of(secs),
                    opts.mtime_filter.days as i128,
                ) {
                    return Ok(false);
                }
            },
            None => {
                return Ok(false);
            },
        }
    }
    if !opts.perm_filter.as_str().is_empty() {
        let mode: u32 = meta.mode & 0o7777;
        match parse_unsigned(opts.perm_filter.as_str(), 8, u32::MAX as u64) {
            Some(target) => {
                if mode as u64 != target {
                    return Ok(false);
                }
            },
            None => {
                return Err(FilterError::InvalidPermission { text: opts.perm_filter.clone() });
            },
        }
    }
    if !name_matches(&meta.owner, opts.user_filter.as_str()) {
        return Ok(false);
    }
    if !name_matches(&meta.group, opts.group_filter.as_str()) {
        return Ok(false);
    }
    Ok(true)
}

/// What was changed less than a day ago, or will be within a day, is zero days old.
pub proof fn less_than_a_day_is_no_day(secs: int)
    ensures
        whole_days(secs) == 0 <==> -86400 < secs < 86400,
        whole_days(-secs) == -whole_days(secs),
{
}

/// Where no filter was asked for, every entry passes.
pub proof fn no_filter_passes_all(m: EntryMeta, o: Options)
    requires
        o.type_filter != 'f' && o.type_filter != 'd' && o.type_filter != 'l',
        !o.size_filter.active,
        !o.mtime_filter.active,
        o.perm_filter@.len() == 0,
        o.user_filter@.len() == 0,
        o.group_filter@.len() == 0,
    ensures
        passes(m, o),
        !permission_fault(m, o),
{
}

/// Above, below and equal exclude one another and leave nothing out.
pub proof fn comparisons_partition(value: int, threshold: int)
    ensures
        compares(CmpOp::Gt, value, threshold) <==> !compares(CmpOp::Lt, value, threshold)
            && !compares(CmpOp::Eq, value, threshold),
        compares(CmpOp::Lt, value, threshold) <==> !compares(CmpOp::Gt, value, threshold)
            && !compares(CmpOp::Eq, value, threshold),
        compares(CmpOp::Eq, value, threshold) <==> !compares(CmpOp::Gt, value, threshold)
            && !compares(CmpOp::Lt, value, threshold),
{
}

/// An active size filter lets nothing through but files.
pub proof fn size_filter_is_for_files(m: EntryMeta, o: Options)
    requires
        o.size_filter.active,
        passes(m, o),
    ensures
        m.is_file,
{
}

} // verus!
