//! From the command line to a run: options, patterns, expression and arguments.
use vstd::prelude::*;

use crate::command;
use crate::command::{has_placeholder, substitute};
use crate::expr;
use crate::expr::ExprNode;
use crate::filter;
use crate::filter::{
    parse_size_filter,
    parse_time_filter,
    size_fits,
    CmpOp,
    FilterError,
    SizeFilter,
    TimeFilter,
};
use crate::glob;
use crate::glob::glob_to_regex;
use crate::options::Options;
use crate::parser;
use crate::parser::{parse_expr, ExprError};
#[allow(unused_imports)]
use crate::parser::Fault;
use crate::path;
use crate::pattern;
use crate::pattern::{anchor, Pattern};
use crate::placeholder_laws;
use crate::text;
use crate::text::{chars_of, decimal_text, join2, join3, string_of};
use crate::walk::Search;

verus! {

/// The command line, option by option.
pub struct Cli {
    pub dry_run: bool,
    pub verbose: bool,
    pub all: bool,
    pub depth: Option<i32>,
    pub size: Option<String>,
    pub mtime: Option<String>,
    pub perm: Option<String>,
    pub user: Option<String>,
    pub group: Option<String>,
    pub type_filter: Option<char>,
    pub exclude: Option<String>,
    pub stop_on_error: bool,
    pub confirm: bool,
    pub list_all: bool,
    pub jobs: i32,
    pub shell: String,
    /// The path, the command, the search pattern and the extra arguments.
    pub args: Vec<String>,
    pub glob: bool,
    pub regex_match: bool,
    pub glob_exclude: bool,
    pub expr: Option<String>,
}

/// What can be wrong with a command line.
#[derive(Debug)]
pub enum SetupError {
    InvalidType { c: char },
    Filter(FilterError),
    Expr(ExprError),
    /// Fewer than two positional arguments beside an expression.
    TooFewWithExpr,
    /// Fewer than three positional arguments.
    TooFew,
    InvalidRegex { source: String, reason: String },
    InvalidExclude { source: String, reason: String },
    /// The command has no placeholder for an extra argument.
    NoPlaceholder { index: usize, argument: String },
}

/// What is wrong with a command line, as a mathematical value.
pub enum Refusal {
    InvalidType(char),
    InvalidSize(Seq<char>),
    InvalidTime(Seq<char>),
    InvalidPermission(Seq<char>),
    Expr(Fault),
    TooFewWithExpr,
    TooFew,
    InvalidRegex(Seq<char>, Seq<char>),
    InvalidExclude(Seq<char>, Seq<char>),
    NoPlaceholder(nat, Seq<char>),
}

impl View for SetupError {
    type V = Refusal;

    open spec fn view(&self) -> Refusal {
        match self {
            SetupError::InvalidType { c } => Refusal::InvalidType(*c),
            SetupError::Filter(FilterError::InvalidSize { text }) => Refusal::InvalidSize(text@),
            SetupError::Filter(FilterError::InvalidTime { text }) => Refusal::InvalidTime(text@),
            SetupError::Filter(
                FilterError::InvalidPermission { text },
            ) => Refusal::InvalidPermission(text@),
            SetupError::Expr(e) => Refusal::Expr(e@),
            SetupError::TooFewWithExpr => Refusal::TooFewWithExpr,
            SetupError::TooFew => Refusal::TooFew,
            SetupError::InvalidRegex { source, reason } => Refusal::InvalidRegex(source@, reason@),
            SetupError::InvalidExclude { source, reason } => Refusal::InvalidExclude(
                source@,
                reason@,
            ),
            SetupError::NoPlaceholder { index, argument } => Refusal::NoPlaceholder(
                *index as nat,
                argument@,
            ),
        }
    }
}

/// The message for a refusal.
pub open spec fn refusal_message(r: Refusal) -> Seq<char> {
    match r {
        Refusal::InvalidType(c) => "invalid type '"@ + seq![c]
            + "'. Use f (file), d (directory), or l (symlink)."@,
        Refusal::InvalidSize(s) => "invalid size value '"@ + s + "'"@,
        Refusal::InvalidTime(s) => "invalid time value '"@ + s + "'"@,
        Refusal::InvalidPermission(s) => "invalid permission filter '"@ + s + "'"@,
        Refusal::Expr(f) => parser::fault_message(f),
        Refusal::TooFewWithExpr =>
            "at least two positional arguments required when --expr is used."@,
        Refusal::TooFew => "at least three positional arguments required."@,
        Refusal::InvalidRegex(source, reason) => "invalid regex '"@ + source + "': "@ + reason,
        Refusal::InvalidExclude(source, reason) => "invalid exclude regex '"@ + source + "': "@
            + reason,
        Refusal::NoPlaceholder(index, argument) => "command has no placeholder %"@ + text::decimal(
            index,
        ) + " for extra argument \""@ + argument + "\""@,
    }
}

impl SetupError {
    /// The message to show for the error.
    pub fn message(&self) -> (s: String)
        ensures
            s@ == refusal_message(self@),
    {
        match self {
            SetupError::InvalidType { c } => {
                let mut shown: String = "".to_owned();
                shown.push(*c);
                proof {
                    reveal_strlit("");
                    assert(shown@ =~= seq![*c]);
                }
                join3(
                    "invalid type '",
                    shown.as_str(),
                    "'. Use f (file), d (directory), or l (symlink).",
                )
            },
            SetupError::Filter(e) => e.message(),
            SetupError::Expr(e) => e.message(),
            SetupError::TooFewWithExpr => {
                "at least two positional arguments required when --expr is used.".to_owned()
            },
            SetupError::TooFew => "at least three positional arguments required.".to_owned(),
            SetupError::InvalidRegex { source, reason } => {
                let start: String = join3("invalid regex '", source.as_str(), "': ");
                join2(start.as_str(), reason.as_str())
            },
            SetupError::InvalidExclude { source, reason } => {
                let start: String = join3("invalid exclude regex '", source.as_str(), "': ");
                join2(start.as_str(), reason.as_str())
            },
            SetupError::NoPlaceholder { index, argument } => {
                let number: String = decimal_text(*index as u64);
                let start: String = join3(
                    "command has no placeholder %",
                    number.as_str(),
                    " for extra argument \"",
                );
                join3(start.as_str(), argument.as_str(), "\"")
            },
        }
    }

    /// Whether the usage is shown along with the message.
    pub fn shows_help(&self) -> (b: bool)
        ensures
            b == (self@ is TooFew || self@ is TooFewWithExpr),
    {
        match self {
            SetupError::TooFew | SetupError::TooFewWithExpr => true,
            _ => false,
        }
    }
}

// ---------------------------------------------------------------------------
// Options
// ---------------------------------------------------------------------------

/// The text of an option, empty where the option is not given.
pub open spec fn given(t: Option<String>) -> Seq<char> {
    match t {
        Some(s) => s@,
        None => Seq::empty(),
    }
}

/// The character names a type.
pub open spec fn is_type(c: char) -> bool {
    c == 'f' || c == 'd' || c == 'l'
}

/// The text after the last slash.
pub open spec fn base_name(s: Seq<char>) -> Seq<char> {
    s.skip(path::last_part_start(s) as int)
}

/// The size filter, where it comes to be read, asks for a size that fits in 64 bits.
pub open spec fn sizes_fit(c: Cli) -> bool {
    ||| c.type_filter is Some && !is_type(c.type_filter->0)
    ||| c.size is None
    ||| filter::size_in_range(given(c.size))
}

/// What is wrong with the options, if anything.
pub open spec fn options_refusal(c: Cli) -> Option<Refusal> {
    if c.type_filter is Some && !is_type(c.type_filter->0) {
        Some(Refusal::InvalidType(c.type_filter->0))
    } else if c.size is Some && filter::bytes_in(filter::without_op(given(c.size))) is None {
        Some(Refusal::InvalidSize(given(c.size)))
    } else if c.mtime is Some && text::signed_in(filter::without_op(given(c.mtime))) is None {
        Some(Refusal::InvalidTime(given(c.mtime)))
    } else {
        None
    }
}

/// The size filter is the one that the command line asks for.
pub open spec fn size_filter_of(f: SizeFilter, size: Option<String>) -> bool {
    match size {
        Some(s) => f.active && f.op == filter::op_of(s@) && Some(f.bytes as nat)
            == filter::bytes_in(filter::without_op(s@)),
        None => f == SizeFilter { active: false, op: CmpOp::Eq, bytes: 0 },
    }
}

/// The time filter is the one that the command line asks for.
pub open spec fn time_filter_of(f: TimeFilter, mtime: Option<String>) -> bool {
    match mtime {
        Some(s) => f.active && f.op == filter::op_of(s@) && Some(f.days as int) == text::signed_in(
            filter::without_op(s@),
        ),
        None => f == TimeFilter { active: false, op: CmpOp::Eq, days: 0 },
    }
}

/// The options are those that the command line asks for.
pub open spec fn options_of(o: Options, c: Cli) -> bool {
    &&& o.dry_run == c.dry_run
    &&& o.verbose == c.verbose
    &&& o.hidden == c.all
    &&& o.max_depth == match c.depth {
        Some(depth) => depth as int,
        None => -1,
    }
    &&& size_filter_of(o.size_filter, c.size)
    &&& time_filter_of(o.mtime_filter, c.mtime)
    &&& o.perm_filter@ == given(c.perm)
    &&& o.user_filter@ == given(c.user)
    &&& o.group_filter@ == given(c.group)
    &&& o.type_filter == match c.type_filter {
        Some(t) => t,
        None => '\0',
    }
    &&& o.exclude_pattern@ == given(c.exclude)
    &&& o.stop_on_error == c.stop_on_error
    &&& o.confirm == c.confirm
    &&& o.jobs == if c.jobs > 1 {
        c.jobs as int
    } else {
        1
    }
    &&& o.shell@ == c.shell@
    &&& o.shell_name@ == base_name(c.shell@)
    &&& o.collect_all == c.list_all
    &&& o.glob == c.glob
    &&& o.regex_match == c.regex_match
    &&& o.glob_exclude == c.glob_exclude
    &&& o.expr_str@ == given(c.expr)
}

/// The text of an option, empty where the option is not given.
fn text_of(t: &Option<String>) -> (s: String)
    ensures
        s@ == given(*t),
{
    match t {
        Some(s) => s.clone(),
        None => {
            proof {
                reveal_strlit("");
                assert(""@ =~= Seq::<char>::empty());
            }
            "".to_owned()
        },
    }
}

/// The text after the last slash.
pub fn shell_base(shell: &str) -> (r: String)
    ensures
        r@ == base_name(shell@),
{
    let v: Vec<char> = chars_of(shell);
    let mut i: usize = v.len();
    assert(v@.take(v@.len() as int) =~= v@);
    while i > 0 && v[i - 1] != '/'
        invariant
            i <= v@.len(),
            path::last_part_start(v@) == path::last_part_start(v@.take(i as int)),
        decreases i,
    {
        assert(v@.take(i as int).drop_last() =~= v@.take(i - 1));
        i -= 1;
    }
    string_of(&v, i, v.len())
}

/// Whether the size filter, where it comes to be read, asks for a size that fits
/// in 64 bits.
pub fn check_sizes(cli: &Cli) -> (b: bool)
    ensures
        b == sizes_fit(*cli),
{
    if let Some(t) = cli.type_filter {
        if t != 'f' && t != 'd' && t != 'l' {
            return true;
        }
    }
    match &cli.size {
        Some(s) => size_fits(s.as_str()),
        None => true,
    }
}

/// Reads the options off the command line.
pub fn options(cli: &Cli) -> (r: Result<Options, SetupError>)
    requires
        sizes_fit(*cli),
    ensures
        match r {
            Ok(o) => options_refusal(*cli) is None && options_of(o, *cli),
            Err(e) => options_refusal(*cli) == Some(e@),
        },
{
    let type_filter: char = match cli.type_filter {
        Some(t) => {
            if t != 'f' && t != 'd' && t != 'l' {
                return Err(SetupError::InvalidType { c: t });
            }
            t
        },
        None => '\0',
    };
    let size_filter: SizeFilter = match &cli.size {
        Some(s) => match parse_size_filter(s.as_str()) {
            Ok(f) => f,
            Err(e) => {
                return Err(SetupError::Filter(e));
            },
        },
        None => SizeFilter { active: false, op: CmpOp::Eq, bytes: 0 },
    };
    let mtime_filter: TimeFilter = match &cli.mtime {
        Some(s) => match parse_time_filter(s.as_str()) {
            Ok(f) => f,
            Err(e) => {
                return Err(SetupError::Filter(e));
            },
        },
        None => TimeFilter { active: false, op: CmpOp::Eq, days: 0 },
    };
    Ok(
        Options {
            dry_run: cli.dry_run,
            verbose: cli.verbose,
            hidden: cli.all,
            max_depth: match cli.depth {
                Some(depth) => depth,
                None => -1,
            },
            size_filter,
            mtime_filter,
            perm_filter: text_of(&cli.perm),
            user_filter: text_of(&cli.user),
            group_filter: text_of(&cli.group),
            type_filter,
            exclude_pattern: text_of(&cli.exclude),
            stop_on_error: cli.stop_on_error,
            confirm: cli.confirm,
            jobs: if cli.jobs > 1 {
                cli.jobs
            } else {
                1
            },
            shell: cli.shell.clone(),
            shell_name: shell_base(cli.shell.as_str()),
            collect_all: cli.list_all,
            glob: cli.glob,
            regex_match: cli.regex_match,
            glob_exclude: cli.glob_exclude,
            expr_str: text_of(&cli.expr),
        },
    )
}

// ---------------------------------------------------------------------------
// Patterns
// ---------------------------------------------------------------------------

/// A pattern as a regular expression: translated where it is a glob, anchored
/// where it has to match a whole text.
pub open spec fn pattern_source(written: Seq<char>, is_glob: bool, whole: bool) -> Seq<char> {
    let source = if is_glob {
        glob::glob_regex(written)
    } else {
        written
    };
    if whole {
        pattern::anchored(source)
    } else {
        source
    }
}

/// A pattern as a regular expression.
pub fn source_text(written: &str, is_glob: bool, whole: bool) -> (r: String)
    ensures
        r@ == pattern_source(written@, is_glob, whole),
{
    let source: String = if is_glob {
        glob_to_regex(written)
    } else {
        written.to_owned()
    };
    if whole {
        anchor(source.as_str())
    } else {
        source
    }
}

/// The regular expression to search for: the third positional argument, or one
/// that matches everything where there is none.
pub open spec fn search_source(args: Seq<Seq<char>>, is_glob: bool, whole: bool) -> Seq<char> {
    if args.len() >= 3 {
        pattern_source(args[2], is_glob, whole)
    } else {
        pattern_source(".*"@, false, whole)
    }
}

/// The search pattern, once it has been compiled or refused.
pub fn search_pattern(source: String, compiled: Result<Pattern, String>) -> (r: Result<
    Pattern,
    SetupError,
>)
    ensures
        match compiled {
            Ok(p) => r == Ok::<Pattern, SetupError>(p),
            Err(reason) => r matches Err(e) && e@ == Refusal::InvalidRegex(source@, reason@),
        },
{
    match compiled {
        Ok(p) => Ok(p),
        Err(reason) => Err(SetupError::InvalidRegex { source, reason }),
    }
}

/// The exclude pattern, once it has been compiled or refused.
pub fn excluded_pattern(source: String, compiled: Result<Pattern, String>) -> (r: Result<
    Pattern,
    SetupError,
>)
    ensures
        match compiled {
            Ok(p) => r == Ok::<Pattern, SetupError>(p),
            Err(reason) => r matches Err(e) && e@ == Refusal::InvalidExclude(source@, reason@),
        },
{
    match compiled {
        Ok(p) => Ok(p),
        Err(reason) => Err(SetupError::InvalidExclude { source, reason }),
    }
}

// ---------------------------------------------------------------------------
// Extra arguments
// ---------------------------------------------------------------------------

/// The number of the first extra argument among the positional ones.
pub open spec fn extra_start(count: nat) -> nat {
    if count >= 3 {
        3
    } else {
        2
    }
}

/// How many arguments a command has: the matched path, whose place is unused where
/// there is one command for all matches, and the extra arguments.
pub open spec fn arg_count(count: nat) -> nat {
    (count - extra_start(count) + 1) as nat
}

/// The number of the placeholder for the positional argument numbered `i`: the
/// first extra argument has the number two.
pub open spec fn number_of(count: nat, i: nat) -> nat {
    (2 + i - extra_start(count)) as nat
}

/// The command mentions the placeholder with this number.
pub open spec fn has_number(args: Seq<Seq<char>>, list_all: bool, number: nat) -> bool {
    command::mentions(
        args[1],
        command::name_chars(list_all, arg_count(args.len())),
        command::numbers(list_all, arg_count(args.len())),
        number,
    )
}

/// The first extra argument from the positional one numbered `i` on for which the
/// command has no placeholder.
pub open spec fn missing_placeholder(args: Seq<Seq<char>>, list_all: bool, i: nat) -> Option<
    Refusal,
>
    decreases args.len() - i,
{
    if i >= args.len() {
        None
    } else if !has_number(args, list_all, number_of(args.len(), i)) {
        Some(Refusal::NoPlaceholder(number_of(args.len(), i), args[i as int]))
    } else {
        missing_placeholder(args, list_all, i + 1)
    }
}

/// The arguments of a command: a place for the matched path, and the extra
/// arguments.
pub open spec fn command_args(args: Seq<Seq<char>>) -> Seq<Seq<char>> {
    seq!["filename"@] + args.skip(extra_start(args.len()) as int)
}

/// Checks the extra arguments and puts together the arguments of a command.
pub fn check_extra_args(args: &Vec<String>, list_all: bool) -> (r: Result<Vec<String>, SetupError>)
    requires
        args@.len() >= 2,
    ensures
        match (r, missing_placeholder(
            command::views(args@),
            list_all,
            extra_start(args@.len()),
        )) {
            (Ok(v), None) => command::views(v@) == command_args(command::views(args@)),
            (Err(e), Some(refusal)) => e@ == refusal,
            _ => false,
        },
{
    let ghost all = command::views(args@);
    let start: usize = if args.len() >= 3 {
        3
    } else {
        2
    };
    let count: usize = args.len() - start + 1;
    let mut found: Vec<String> = Vec::new();
    found.push("filename".to_owned());
    let mut i: usize = start;
    let ghost front: Seq<Seq<char>> = seq!["filename"@];
    assert(command::views(found@) =~= front + all.subrange(start as int, i as int));
    while i < args.len()
        invariant
            start == extra_start(args@.len()),
            2 <= start <= i <= args@.len(),
            count == arg_count(args@.len()),
            all == command::views(args@),
            command::views(found@) == front + all.subrange(start as int, i as int),
            missing_placeholder(all, list_all, start as nat) == missing_placeholder(
                all,
                list_all,
                i as nat,
            ),
        decreases args@.len() - i,
    {
        let number: usize = i - start + 2;
        if !has_placeholder(args[1].as_str(), list_all, count, number) {
            return Err(
                SetupError::NoPlaceholder { index: number, argument: args[i].clone() },
            );
        }
        let ghost before = found@;
        found.push(args[i].clone());
        i += 1;
        assert(command::views(found@) =~= command::views(before).push(all[i - 1]));
        assert(all.subrange(start as int, i as int) =~= all.subrange(
            start as int,
            i - 1,
        ).push(all[i - 1]));
        assert(command::views(found@) =~= front + all.subrange(start as int, i as int));
    }
    assert(all.subrange(start as int, i as int) =~= all.skip(start as int));
    Ok(found)
}

// ---------------------------------------------------------------------------
// The whole command line
// ---------------------------------------------------------------------------

/// A run that is ready to start.
pub struct Plan {
    /// The directory to start in.
    pub path: String,
    /// The command template.
    pub command: String,
    pub search: Search,
    /// The arguments of the command.
    pub args: Vec<String>,
    pub opts: Options,
}

/// The source of the search pattern.
pub open spec fn search_source_of(c: Cli) -> Seq<char> {
    search_source(command::views(c.args@), c.glob, c.regex_match)
}

/// The source of the exclude pattern, if there is one.
pub open spec fn exclude_source_of(c: Cli) -> Option<Seq<char>> {
    if given(c.exclude).len() == 0 {
        None
    } else {
        Some(pattern_source(given(c.exclude), c.glob_exclude, c.regex_match))
    }
}

/// What is wrong with the expression, if anything. There is none where its text
/// is empty.
pub open spec fn expr_refusal(c: Cli) -> Option<Refusal> {
    if given(c.expr).len() == 0 {
        None
    } else {
        match parser::parsed_text(given(c.expr)) {
            Ok(_) => None,
            Err(f) => Some(Refusal::Expr(f)),
        }
    }
}

/// The refusal where there are too few positional arguments.
pub open spec fn count_refusal(c: Cli) -> Option<Refusal> {
    if given(c.expr).len() > 0 {
        if c.args@.len() < 2 {
            Some(Refusal::TooFewWithExpr)
        } else {
            None
        }
    } else if c.args@.len() < 3 {
        Some(Refusal::TooFew)
    } else {
        None
    }
}

/// What is wrong with the patterns, if anything.
pub open spec fn patterns_refusal(c: Cli) -> Option<Refusal> {
    match pattern::error_here(search_source_of(c)) {
        Some(reason) => Some(Refusal::InvalidRegex(search_source_of(c), reason)),
        None => match exclude_source_of(c) {
            Some(source) => match pattern::error_here(source) {
                Some(reason) => Some(Refusal::InvalidExclude(source, reason)),
                None => None,
            },
            None => None,
        },
    }
}

/// What is wrong with the extra arguments, if anything.
pub open spec fn extra_refusal(c: Cli) -> Option<Refusal> {
    missing_placeholder(command::views(c.args@), c.list_all, extra_start(c.args@.len()))
}

/// What is wrong with a command line, if anything: the first of all things that
/// are wrong, in this order.
pub open spec fn refusal(c: Cli) -> Option<Refusal> {
    if options_refusal(c) is Some {
        options_refusal(c)
    } else if expr_refusal(c) is Some {
        expr_refusal(c)
    } else if count_refusal(c) is Some {
        count_refusal(c)
    } else if patterns_refusal(c) is Some {
        patterns_refusal(c)
    } else {
        extra_refusal(c)
    }
}

/// The search looks for what the command line asks for.
pub open spec fn search_of(s: Search, c: Cli) -> bool {
    &&& s.regex@ == search_source_of(c)
    &&& match (s.exclude, exclude_source_of(c)) {
        (Some(p), Some(source)) => p@ == source,
        (None, None) => true,
        _ => false,
    }
    &&& match s.expr {
        Some(node) => {
            &&& given(c.expr).len() > 0
            &&& parser::parsed_text(given(c.expr)) matches Ok(e)
            &&& expr::represents(*node, e)
        },
        None => given(c.expr).len() == 0,
    }
}

/// The run is the one that the command line asks for.
pub open spec fn plan_of(p: Plan, c: Cli) -> bool {
    &&& p.path@ == c.args@[0]@
    &&& p.command@ == c.args@[1]@
    &&& search_of(p.search, c)
    &&& command::views(p.args@) == command_args(command::views(c.args@))
    &&& options_of(p.opts, c)
}

/// Compiles the patterns of a command line.
fn compile_patterns(cli: &Cli) -> (r: Result<(Pattern, Option<Pattern>), SetupError>)
    requires
        cli.args@.len() >= 2,
    ensures
        match r {
            Ok((regex, exclude)) => {
                &&& patterns_refusal(*cli) is None
                &&& regex@ == search_source_of(*cli)
                &&& match (exclude, exclude_source_of(*cli)) {
                    (Some(p), Some(source)) => p@ == source,
                    (None, None) => true,
                    _ => false,
                }
            },
            Err(e) => patterns_refusal(*cli) == Some(e@),
        },
{
    let source: String = if cli.args.len() >= 3 {
        source_text(cli.args[2].as_str(), cli.glob, cli.regex_match)
    } else {
        source_text(".*", false, cli.regex_match)
    };
    assert(source@ == search_source_of(*cli));
    let compiled: Result<Pattern, String> = Pattern::compile(source.as_str());
    let regex: Pattern = match search_pattern(source, compiled) {
        Ok(p) => p,
        Err(e) => {
            return Err(e);
        },
    };
    let written: String = text_of(&cli.exclude);
    if written.as_str().is_empty() {
        return Ok((regex, None));
    }
    let excluded: String = source_text(written.as_str(), cli.glob_exclude, cli.regex_match);
    let compiled: Result<Pattern, String> = Pattern::compile(excluded.as_str());
    match excluded_pattern(excluded, compiled) {
        Ok(p) => Ok((regex, Some(p))),
        Err(e) => Err(e),
    }
}

/// Makes a run of a command line, or says what is wrong with it.
pub fn setup(cli: &Cli) -> (r: Result<Plan, SetupError>)
    requires
        sizes_fit(*cli),
    ensures
        match r {
            Ok(p) => refusal(*cli) is None && plan_of(p, *cli),
            Err(e) => refusal(*cli) == Some(e@),
        },
{
    let opts: Options = match options(cli) {
        Ok(o) => o,
        Err(e) => {
            return Err(e);
        },
    };
    let expr_root: Option<Box<ExprNode>> = if opts.expr_str.as_str().is_empty() {
        None
    } else {
        match parse_expr(opts.expr_str.as_str()) {
            Ok(node) => Some(node),
            Err(e) => {
                return Err(SetupError::Expr(e));
            },
        }
    };
    if expr_root.is_some() {
        if cli.args.len() < 2 {
            return Err(SetupError::TooFewWithExpr);
        }
    } else if cli.args.len() < 3 {
        return Err(SetupError::TooFew);
    }
    let (regex, exclude): (Pattern, Option<Pattern>) = match compile_patterns(cli) {
        Ok(patterns) => patterns,
        Err(e) => {
            return Err(e);
        },
    };
    let args: Vec<String> = match check_extra_args(&cli.args, cli.list_all) {
        Ok(v) => v,
        Err(e) => {
            return Err(e);
        },
    };
    Ok(
        Plan {
            path: cli.args[0].clone(),
            command: cli.args[1].clone(),
            search: Search { regex, exclude, expr: expr_root },
            args,
            opts,
        },
    )
}

impl Plan {
    /// The command for one match.
    pub fn command_for(&mut self, matched: String) -> (r: String)
        requires
            old(self).args@.len() > 0,
        ensures
            command::views(final(self).args@) == command::views(old(self).args@).update(
                0,
                matched@,
            ),
            final(self).path == old(self).path,
            final(self).command == old(self).command,
            final(self).search == old(self).search,
            final(self).opts == old(self).opts,
            r@ == command::substituted(
                old(self).command@,
                command::views(old(self).args@).update(0, matched@),
                None,
            ),
    {
        self.args.set(0, matched);
        assert(command::views(self.args@) =~= command::views(old(self).args@).update(0, matched@));
        substitute(self.command.as_str(), &self.args, None)
    }

    /// The command for all matches at once.
    pub fn command_for_all(&self, files: &str) -> (r: String)
        ensures
            r@ == command::substituted(
                self.command@,
                command::views(self.args@),
                Some(files@),
            ),
    {
        substitute(self.command.as_str(), &self.args, Some(files))
    }
}

// ---------------------------------------------------------------------------
// Laws
// ---------------------------------------------------------------------------

/// In a run that starts, the command has a placeholder of its own for every extra
/// argument, read the way the command is filled in: `%10` is none for the first.
pub proof fn every_extra_argument_has_a_placeholder(c: Cli, i: int)
    requires
        refusal(c) is None,
        extra_start(c.args@.len()) <= i < c.args@.len(),
    ensures
        has_number(
            command::views(c.args@),
            c.list_all,
            number_of(c.args@.len(), i as nat),
        ),
{
    lemma_placeholders_occur(
        command::views(c.args@),
        c.list_all,
        extra_start(c.args@.len()),
        i,
    );
}

proof fn lemma_placeholders_occur(args: Seq<Seq<char>>, list_all: bool, start: nat, i: int)
    requires
        missing_placeholder(args, list_all, start) is None,
        start <= i < args.len(),
    ensures
        has_number(args, list_all, number_of(args.len(), i as nat)),
    decreases args.len() - start,
{
    if start < i {
        lemma_placeholders_occur(args, list_all, start + 1, i);
    }
}

/// The placeholder checked for an extra argument stands for that argument.
pub proof fn placeholder_stands_for_its_argument(args: Seq<Seq<char>>, i: int)
    requires
        args.len() >= 2,
        extra_start(args.len()) <= i < args.len(),
    ensures
        command_args(args)[number_of(args.len(), i as nat) - 1] == args[i],
        command_args(args).len() == arg_count(args.len()),
{
}

/// In a run that starts, every extra argument goes into every command: into the
/// one for a match, and in list-all mode into the one for all of them, there in
/// quotes where it holds a space.
pub proof fn every_extra_argument_is_put_in(
    c: Cli,
    i: int,
    matched: Seq<char>,
    file_string: Option<Seq<char>>,
)
    requires
        refusal(c) is None,
        extra_start(c.args@.len()) <= i < c.args@.len(),
        c.list_all == file_string is Some,
    ensures
        text::occurs_in(
            command::substituted(
                c.args@[1]@,
                command_args(command::views(c.args@)).update(0, matched),
                file_string,
            ),
            if c.list_all {
                command::quoted(c.args@[i]@)
            } else {
                c.args@[i]@
            },
        ),
{
    let all = command::views(c.args@);
    let args = command_args(all).update(0, matched);
    let number = number_of(all.len(), i as nat);
    every_extra_argument_has_a_placeholder(c, i);
    placeholder_stands_for_its_argument(all, i);
    assert(command::names_of(args, file_string).dom() =~= command::name_chars(
        c.list_all,
        args.len(),
    ));
    placeholder_laws::mentioned_value_is_put_in(all[1], number, args, file_string);
    assert(args[number - 1] == all[i]);
}

/// A run never has fewer than one command at a time, and a type filter names a
/// type or is off.
pub proof fn options_are_sane(o: Options, c: Cli)
    requires
        options_refusal(c) is None,
        options_of(o, c),
    ensures
        o.jobs >= 1,
        is_type(o.type_filter) || o.type_filter == '\0',
        !base_name(c.shell@).contains('/'),
{
    path::last_part_has_no_slash(c.shell@);
}

/// Without a search pattern among the positional arguments, there is an
/// expression.
pub proof fn search_is_never_empty(c: Cli)
    requires
        refusal(c) is None,
    ensures
        c.args@.len() >= 2,
        c.args@.len() < 3 ==> given(c.expr).len() > 0,
{
}

} // verus!
