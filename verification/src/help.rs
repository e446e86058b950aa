//! The usage.
use vstd::prelude::*;

use crate::text;
use crate::text::replace_all;

verus! {

/// The usage, with marks for the styles: `{b}` bold, `{w}` bold white, `{c}` bold
/// cyan, `{y}` bold yellow, `{g}` green, `{r}` back to normal.
pub const USAGE: &'static str = "\
{b}usage:{r} {w}shell-cmd-rs{r} [options] path \"command %1 [%2 %3..]\" regex [extra_args..]

{w}Recursively find files matching regex and run command for each.{r}
{c}(Rust implementation of shell-cmd){r}

{y}placeholders:{r}
  {g}%0{r}          filename only (no path, per-match mode)
  {g}%1{r}          full path to matched file
  {g}%2+{r}         extra arguments from command line
  {g}%b{r}          basename without extension
  {g}%e{r}          file extension (including dot)

  (with -l/--list-all) %0 expands to all matched paths joined by spaces

{y}options:{r}
  {g}-n, --dry-run{r}       dry-run, print commands without executing
  {g}-v, --verbose{r}       verbose, print each command before running
  {g}-a, --all{r}           include hidden files/directories
  {g}-l, --list-all{r}      collect all matches and invoke command once with %0=all-matches
  {g}-d, --depth N{r}       max recursion depth (0 = current dir only)
  {g}-s, --size SIZE{r}     filter by size: +10M (>10MB), -1K (<1KB),
                      4096 (exactly 4096 bytes). Suffixes: K, M, G
  {g}-m, --mtime DAYS{r}    filter by modification time: +7 (older than 7 days),
                      -1 (modified within last day), 3 (exactly 3 days)
  {g}-p, --perm MODE{r}     filter by permissions (octal), e.g. 755
  {g}-u, --user USER{r}     filter by owner username
  {g}-g, --group GROUP{r}   filter by group name
  {g}-t, --type TYPE{r}     filter by type: f (file), d (directory), l (symlink)
  {g}-x, --exclude REGEX{r} exclude files/directories matching REGEX
  {g}-i, --glob-exclude{r}  treat exclude pattern as a glob instead of regex
  {g}-e, --stop-on-error{r} stop on first command failure
  {g}-c, --confirm{r}       prompt for confirmation before each command
  {g}-j, --jobs N{r}        run N commands in parallel (default: 1)
  {g}-w, --shell SHELL{r}   shell to use for execution (default: /bin/bash)
  {g}-b, --glob{r}          treat pattern as a glob (*, ?) instead of regex
  {g}-z, --regex-match{r}   use regex-match (full path must match) instead of search
  {g}-f, --expr EXPR{r}     expression filter: compose glob(), regex(), regex_match()
                      with and/or/not and parentheses
  {g}-h, --help{r}          show this help

{y}regex modes:{r}
  By default, the regex is tested as a {g}substring search{r} (matches anywhere
  in the path). With {g}-z{r}/{g}--regex-match{r}, the entire path must match the
  pattern (equivalent to anchoring with ^...$).

{y}glob mode:{r}
  With {g}-b{r}/{g}--glob{r}, write familiar wildcard patterns instead of regex:
  {g}*{r} matches anything, {g}?{r} matches a single character, and regex-special
  characters ({g}.{r}, {g}+{r}, {g}({r}, etc.) are auto-escaped.

{y}expr mode:{r}
  With {g}-f{r}/{g}--expr{r}, compose filter functions with boolean operators:
  {g}glob(\"pattern\"){r}, {g}regex(\"pattern\"){r}, {g}regex_match(\"pattern\"){r}
  combined with {g}and{r}, {g}or{r}, {g}not{r}, and parentheses.
  When --expr is used, the regex positional argument is not required.";

/// `template` with the mark replaced by the escape sequence, or taken out where
/// there is no color.
pub open spec fn marked(
    template: Seq<char>,
    mark: Seq<char>,
    escape: Seq<char>,
    color: bool,
) -> Seq<char> {
    text::replaced(
        template,
        mark,
        if color {
            escape
        } else {
            ""@
        },
    )
}

/// `template` with all marks replaced or taken out.
pub open spec fn styled(template: Seq<char>, color: bool) -> Seq<char> {
    let t1 = marked(template, "{b}"@, "\x1b[1m"@, color);
    let t2 = marked(t1, "{w}"@, "\x1b[1;37m"@, color);
    let t3 = marked(t2, "{c}"@, "\x1b[1;36m"@, color);
    let t4 = marked(t3, "{y}"@, "\x1b[1;33m"@, color);
    let t5 = marked(t4, "{g}"@, "\x1b[32m"@, color);
    marked(t5, "{r}"@, "\x1b[0m"@, color)
}

/// Replaces a mark by the escape sequence, or takes it out where there is no color.
fn mark_up(template: &str, mark: &str, escape: &str, color: bool) -> (r: String)
    ensures
        r@ == marked(template@, mark@, escape@, color),
{
    if color {
        replace_all(template, mark, escape)
    } else {
        replace_all(template, mark, "")
    }
}

/// Replaces all marks of a template, or takes them out where there is no color.
pub fn style(template: &str, color: bool) -> (r: String)
    ensures
        r@ == styled(template@, color),
{
    let t1: String = mark_up(template, "{b}", "\x1b[1m", color);
    let t2: String = mark_up(t1.as_str(), "{w}", "\x1b[1;37m", color);
    let t3: String = mark_up(t2.as_str(), "{c}", "\x1b[1;36m", color);
    let t4: String = mark_up(t3.as_str(), "{y}", "\x1b[1;33m", color);
    let t5: String = mark_up(t4.as_str(), "{g}", "\x1b[32m", color);
    mark_up(t5.as_str(), "{r}", "\x1b[0m", color)
}

/// The usage as it is printed.
pub fn help_text(color: bool) -> (r: String)
    ensures
        r@ == styled(USAGE@, color),
{
    style(USAGE, color)
}

} // verus!
