//! The options of a run.
use vstd::prelude::*;

use crate::filter::{SizeFilter, TimeFilter};

verus! {

/// What a run does. A filter that was not asked for is not active or has an
/// empty text.
pub struct Options {
    /// Print commands without executing them.
    pub dry_run: bool,
    /// Print each command before executing it.
    pub verbose: bool,
    /// Include entries whose name starts with a dot.
    pub hidden: bool,
    /// The deepest level to look at; a negative one sets no limit.
    pub max_depth: i32,
    pub size_filter: SizeFilter,
    pub mtime_filter: TimeFilter,
    /// Permission bits in octal.
    pub perm_filter: String,
    /// Name of the owner.
    pub user_filter: String,
    /// Name of the group.
    pub group_filter: String,
    /// `f` for files, `d` for directories, `l` for symbolic links, the null
    /// character for all.
    pub type_filter: char,
    pub exclude_pattern: String,
    /// Stop at the first command that fails.
    pub stop_on_error: bool,
    /// Ask before each command.
    pub confirm: bool,
    /// How many commands may run at a time.
    pub jobs: i32,
    /// The shell, by its path and by the last part of it.
    pub shell: String,
    pub shell_name: String,
    /// Run one command on all matches.
    pub collect_all: bool,
    /// The search pattern is a glob.
    pub glob: bool,
    /// Patterns have to match a whole text.
    pub regex_match: bool,
    /// The exclude pattern is a glob.
    pub glob_exclude: bool,
    pub expr_str: String,
}

} // verus!
