//! Finding files in a directory tree and running shell commands for them.
//!
//! The library decides; reading directories, starting processes and printing are
//! left to its caller. [`setup`] makes a run of a command line. [`walk`] goes
//! through a tree and finds the entries that match, by a pattern ([`glob`],
//! [`pattern`]) or by an expression ([`token`], [`parser`], [`expr`]) and by what
//! is known of them ([`filter`]). [`command`] fills in the placeholders of the
//! command template. [`session`] runs the commands, one at a time through
//! [`system`] or several in parallel. [`report`] and [`help`] hold what is
//! printed. The modules whose names end in `laws`, and [`grammar`], state what
//! holds of all this taken together.
pub mod command;
pub mod expr;
pub mod expr_laws;
pub mod filter;
pub mod filter_laws;
pub mod glob;
pub mod glob_laws;
pub mod grammar;
pub mod help;
pub mod options;
pub mod parser;
pub mod path;
pub mod pattern;
pub mod placeholder_laws;
pub mod report;
pub mod report_laws;
pub mod search_laws;
pub mod session;
pub mod session_laws;
pub mod setup;
pub mod setup_laws;
pub mod system;
pub mod text;
pub mod text_laws;
pub mod token;
pub mod walk;
pub mod walk_laws;
