//! Expressions that select paths: `glob`, `regex` and `regex_match` predicates
//! combined with `and`, `or` and `not`.
use vstd::prelude::*;

use crate::glob;
use crate::pattern;
use crate::pattern::Pattern;

verus! {

/// The kinds of node.
#[derive(Debug, Clone, Copy, PartialEq, Eq, Structural)]
pub enum ExprType {
    Glob,
    RegexSearch,
    RegexMatch,
    And,
    Or,
    Not,
}

/// A node of an expression. A predicate has a compiled pattern, `and` and `or`
/// have two children, and `not` has one, on the left.
pub struct ExprNode {
    pub node_type: ExprType,
    pub compiled: Option<Pattern>,
    pub left: Option<Box<ExprNode>>,
    pub right: Option<Box<ExprNode>>,
}

/// An expression as a mathematical value. The predicates hold the pattern as it
/// was written.
pub enum Expr {
    Glob(Seq<char>),
    RegexSearch(Seq<char>),
    RegexMatch(Seq<char>),
    And(Box<Expr>, Box<Expr>),
    Or(Box<Expr>, Box<Expr>),
    Not(Box<Expr>),
}

/// The regular expression that stands for a predicate.
pub open spec fn predicate_source(kind: ExprType, written: Seq<char>) -> Seq<char> {
    match kind {
        ExprType::Glob => glob::glob_regex(written),
        ExprType::RegexMatch => pattern::anchored(written),
        _ => written,
    }
}

/// The predicate of the given kind with the given pattern.
pub open spec fn predicate(kind: ExprType, written: Seq<char>) -> Expr {
    match kind {
        ExprType::Glob => Expr::Glob(written),
        ExprType::RegexMatch => Expr::RegexMatch(written),
        _ => Expr::RegexSearch(written),
    }
}

/// Whether an expression selects a path.
pub open spec fn selects(e: Expr, path: Seq<char>) -> bool
    decreases e,
{
    match e {
        Expr::Glob(p) => pattern::source_is_match(
            predicate_source(ExprType::Glob, p),
            path,
        ),
        Expr::RegexSearch(p) => pattern::source_is_match(
            predicate_source(ExprType::RegexSearch, p),
            path,
        ),
        Expr::RegexMatch(p) => pattern::source_is_match(
            predicate_source(ExprType::RegexMatch, p),
            path,
        ),
        Expr::And(l, r) => selects(*l, path) && selects(*r, path),
        Expr::Or(l, r) => selects(*l, path) || selects(*r, path),
        Expr::Not(c) => !selects(*c, path),
    }
}

/// `node` is a predicate of the given kind whose pattern was written `written`.
pub open spec fn is_predicate_node(node: ExprNode, kind: ExprType, written: Seq<char>) -> bool {
    &&& node.node_type == kind
    &&& node.compiled matches Some(p)
    &&& p@ == predicate_source(kind, written)
    &&& node.left is None
    &&& node.right is None
}

/// `node` is the node of the expression `e`.
pub open spec fn represents(node: ExprNode, e: Expr) -> bool
    decreases e,
{
    match e {
        Expr::Glob(p) => is_predicate_node(node, ExprType::Glob, p),
        Expr::RegexSearch(p) => is_predicate_node(node, ExprType::RegexSearch, p),
        Expr::RegexMatch(p) => is_predicate_node(node, ExprType::RegexMatch, p),
        Expr::And(l, r) => {
            &&& node.node_type == ExprType::And
            &&& node.compiled is None
            &&& node.left matches Some(a)
            &&& node.right matches Some(b)
            &&& represents(*a, *l)
            &&& represents(*b, *r)
        },
        Expr::Or(l, r) => {
            &&& node.node_type == ExprType::Or
            &&& node.compiled is None
            &&& node.left matches Some(a)
            &&& node.right matches Some(b)
            &&& represents(*a, *l)
            &&& represents(*b, *r)
        },
        Expr::Not(c) => {
            &&& node.node_type == ExprType::Not
            &&& node.compiled is None
            &&& node.left matches Some(a)
            &&& node.right is None
            &&& represents(*a, *c)
        },
    }
}

/// Whether an optional child accepts a path: a missing one accepts none.
pub open spec fn child_accepts(child: Option<Box<ExprNode>>, path: Seq<char>) -> bool
    decreases child, 0nat,
{
    match child {
        Some(node) => node_accepts(*node, path),
        None => false,
    }
}

/// Whether a node accepts a path. What a node lacks accepts none.
pub open spec fn node_accepts(node: ExprNode, path: Seq<char>) -> bool
    decreases node, 1nat,
{
    match node.node_type {
        ExprType::And => child_accepts(node.left, path) && child_accepts(node.right, path),
        ExprType::Or => child_accepts(node.left, path) || child_accepts(node.right, path),
        ExprType::Not => !child_accepts(node.left, path),
        _ => match node.compiled {
            Some(p) => pattern::source_is_match(p@, path),
            None => false,
        },
    }
}

impl ExprNode {
    /// Evaluates the node on a path.
    pub fn evaluate(&self, path: &str) -> (b: bool)
        ensures
            b == node_accepts(*self, path@),
        decreases self,
    {
        match self.node_type {
            ExprType::Glob | ExprType::RegexSearch | ExprType::RegexMatch => {
                match &self.compiled {
                    Some(p) => p.is_match(path),
                    None => false,
                }
            },
            ExprType::And => {
                let left: bool = match &self.left {
                    Some(node) => node.evaluate(path),
                    None => false,
                };
                left && match &self.right {
                    Some(node) => node.evaluate(path),
                    None => false,
                }
            },
            ExprType::Or => {
                let left: bool = match &self.left {
                    Some(node) => node.evaluate(path),
                    None => false,
                };
                left || match &self.right {
                    Some(node) => node.evaluate(path),
                    None => false,
                }
            },
            ExprType::Not => {
                let inner: bool = match &self.left {
                    Some(node) => node.evaluate(path),
                    None => false,
                };
                !inner
            },
        }
    }
}

/// The node of an expression accepts exactly the paths that the expression selects.
pub proof fn node_accepts_what_expr_selects(node: ExprNode, e: Expr, path: Seq<char>)
    requires
        represents(node, e),
    ensures
        node_accepts(node, path) == selects(e, path),
    decreases e,
{
    match e {
        Expr::And(l, r) => {
            node_accepts_what_expr_selects(*node.left.unwrap(), *l, path);
            node_accepts_what_expr_selects(*node.right.unwrap(), *r, path);
        },
        Expr::Or(l, r) => {
            node_accepts_what_expr_selects(*node.left.unwrap(), *l, path);
            node_accepts_what_expr_selects(*node.right.unwrap(), *r, path);
        },
        Expr::Not(c) => {
            node_accepts_what_expr_selects(*node.left.unwrap(), *c, path);
        },
        _ => {},
    }
}

/// Whether a path is selected: by the expression where there is one, else by the
/// search pattern.
pub open spec fn path_selected(
    path: Seq<char>,
    source: Seq<char>,
    expr_root: Option<&ExprNode>,
) -> bool {
    match expr_root {
        Some(root) => node_accepts(*root, path),
        None => pattern::source_is_match(source, path),
    }
}

/// Checks whether a path matches the active search pattern or expression.
pub fn entry_matches_path(fullpath: &str, regex: &Pattern, expr_root: Option<&ExprNode>) -> (b:
    bool)
    ensures
        b == path_selected(fullpath@, regex@, expr_root),
{
    match expr_root {
        Some(root) => root.evaluate(fullpath),
        None => regex.is_match(fullpath),
    }
}

} // verus!
