//! The recursive-descent parser for expressions.
//!
//! ```text
//! expr     := or_expr
//! or_expr  := and_expr ("or" and_expr)*
//! and_expr := not_expr ("and" not_expr)*
//! not_expr := "not" not_expr | primary
//! primary  := function "(" STRING ")" | "(" expr ")"
//! function := "glob" | "regex" | "regex_search" | "regex_match"
//! ```
use vstd::prelude::*;

use crate::expr;
#[allow(unused_imports)]
use crate::expr::Expr;
use crate::expr::{ExprNode, ExprType};
use crate::glob::glob_to_regex;
use crate::pattern;
use crate::pattern::{anchor, Pattern};
use crate::text;
use crate::text::{decimal_text, join2, join3, same_text};
use crate::token;
#[allow(unused_imports)]
use crate::token::{BadChar, ExprToken, ExprTokenType, ExprTokenizer, Lexeme, Token};

verus! {

/// What can be wrong with an expression.
#[derive(Debug)]
pub enum ExprError {
    /// A character that starts no token.
    UnexpectedChar { c: char, position: usize },
    /// Another token where `what` had to stand.
    Expected { what: String, got: String },
    /// A token that starts no predicate and no group.
    UnexpectedToken { got: String },
    /// A name that is no predicate.
    UnknownFunction { name: String },
    /// A predicate whose argument is no quoted string.
    MissingPattern,
    /// A pattern that does not compile.
    InvalidRegex { pattern: String, message: String },
    /// Something after the end of the expression.
    TrailingContent,
}

/// What is wrong with an expression, as a mathematical value.
pub enum Fault {
    UnexpectedChar(char, nat),
    Expected(Seq<char>, Seq<char>),
    UnexpectedToken(Seq<char>),
    UnknownFunction(Seq<char>),
    MissingPattern,
    InvalidRegex(Seq<char>, Seq<char>),
    TrailingContent,
}

impl View for ExprError {
    type V = Fault;

    open spec fn view(&self) -> Fault {
        match self {
            ExprError::UnexpectedChar { c, position } => Fault::UnexpectedChar(
                *c,
                *position as nat,
            ),
            ExprError::Expected { what, got } => Fault::Expected(what@, got@),
            ExprError::UnexpectedToken { got } => Fault::UnexpectedToken(got@),
            ExprError::UnknownFunction { name } => Fault::UnknownFunction(name@),
            ExprError::MissingPattern => Fault::MissingPattern,
            ExprError::InvalidRegex { pattern, message } => Fault::InvalidRegex(
                pattern@,
                message@,
            ),
            ExprError::TrailingContent => Fault::TrailingContent,
        }
    }
}

/// The message for a fault.
pub open spec fn fault_message(f: Fault) -> Seq<char> {
    match f {
        Fault::UnexpectedChar(c, position) => "unexpected character '"@ + seq![c]
            + "' in expression at position "@ + text::decimal(position),
        Fault::Expected(what, got) => "expected "@ + what + " in expression, got '"@ + got + "'"@,
        Fault::UnexpectedToken(got) => "unexpected token '"@ + got + "' in expression"@,
        Fault::UnknownFunction(name) => "unknown function '"@ + name + "' in expression"@,
        Fault::MissingPattern => "expected quoted string as function argument"@,
        Fault::InvalidRegex(pattern, message) => "invalid regex '"@ + pattern
            + "' in expression: "@ + message,
        Fault::TrailingContent => "unexpected content after expression"@,
    }
}

impl ExprError {
    /// The message to show for the error.
    pub fn message(&self) -> (s: String)
        ensures
            s@ == fault_message(self@),
    {
        match self {
            ExprError::UnexpectedChar { c, position } => {
                let mut s: String = "unexpected character '".to_owned();
                s.push(*c);
                assert(s@ == "unexpected character '"@ + seq![*c]);
                s.append("' in expression at position ");
                s.append(decimal_text(*position as u64).as_str());
                s
            },
            ExprError::Expected { what, got } => {
                let head: String = join3("expected ", what.as_str(), " in expression, got '");
                join3(head.as_str(), got.as_str(), "'")
            },
            ExprError::UnexpectedToken { got } => join3(
                "unexpected token '",
                got.as_str(),
                "' in expression",
            ),
            ExprError::UnknownFunction { name } => join3(
                "unknown function '",
                name.as_str(),
                "' in expression",
            ),
            ExprError::MissingPattern => "expected quoted string as function argument".to_owned(),
            ExprError::InvalidRegex { pattern, message } => {
                let head: String = join3(
                    "invalid regex '",
                    pattern.as_str(),
                    "' in expression: ",
                );
                join2(head.as_str(), message.as_str())
            },
            ExprError::TrailingContent => "unexpected content after expression".to_owned(),
        }
    }
}

// ---------------------------------------------------------------------------
// What the parser computes
// ---------------------------------------------------------------------------

/// An expression and the lexemes after it, or what is wrong.
pub type Parsed = Result<(Expr, Seq<Lexeme>), Fault>;

/// The kind of the first lexeme, which is a token.
pub open spec fn kind_of(ts: Seq<Lexeme>) -> ExprTokenType {
    ts[0]->Tok_0.kind
}

/// The text of the first lexeme, which is a token.
pub open spec fn text_of(ts: Seq<Lexeme>) -> Seq<char> {
    ts[0]->Tok_0.text
}

/// The first lexeme is the name `word`.
pub open spec fn starts_with_word(ts: Seq<Lexeme>, word: Seq<char>) -> bool {
    kind_of(ts) == ExprTokenType::Ident && text_of(ts) == word
}

/// How a token is named in a message: an empty one is called the end.
pub open spec fn shown(text: Seq<char>) -> Seq<char> {
    if text.len() == 0 {
        "end"@
    } else {
        text
    }
}

/// The lexemes after the first. A character that starts no token is a fault as
/// soon as it comes first.
pub open spec fn advanced(ts: Seq<Lexeme>) -> Result<Seq<Lexeme>, Fault> {
    if ts.len() <= 1 {
        Ok(ts)
    } else {
        match ts[1] {
            Lexeme::Bad(c, position) => Err(Fault::UnexpectedChar(c, position)),
            Lexeme::Tok(_) => Ok(ts.skip(1)),
        }
    }
}

/// The lexemes after the first, which has to be of the given kind.
pub open spec fn advanced_past(
    ts: Seq<Lexeme>,
    kind: ExprTokenType,
    what: Seq<char>,
) -> Result<Seq<Lexeme>, Fault> {
    if kind_of(ts) != kind {
        Err(Fault::Expected(what, shown(text_of(ts))))
    } else {
        advanced(ts)
    }
}

/// The predicate of the given name.
pub open spec fn predicate_named(name: Seq<char>) -> Option<ExprType> {
    if name == "glob"@ {
        Some(ExprType::Glob)
    } else if name == "regex"@ || name == "regex_search"@ {
        Some(ExprType::RegexSearch)
    } else if name == "regex_match"@ {
        Some(ExprType::RegexMatch)
    } else {
        None
    }
}

/// A predicate whose pattern compiles, and else a fault with the reason.
pub open spec fn predicate_or_fault(
    kind: ExprType,
    written: Seq<char>,
    reason: Option<Seq<char>>,
) -> Result<Expr, Fault> {
    match reason {
        None => Ok(expr::predicate(kind, written)),
        Some(message) => Err(Fault::InvalidRegex(written, message)),
    }
}

/// What a predicate with its argument in parentheses parses to.
pub open spec fn parsed_call(ts: Seq<Lexeme>) -> Parsed {
    match predicate_named(text_of(ts)) {
        None => Err(Fault::UnknownFunction(text_of(ts))),
        Some(kind) => match advanced(ts) {
            Err(f) => Err(f),
            Ok(t1) => match advanced_past(t1, ExprTokenType::LParen, "'(' after function name"@) {
                Err(f) => Err(f),
                Ok(t2) => if kind_of(t2) != ExprTokenType::StringLit {
                    Err(Fault::MissingPattern)
                } else {
                    match advanced(t2) {
                        Err(f) => Err(f),
                        Ok(t3) => match advanced_past(t3, ExprTokenType::RParen, "')'"@) {
                            Err(f) => Err(f),
                            Ok(t4) => {
                                let written = text_of(t2);
                                let source = expr::predicate_source(kind, written);
                                match predicate_or_fault(
                                    kind,
                                    written,
                                    pattern::error_here(source),
                                ) {
                                    Err(f) => Err(f),
                                    Ok(e) => Ok((e, t4)),
                                }
                            },
                        },
                    }
                },
            },
        },
    }
}

/// Nothing but `ts` itself is left after parsing: no expression is that short.
pub open spec fn shorter(p: Parsed, ts: Seq<Lexeme>) -> Parsed {
    match p {
        Err(f) => Err(f),
        Ok((e, rest)) => if rest.len() < ts.len() {
            p
        } else {
            Err(Fault::TrailingContent)
        },
    }
}

/// The lexemes after the first, of which there are fewer.
pub open spec fn stepped(ts: Seq<Lexeme>) -> Result<Seq<Lexeme>, Fault> {
    match advanced(ts) {
        Err(f) => Err(f),
        Ok(rest) => if rest.len() < ts.len() {
            Ok(rest)
        } else {
            Err(Fault::TrailingContent)
        },
    }
}

/// What `primary` parses to.
pub open spec fn parsed_primary(ts: Seq<Lexeme>) -> Parsed
    decreases ts.len(), 0nat,
{
    if kind_of(ts) == ExprTokenType::LParen {
        match stepped(ts) {
            Err(f) => Err(f),
            Ok(inner) => match parsed_or(inner) {
                Err(f) => Err(f),
                Ok((e, t1)) => match advanced_past(t1, ExprTokenType::RParen, "')'"@) {
                    Err(f) => Err(f),
                    Ok(t2) => Ok((e, t2)),
                },
            },
        }
    } else if kind_of(ts) != ExprTokenType::Ident {
        Err(Fault::UnexpectedToken(shown(text_of(ts))))
    } else {
        parsed_call(ts)
    }
}

/// What `not_expr` parses to.
pub open spec fn parsed_not(ts: Seq<Lexeme>) -> Parsed
    decreases ts.len(), 1nat,
{
    if starts_with_word(ts, "not"@) {
        match stepped(ts) {
            Err(f) => Err(f),
            Ok(inner) => match parsed_not(inner) {
                Err(f) => Err(f),
                Ok((e, rest)) => Ok((Expr::Not(Box::new(e)), rest)),
            },
        }
    } else {
        parsed_primary(ts)
    }
}

/// What `("and" not_expr)*` after `left` parses to.
pub open spec fn parsed_and_tail(left: Expr, ts: Seq<Lexeme>) -> Parsed
    decreases ts.len(), 2nat,
{
    if starts_with_word(ts, "and"@) {
        match stepped(ts) {
            Err(f) => Err(f),
            Ok(next) => match shorter(parsed_not(next), ts) {
                Err(f) => Err(f),
                Ok((right, rest)) => parsed_and_tail(
                    Expr::And(Box::new(left), Box::new(right)),
                    rest,
                ),
            },
        }
    } else {
        Ok((left, ts))
    }
}

/// What `and_expr` parses to.
pub open spec fn parsed_and(ts: Seq<Lexeme>) -> Parsed
    decreases ts.len(), 3nat,
{
    match shorter(parsed_not(ts), ts) {
        Err(f) => Err(f),
        Ok((left, rest)) => parsed_and_tail(left, rest),
    }
}

/// What `("or" and_expr)*` after `left` parses to.
pub open spec fn parsed_or_tail(left: Expr, ts: Seq<Lexeme>) -> Parsed
    decreases ts.len(), 4nat,
{
    if starts_with_word(ts, "or"@) {
        match stepped(ts) {
            Err(f) => Err(f),
            Ok(next) => match shorter(parsed_and(next), ts) {
                Err(f) => Err(f),
                Ok((right, rest)) => parsed_or_tail(
                    Expr::Or(Box::new(left), Box::new(right)),
                    rest,
                ),
            },
        }
    } else {
        Ok((left, ts))
    }
}

/// What `or_expr` parses to.
pub open spec fn parsed_or(ts: Seq<Lexeme>) -> Parsed
    decreases ts.len(), 5nat,
{
    match shorter(parsed_and(ts), ts) {
        Err(f) => Err(f),
        Ok((left, rest)) => parsed_or_tail(left, rest),
    }
}

/// What a whole expression parses to.
pub open spec fn parsed_expr(ts: Seq<Lexeme>) -> Result<Expr, Fault> {
    match parsed_or(ts) {
        Err(f) => Err(f),
        Ok((e, rest)) => if kind_of(rest) != ExprTokenType::End {
            Err(Fault::TrailingContent)
        } else {
            Ok(e)
        },
    }
}

/// The lexemes of an expression, if the first of them is a token.
pub open spec fn opened(src: Seq<char>) -> Result<Seq<Lexeme>, Fault> {
    let ts = token::lexemes(src, 0);
    match ts[0] {
        Lexeme::Bad(c, position) => Err(Fault::UnexpectedChar(c, position)),
        Lexeme::Tok(_) => Ok(ts),
    }
}

/// What the text of an expression parses to.
pub open spec fn parsed_text(src: Seq<char>) -> Result<Expr, Fault> {
    match opened(src) {
        Err(f) => Err(f),
        Ok(ts) => parsed_expr(ts),
    }
}

// ---------------------------------------------------------------------------
// The parser
// ---------------------------------------------------------------------------

/// What a parsing method returned agrees with `p`: on an error the fault, else
/// the expression and the lexemes that are left.
pub open spec fn agrees(
    r: Result<Box<ExprNode>, ExprError>,
    p: Parsed,
    left_over: Seq<Lexeme>,
) -> bool {
    match r {
        Err(err) => p == Parsed::Err(err@),
        Ok(node) => {
            &&& p matches Ok((e, rest))
            &&& rest == left_over
            &&& expr::represents(*node, e)
        },
    }
}

/// The node of a predicate, once its pattern has been compiled or refused.
pub fn predicate_node(kind: ExprType, written: String, compiled: Result<Pattern, String>) -> (r:
    Result<Box<ExprNode>, ExprError>)
    requires
        kind == ExprType::Glob || kind == ExprType::RegexSearch || kind == ExprType::RegexMatch,
        compiled matches Ok(p) ==> p@ == expr::predicate_source(kind, written@),
    ensures
        match (r, predicate_or_fault(
            kind,
            written@,
            match compiled {
                Ok(_) => None,
                Err(message) => Some(message@),
            },
        )) {
            (Ok(node), Ok(e)) => expr::represents(*node, e),
            (Err(err), Err(f)) => err@ == f,
            _ => false,
        },
{
    match compiled {
        Ok(p) => Ok(
            Box::new(ExprNode { node_type: kind, compiled: Some(p), left: None, right: None }),
        ),
        Err(message) => Err(ExprError::InvalidRegex { pattern: written, message }),
    }
}

/// The parser: the tokenizer, and the token that was read last.
pub struct ExprParser {
    tok: ExprTokenizer,
    cur: ExprToken,
}

impl ExprParser {
    /// The tokenizer is in order, and at the end after the last token.
    pub closed spec fn wf(&self) -> bool {
        &&& self.tok.wf()
        &&& self.cur.token_type == ExprTokenType::End ==> {
            &&& self.tok.pos == self.tok.chars@.len()
            &&& self.cur.value@ == Seq::<char>::empty()
        }
    }

    /// The lexemes from the current token on.
    pub closed spec fn remaining(&self) -> Seq<Lexeme> {
        if self.cur.token_type == ExprTokenType::End {
            seq![Lexeme::Tok(self.cur@)]
        } else {
            seq![Lexeme::Tok(self.cur@)] + token::lexemes(self.tok.chars@, self.tok.pos as nat)
        }
    }

    /// A parser at the start of `src`.
    pub fn new(src: &str) -> (r: Result<Self, ExprError>)
        ensures
            match r {
                Ok(p) => p.wf() && opened(src@) == Ok::<Seq<Lexeme>, Fault>(p.remaining()),
                Err(err) => opened(src@) == Err::<Seq<Lexeme>, Fault>(err@),
            },
    {
        let mut tok: ExprTokenizer = ExprTokenizer::new(src);
        proof {
            token::lexing_progresses(src@, 0);
        }
        match tok.next_token() {
            Ok(cur) => Ok(ExprParser { tok, cur }),
            Err(bad) => Err(ExprError::UnexpectedChar { c: bad.c, position: bad.position }),
        }
    }

    /// Moves on to the next token.
    pub fn advance(&mut self) -> (r: Result<(), ExprError>)
        requires
            old(self).wf(),
        ensures
            match r {
                Ok(_) => final(self).wf() && advanced(old(self).remaining()) == Ok::<
                    Seq<Lexeme>,
                    Fault,
                >(final(self).remaining()),
                Err(err) => advanced(old(self).remaining()) == Err::<Seq<Lexeme>, Fault>(err@),
            },
    {
        let ghost before = self.remaining();
        let ghost s = self.tok.chars@;
        let ghost pos = self.tok.pos as nat;
        proof {
            token::lexing_progresses(s, pos);
        }
        match self.tok.next_token() {
            Ok(cur) => {
                self.cur = cur;
                proof {
                    if before.len() > 1 {
                        assert(before.skip(1) =~= token::lexemes(s, pos));
                        assert(before[1] == token::lexemes(s, pos)[0]);
                        assert(self.remaining() =~= token::lexemes(s, pos));
                    } else {
                        assert(self.remaining() =~= before);
                    }
                }
                Ok(())
            },
            Err(bad) => {
                assert(before[1] == token::lexemes(s, pos)[0]);
                Err(ExprError::UnexpectedChar { c: bad.c, position: bad.position })
            },
        }
    }

    /// How the current token is named in a message.
    fn shown_token(&self) -> (s: String)
        ensures
            s@ == shown(text_of(self.remaining())),
    {
        if self.cur.value.as_str().is_empty() {
            "end".to_owned()
        } else {
            self.cur.value.clone()
        }
    }

    /// Whether the current token is the name `word`.
    fn at_word(&self, word: &str) -> (b: bool)
        ensures
            b == starts_with_word(self.remaining(), word@),
    {
        self.cur.token_type == ExprTokenType::Ident && same_text(self.cur.value.as_str(), word)
    }

    /// Moves past the current token, which has to be of the given kind.
    pub fn expect(&mut self, t: ExprTokenType, desc: &str) -> (r: Result<(), ExprError>)
        requires
            old(self).wf(),
        ensures
            match r {
                Ok(_) => final(self).wf() && advanced_past(old(self).remaining(), t, desc@) == Ok::<
                    Seq<Lexeme>,
                    Fault,
                >(final(self).remaining()),
                Err(err) => advanced_past(old(self).remaining(), t, desc@) == Err::<
                    Seq<Lexeme>,
                    Fault,
                >(err@),
            },
    {
        if self.cur.token_type != t {
            return Err(ExprError::Expected { what: desc.to_owned(), got: self.shown_token() });
        }
        self.advance()
    }

    /// Any token but the end has a lexeme after it.
    proof fn more_follows(&self)
        ensures
            kind_of(self.remaining()) != ExprTokenType::End ==> self.remaining().len() > 1,
    {
        assert(token::lexemes(self.tok.chars@, self.tok.pos as nat).len() >= 1);
    }

    /// Parses a predicate or a group in parentheses.
    pub fn parse_primary(&mut self) -> (r: Result<Box<ExprNode>, ExprError>)
        requires
            old(self).wf(),
        ensures
            r is Ok ==> final(self).wf() && final(self).remaining().len() < old(
                self,
            ).remaining().len(),
            agrees(r, parsed_primary(old(self).remaining()), final(self).remaining()),
        decreases old(self).remaining().len(), 0nat,
    {
        proof {
            self.more_follows();
        }
        if self.cur.token_type == ExprTokenType::LParen {
            match self.advance() {
                Err(err) => {
                    return Err(err);
                },
                Ok(_) => {},
            }
            let node: Box<ExprNode> = match self.parse_or() {
                Err(err) => {
                    return Err(err);
                },
                Ok(node) => node,
            };
            return match self.expect(ExprTokenType::RParen, "')'") {
                Err(err) => Err(err),
                Ok(_) => Ok(node),
            };
        }
        if self.cur.token_type != ExprTokenType::Ident {
            return Err(ExprError::UnexpectedToken { got: self.shown_token() });
        }
        let name: String = self.cur.value.clone();
        let kind: ExprType = if same_text(name.as_str(), "glob") {
            ExprType::Glob
        } else if same_text(name.as_str(), "regex") || same_text(name.as_str(), "regex_search") {
            ExprType::RegexSearch
        } else if same_text(name.as_str(), "regex_match") {
            ExprType::RegexMatch
        } else {
            return Err(ExprError::UnknownFunction { name });
        };
        match self.advance() {
            Err(err) => {
                return Err(err);
            },
            Ok(_) => {},
        }
        match self.expect(ExprTokenType::LParen, "'(' after function name") {
            Err(err) => {
                return Err(err);
            },
            Ok(_) => {},
        }
        if self.cur.token_type != ExprTokenType::StringLit {
            return Err(ExprError::MissingPattern);
        }
        let written: String = self.cur.value.clone();
        match self.advance() {
            Err(err) => {
                return Err(err);
            },
            Ok(_) => {},
        }
        match self.expect(ExprTokenType::RParen, "')'") {
            Err(err) => {
                return Err(err);
            },
            Ok(_) => {},
        }
        let source: String = match kind {
            ExprType::Glob => glob_to_regex(written.as_str()),
            ExprType::RegexMatch => anchor(written.as_str()),
            _ => written.clone(),
        };
        let compiled: Result<Pattern, String> = Pattern::compile(source.as_str());
        predicate_node(kind, written, compiled)
    }

    /// Parses `not` before a predicate or a group.
    pub fn parse_not(&mut self) -> (r: Result<Box<ExprNode>, ExprError>)
        requires
            old(self).wf(),
        ensures
            r is Ok ==> final(self).wf() && final(self).remaining().len() < old(
                self,
            ).remaining().len(),
            agrees(r, parsed_not(old(self).remaining()), final(self).remaining()),
        decreases old(self).remaining().len(), 1nat,
    {
        proof {
            self.more_follows();
        }
        if self.at_word("not") {
            match self.advance() {
                Err(err) => {
                    return Err(err);
                },
                Ok(_) => {},
            }
            return match self.parse_not() {
                Err(err) => Err(err),
                Ok(child) => Ok(
                    Box::new(
                        ExprNode {
                            node_type: ExprType::Not,
                            compiled: None,
                            left: Some(child),
                            right: None,
                        },
                    ),
                ),
            };
        }
        self.parse_primary()
    }

    /// Parses a chain of `and`.
    pub fn parse_and(&mut self) -> (r: Result<Box<ExprNode>, ExprError>)
        requires
            old(self).wf(),
        ensures
            r is Ok ==> final(self).wf() && final(self).remaining().len() < old(
                self,
            ).remaining().len(),
            agrees(r, parsed_and(old(self).remaining()), final(self).remaining()),
        decreases old(self).remaining().len(), 3nat,
    {
        let ghost start = self.remaining();
        let mut left: Box<ExprNode> = match self.parse_not() {
            Err(err) => {
                return Err(err);
            },
            Ok(node) => node,
        };
        let ghost mut so_far: Expr = parsed_not(start)->Ok_0.0;
        while self.at_word("and")
            invariant
                self.wf(),
                start == old(self).remaining(),
                self.remaining().len() < start.len(),
                expr::represents(*left, so_far),
                parsed_and(start) == parsed_and_tail(so_far, self.remaining()),
            decreases self.remaining().len(),
        {
            proof {
                self.more_follows();
            }
            match self.advance() {
                Err(err) => {
                    return Err(err);
                },
                Ok(_) => {},
            }
            let ghost next = self.remaining();
            let right: Box<ExprNode> = match self.parse_not() {
                Err(err) => {
                    return Err(err);
                },
                Ok(node) => node,
            };
            proof {
                so_far = Expr::And(Box::new(so_far), Box::new(parsed_not(next)->Ok_0.0));
            }
            left = Box::new(
                ExprNode {
                    node_type: ExprType::And,
                    compiled: None,
                    left: Some(left),
                    right: Some(right),
                },
            );
        }
        Ok(left)
    }

    /// Parses a chain of `or`.
    pub fn parse_or(&mut self) -> (r: Result<Box<ExprNode>, ExprError>)
        requires
            old(self).wf(),
        ensures
            r is Ok ==> final(self).wf() && final(self).remaining().len() < old(
                self,
            ).remaining().len(),
            agrees(r, parsed_or(old(self).remaining()), final(self).remaining()),
        decreases old(self).remaining().len(), 5nat,
    {
        let ghost start = self.remaining();
        let mut left: Box<ExprNode> = match self.parse_and() {
            Err(err) => {
                return Err(err);
            },
            Ok(node) => node,
        };
        let ghost mut so_far: Expr = parsed_and(start)->Ok_0.0;
        while self.at_word("or")
            invariant
                self.wf(),
                start == old(self).remaining(),
                self.remaining().len() < start.len(),
                expr::represents(*left, so_far),
                parsed_or(start) == parsed_or_tail(so_far, self.remaining()),
            decreases self.remaining().len(),
        {
            proof {
                self.more_follows();
            }
            match self.advance() {
                Err(err) => {
                    return Err(err);
                },
                Ok(_) => {},
            }
            let ghost next = self.remaining();
            let right: Box<ExprNode> = match self.parse_and() {
                Err(err) => {
                    return Err(err);
                },
                Ok(node) => node,
            };
            proof {
                so_far = Expr::Or(Box::new(so_far), Box::new(parsed_and(next)->Ok_0.0));
            }
            left = Box::new(
                ExprNode {
                    node_type: ExprType::Or,
                    compiled: None,
                    left: Some(left),
                    right: Some(right),
                },
            );
        }
        Ok(left)
    }

    /// Parses a whole expression.
    pub fn parse(self) -> (r: Result<Box<ExprNode>, ExprError>)
        requires
            self.wf(),
        ensures
            match (r, parsed_expr(self.remaining())) {
                (Ok(node), Ok(e)) => expr::represents(*node, e),
                (Err(err), Err(f)) => err@ == f,
                _ => false,
            },
    {
        let mut parser: ExprParser = self;
        let root: Box<ExprNode> = match parser.parse_or() {
            Err(err) => {
                return Err(err);
            },
            Ok(node) => node,
        };
        if parser.cur.token_type != ExprTokenType::End {
            return Err(ExprError::TrailingContent);
        }
        Ok(root)
    }
}

/// Parses the text of an expression.
pub fn parse_expr(src: &str) -> (r: Result<Box<ExprNode>, ExprError>)
    ensures
        match (r, parsed_text(src@)) {
            (Ok(node), Ok(e)) => expr::represents(*node, e),
            (Err(err), Err(f)) => err@ == f,
            _ => false,
        },
{
    match ExprParser::new(src) {
        Err(err) => Err(err),
        Ok(p) => p.parse(),
    }
}

} // verus!
