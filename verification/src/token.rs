//! The tokens of the expression language.
use vstd::prelude::*;

use crate::text;
use crate::text::{chars_of, string_of};

verus! {

/// The kinds of token.
#[derive(Debug, Clone, Copy, PartialEq, Eq, Structural)]
pub enum ExprTokenType {
    Ident,
    StringLit,
    LParen,
    RParen,
    End,
}

/// A token: its kind, and its text without quotes and escapes.
#[derive(Debug)]
pub struct ExprToken {
    pub token_type: ExprTokenType,
    pub value: String,
}

/// A token as a mathematical value.
pub struct Token {
    pub kind: ExprTokenType,
    pub text: Seq<char>,
}

impl View for ExprToken {
    type V = Token;

    open spec fn view(&self) -> Token {
        Token { kind: self.token_type, text: self.value@ }
    }
}

/// What stands at some place of an expression: a token, or a character that
/// starts none, with its position.
pub enum Lexeme {
    Tok(Token),
    Bad(char, nat),
}

/// A character that starts no token, and where it stands.
#[derive(Debug, Clone, Copy, PartialEq, Eq, Structural)]
pub struct BadChar {
    pub c: char,
    pub position: usize,
}

/// The first position from `pos` on that holds no white space.
pub open spec fn skip_white(s: Seq<char>, pos: nat) -> nat
    decreases s.len() - pos,
{
    if pos < s.len() && text::is_white_space(s[pos as int]) {
        skip_white(s, pos + 1)
    } else {
        pos
    }
}

/// A character that a name can hold after its first.
pub open spec fn is_name_char(c: char) -> bool {
    text::is_alphanumeric(c) || c == '_'
}

/// A character that a name can start with.
pub open spec fn is_name_start(c: char) -> bool {
    text::char_is_alphabetic(c) || c == '_'
}

/// Where the name that `pos` lies in ends.
pub open spec fn name_end(s: Seq<char>, pos: nat) -> nat
    decreases s.len() - pos,
{
    if pos < s.len() && is_name_char(s[pos as int]) {
        name_end(s, pos + 1)
    } else {
        pos
    }
}

/// The text from `pos` up to the quote `q`, without the backslashes that escape
/// the character after them. A string that is never closed ends with the input.
pub open spec fn quoted_text(s: Seq<char>, pos: nat, q: char) -> Seq<char>
    decreases s.len() - pos,
{
    if pos >= s.len() || s[pos as int] == q {
        Seq::empty()
    } else if s[pos as int] == '\\' && pos + 1 < s.len() {
        seq![s[pos as int + 1]] + quoted_text(s, pos + 2, q)
    } else {
        seq![s[pos as int]] + quoted_text(s, pos + 1, q)
    }
}

/// The position after the quote `q` that closes the string that `pos` lies in.
pub open spec fn quoted_end(s: Seq<char>, pos: nat, q: char) -> nat
    decreases s.len() - pos,
{
    if pos >= s.len() {
        pos
    } else if s[pos as int] == q {
        pos + 1
    } else if s[pos as int] == '\\' && pos + 1 < s.len() {
        quoted_end(s, pos + 2, q)
    } else {
        quoted_end(s, pos + 1, q)
    }
}

/// The lexeme that starts at `p`, which holds no white space, and the position after it.
pub open spec fn lexeme_at(s: Seq<char>, p: nat) -> (Lexeme, nat) {
    if p >= s.len() {
        (Lexeme::Tok(Token { kind: ExprTokenType::End, text: Seq::empty() }), p)
    } else if s[p as int] == '(' {
        (Lexeme::Tok(Token { kind: ExprTokenType::LParen, text: seq!['('] }), p + 1)
    } else if s[p as int] == ')' {
        (Lexeme::Tok(Token { kind: ExprTokenType::RParen, text: seq![')'] }), p + 1)
    } else if s[p as int] == '"' || s[p as int] == '\'' {
        let q = s[p as int];
        (
            Lexeme::Tok(
                Token { kind: ExprTokenType::StringLit, text: quoted_text(s, p + 1, q) },
            ),
            quoted_end(s, p + 1, q),
        )
    } else if is_name_start(s[p as int]) {
        let e = name_end(s, p);
        (
            Lexeme::Tok(
                Token { kind: ExprTokenType::Ident, text: s.subrange(p as int, e as int) },
            ),
            e,
        )
    } else {
        (Lexeme::Bad(s[p as int], p), p)
    }
}

/// The next lexeme from `pos` on, and the position after it.
pub open spec fn next_lexeme(s: Seq<char>, pos: nat) -> (Lexeme, nat) {
    lexeme_at(s, skip_white(s, pos))
}

/// The lexeme is the last one: the end, or a character that starts no token.
pub open spec fn is_last(l: Lexeme) -> bool {
    match l {
        Lexeme::Tok(t) => t.kind == ExprTokenType::End,
        Lexeme::Bad(_, _) => true,
    }
}

proof fn skip_white_bounds(s: Seq<char>, pos: nat)
    requires
        pos <= s.len(),
    ensures
        pos <= skip_white(s, pos) <= s.len(),
    decreases s.len() - pos,
{
    if pos < s.len() && text::is_white_space(s[pos as int]) {
        skip_white_bounds(s, pos + 1);
    }
}

proof fn name_end_bounds(s: Seq<char>, pos: nat)
    requires
        pos <= s.len(),
    ensures
        pos <= name_end(s, pos) <= s.len(),
    decreases s.len() - pos,
{
    if pos < s.len() && is_name_char(s[pos as int]) {
        name_end_bounds(s, pos + 1);
    }
}

proof fn quoted_end_bounds(s: Seq<char>, pos: nat, q: char)
    requires
        pos <= s.len(),
    ensures
        pos <= quoted_end(s, pos, q) <= s.len(),
    decreases s.len() - pos,
{
    if pos < s.len() && s[pos as int] != q {
        if s[pos as int] == '\\' && pos + 1 < s.len() {
            quoted_end_bounds(s, pos + 2, q);
        } else {
            quoted_end_bounds(s, pos + 1, q);
        }
    }
}

/// A token never ends past the input, and every token but the end takes up at
/// least one character.
pub proof fn lexing_progresses(s: Seq<char>, pos: nat)
    requires
        pos <= s.len(),
    ensures
        pos <= next_lexeme(s, pos).1 <= s.len(),
        !is_last(next_lexeme(s, pos).0) ==> pos < next_lexeme(s, pos).1,
        next_lexeme(s, pos).0 matches Lexeme::Tok(t) && t.kind == ExprTokenType::End ==> next_lexeme(
            s,
            pos,
        ).1 == s.len(),
{
    skip_white_bounds(s, pos);
    let p = skip_white(s, pos);
    if p < s.len() {
        name_end_bounds(s, p + 1);
        quoted_end_bounds(s, p + 1, s[p as int]);
        if is_name_start(s[p as int]) {
            assert(is_name_char(s[p as int]));
            assert(name_end(s, p) == name_end(s, p + 1));
        }
    }
}

/// All lexemes from `pos` on, the last one included.
pub open spec fn lexemes(s: Seq<char>, pos: nat) -> Seq<Lexeme>
    decreases s.len() - pos,
{
    let (l, next) = next_lexeme(s, pos);
    if is_last(l) || pos > s.len() {
        seq![l]
    } else {
        proof {
            lexing_progresses(s, pos);
        }
        seq![l] + lexemes(s, next)
    }
}

/// The tokenizer: the characters of the expression and a position among them.
pub struct ExprTokenizer {
    pub chars: Vec<char>,
    pub pos: usize,
}

impl ExprTokenizer {
    /// The position lies within the expression or at its end.
    pub open spec fn wf(&self) -> bool {
        self.pos <= self.chars@.len()
    }

    /// A tokenizer at the start of `src`.
    pub fn new(src: &str) -> (t: Self)
        ensures
            t.wf(),
            t.chars@ == src@,
            t.pos == 0,
    {
        ExprTokenizer { chars: chars_of(src), pos: 0 }
    }

    /// Moves past white space.
    pub fn skip_ws(&mut self)
        requires
            old(self).wf(),
        ensures
            final(self).wf(),
            final(self).chars@ == old(self).chars@,
            final(self).pos == skip_white(old(self).chars@, old(self).pos as nat),
    {
        let ghost s = self.chars@;
        while self.pos < self.chars.len() && self.chars[self.pos].is_whitespace()
            invariant
                self.wf(),
                self.chars@ == s,
                s == old(self).chars@,
                skip_white(s, self.pos as nat) == skip_white(s, old(self).pos as nat),
            decreases s.len() - self.pos,
        {
            self.pos = self.pos + 1;
        }
    }

    /// Reads the next token, or reports a character that starts none.
    pub fn next_token(&mut self) -> (r: Result<ExprToken, BadChar>)
        requires
            old(self).wf(),
        ensures
            final(self).wf(),
            final(self).chars@ == old(self).chars@,
            final(self).pos == next_lexeme(old(self).chars@, old(self).pos as nat).1,
            ({
                let l = next_lexeme(old(self).chars@, old(self).pos as nat).0;
                match r {
                    Ok(t) => l == Lexeme::Tok(t@),
                    Err(bad) => l == Lexeme::Bad(bad.c, bad.position as nat),
                }
            }),
    {
        let ghost s = self.chars@;
        proof {
            lexing_progresses(s, self.pos as nat);
        }
        self.skip_ws();
        let ghost p = self.pos as nat;
        if self.pos >= self.chars.len() {
            return Ok(ExprToken { token_type: ExprTokenType::End, value: String::new() });
        }
        let c: char = self.chars[self.pos];
        if c == '(' {
            self.pos = self.pos + 1;
            proof {
                reveal_strlit("(");
                assert("("@ =~= seq!['(']);
            }
            return Ok(ExprToken { token_type: ExprTokenType::LParen, value: "(".to_owned() });
        }
        if c == ')' {
            self.pos = self.pos + 1;
            proof {
                reveal_strlit(")");
                assert(")"@ =~= seq![')']);
            }
            return Ok(ExprToken { token_type: ExprTokenType::RParen, value: ")".to_owned() });
        }
        if c == '"' || c == '\'' {
            let q: char = c;
            self.pos = self.pos + 1;
            let mut val: String = String::new();
            while self.pos < self.chars.len() && self.chars[self.pos] != q
                invariant
                    self.wf(),
                    self.chars@ == s,
                    val@ + quoted_text(s, self.pos as nat, q) == quoted_text(s, p + 1, q),
                    quoted_end(s, self.pos as nat, q) == quoted_end(s, p + 1, q),
                decreases s.len() - self.pos,
            {
                let ghost before = val@;
                if self.chars[self.pos] == '\\' && self.pos + 1 < self.chars.len() {
                    self.pos = self.pos + 1;
                }
                val.push(self.chars[self.pos]);
                self.pos = self.pos + 1;
                proof {
                    let taken = val@.last();
                    let rest = quoted_text(s, self.pos as nat, q);
                    assert(before + (seq![taken] + rest) == val@ + rest);
                }
            }
            assert(val@ + Seq::<char>::empty() == val@);
            if self.pos < self.chars.len() {
                self.pos = self.pos + 1;
            }
            return Ok(ExprToken { token_type: ExprTokenType::StringLit, value: val });
        }
        if c.is_alphabetic() || c == '_' {
            let from: usize = self.pos;
            while self.pos < self.chars.len() && (self.chars[self.pos].is_alphabetic()
                || self.chars[self.pos].is_numeric() || self.chars[self.pos] == '_')
                invariant
                    self.wf(),
                    from <= self.pos,
                    self.chars@ == s,
                    name_end(s, self.pos as nat) == name_end(s, p),
                decreases s.len() - self.pos,
            {
                self.pos = self.pos + 1;
            }
            let val: String = string_of(&self.chars, from, self.pos);
            return Ok(ExprToken { token_type: ExprTokenType::Ident, value: val });
        }
        Err(BadChar { c, position: self.pos })
    }
}

} // verus!
