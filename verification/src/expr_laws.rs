//! How expressions are written, how they are read, and what they select.
use vstd::prelude::*;

use crate::expr;
#[allow(unused_imports)]
use crate::expr::{Expr, ExprNode, ExprType};
use crate::glob;
use crate::grammar;
use crate::parser;
#[allow(unused_imports)]
use crate::parser::{Fault, Parsed};
use crate::pattern;
use crate::text;
use crate::token;
#[allow(unused_imports)]
use crate::token::{ExprTokenType, Lexeme, Token};

verus! {

// ---------------------------------------------------------------------------
// What an expression selects
// ---------------------------------------------------------------------------

/// `glob` matches the translated pattern, `regex` matches anywhere in the path, and
/// `regex_match` matches the whole path.
pub proof fn predicates_match(p: Seq<char>, path: Seq<char>)
    ensures
        expr::selects(Expr::Glob(p), path) == pattern::source_is_match(glob::glob_regex(p), path),
        expr::selects(Expr::RegexSearch(p), path) == pattern::source_is_match(p, path),
        expr::selects(Expr::RegexMatch(p), path) == pattern::source_is_match(
            seq!['^', '(', '?', ':'] + p + seq![')', '$'],
            path,
        ),
{
    reveal_strlit("^(?:");
    reveal_strlit(")$");
    assert("^(?:"@ =~= seq!['^', '(', '?', ':']);
    assert(")$"@ =~= seq![')', '$']);
}

/// `and` selects what both sides select, `or` what one of them does, and `not` what its
/// operand does not.
pub proof fn operators_combine(a: Expr, b: Expr, path: Seq<char>)
    ensures
        expr::selects(Expr::And(Box::new(a), Box::new(b)), path) <==> expr::selects(a, path)
            && expr::selects(b, path),
        expr::selects(Expr::Or(Box::new(a), Box::new(b)), path) <==> expr::selects(a, path)
            || expr::selects(b, path),
        expr::selects(Expr::Not(Box::new(a)), path) <==> !expr::selects(a, path),
{
}

/// A node accepts as its operator says: `and` where both children do, `or` where one
/// does, `not` where its child does not, and a predicate where its pattern matches.
pub proof fn nodes_combine(node: ExprNode, path: Seq<char>)
    ensures
        node.left is Some && node.right is Some ==> {
            let l = expr::node_accepts(*node.left->0, path);
            let r = expr::node_accepts(*node.right->0, path);
            &&& node.node_type == ExprType::And ==> (expr::node_accepts(node, path) <==> l && r)
            &&& node.node_type == ExprType::Or ==> (expr::node_accepts(node, path) <==> l || r)
        },
        node.node_type == ExprType::Not && node.left is Some ==> (expr::node_accepts(node, path)
            <==> !expr::node_accepts(*node.left->0, path)),
        (node.node_type == ExprType::Glob || node.node_type == ExprType::RegexSearch
            || node.node_type == ExprType::RegexMatch) && node.compiled is Some ==> (
        expr::node_accepts(node, path) <==> pattern::source_is_match(node.compiled->0@, path)),
{
    reveal_with_fuel(expr::node_accepts, 2);
    reveal_with_fuel(expr::child_accepts, 2);
}

/// What a node lacks accepts nothing: without one of its children an `and` accepts no
/// path and an `or` what the other does, a `not` without its child accepts every path,
/// and a predicate without a pattern none.
pub proof fn missing_parts_accept_nothing(node: ExprNode, path: Seq<char>)
    ensures
        node.node_type == ExprType::And && (node.left is None || node.right is None)
            ==> !expr::node_accepts(node, path),
        node.node_type == ExprType::Or && node.left is None && node.right is None
            ==> !expr::node_accepts(node, path),
        node.node_type == ExprType::Or && node.left is Some && node.right is None ==> (
        expr::node_accepts(node, path) <==> expr::node_accepts(*node.left->0, path)),
        node.node_type == ExprType::Or && node.left is None && node.right is Some ==> (
        expr::node_accepts(node, path) <==> expr::node_accepts(*node.right->0, path)),
        node.node_type == ExprType::Not && node.left is None ==> expr::node_accepts(node, path),
        (node.node_type == ExprType::Glob || node.node_type == ExprType::RegexSearch
            || node.node_type == ExprType::RegexMatch) && node.compiled is None
            ==> !expr::node_accepts(node, path),
{
    reveal_with_fuel(expr::node_accepts, 2);
    reveal_with_fuel(expr::child_accepts, 2);
}

/// The node of a predicate holds the pattern that the predicate matches, and that of an
/// operator the nodes of its operands, left and right.
pub proof fn nodes_hold_their_parts(node: ExprNode, p: Seq<char>, a: Expr, b: Expr)
    ensures
        expr::represents(node, Expr::Glob(p)) ==> node.node_type == ExprType::Glob
            && node.compiled is Some && node.compiled->0@ == glob::glob_regex(p),
        expr::represents(node, Expr::RegexSearch(p)) ==> node.node_type == ExprType::RegexSearch
            && node.compiled is Some && node.compiled->0@ == p,
        expr::represents(node, Expr::RegexMatch(p)) ==> node.node_type == ExprType::RegexMatch
            && node.compiled is Some && node.compiled->0@ == seq!['^', '(', '?', ':'] + p + seq![
            ')',
            '$',
        ],
        expr::represents(node, Expr::And(Box::new(a), Box::new(b))) ==> node.node_type
            == ExprType::And && node.left is Some && node.right is Some && expr::represents(
            *node.left->0,
            a,
        ) && expr::represents(*node.right->0, b),
        expr::represents(node, Expr::Or(Box::new(a), Box::new(b))) ==> node.node_type
            == ExprType::Or && node.left is Some && node.right is Some && expr::represents(
            *node.left->0,
            a,
        ) && expr::represents(*node.right->0, b),
        expr::represents(node, Expr::Not(Box::new(a))) ==> node.node_type == ExprType::Not
            && node.left is Some && expr::represents(*node.left->0, a),
{
    reveal_strlit("^(?:");
    reveal_strlit(")$");
    assert("^(?:"@ =~= seq!['^', '(', '?', ':']);
    assert(")$"@ =~= seq![')', '$']);
    reveal_with_fuel(expr::represents, 2);
}

// ---------------------------------------------------------------------------
// Tokens
// ---------------------------------------------------------------------------

/// White space is skipped up to the next character that is none, and no further.
pub proof fn white_space_is_skipped(s: Seq<char>, pos: nat)
    requires
        pos <= s.len(),
    ensures
        pos <= token::skip_white(s, pos) <= s.len(),
        forall|k: int|
            pos <= k < token::skip_white(s, pos) ==> text::is_white_space(#[trigger] s[k]),
        token::skip_white(s, pos) < s.len() ==> !text::is_white_space(
            s[token::skip_white(s, pos) as int],
        ),
    decreases s.len() - pos,
{
    if pos < s.len() && text::is_white_space(s[pos as int]) {
        white_space_is_skipped(s, pos + 1);
    }
}

/// A name goes on while there are letters, digits and underscores, and no further.
pub proof fn name_is_as_long_as_can_be(s: Seq<char>, pos: nat)
    requires
        pos <= s.len(),
    ensures
        pos <= token::name_end(s, pos) <= s.len(),
        forall|k: int|
            pos <= k < token::name_end(s, pos) ==> text::char_is_alphabetic(#[trigger] s[k])
                || text::char_is_numeric(s[k]) || s[k] == '_',
        token::name_end(s, pos) < s.len() ==> {
            let c = s[token::name_end(s, pos) as int];
            !text::char_is_alphabetic(c) && !text::char_is_numeric(c) && c != '_'
        },
    decreases s.len() - pos,
{
    if pos < s.len() && token::is_name_char(s[pos as int]) {
        name_is_as_long_as_can_be(s, pos + 1);
    }
}

/// A text in quotes: some of its characters, among them each quote and each backslash,
/// have a backslash before them.
pub open spec fn escaped(t: Seq<char>, marks: Seq<bool>) -> Seq<char>
    decreases t.len(),
{
    if t.len() == 0 {
        Seq::empty()
    } else {
        (if marks[0] {
            seq!['\\', t[0]]
        } else {
            seq![t[0]]
        }) + escaped(t.skip(1), marks.skip(1))
    }
}

/// What was put between quotes is read back: a backslash makes the character after it
/// stand for itself, and the text ends at the first quote without one.
pub proof fn quoted_string_is_read_back(
    before: Seq<char>,
    t: Seq<char>,
    marks: Seq<bool>,
    after: Seq<char>,
    q: char,
)
    requires
        q != '\\',
        marks.len() == t.len(),
        forall|k: int|
            0 <= k < t.len() && (#[trigger] t[k] == q || t[k] == '\\') ==> #[trigger] marks[k],
    ensures
        ({
            let s = before + escaped(t, marks) + seq![q] + after;
            &&& token::quoted_text(s, before.len(), q) == t
            &&& token::quoted_end(s, before.len(), q) == s.len() - after.len()
        }),
    decreases t.len(),
{
    let e = escaped(t, marks);
    let s = before + e + seq![q] + after;
    let n = before.len();
    if t.len() == 0 {
        assert(s[n as int] == q);
        assert(t =~= Seq::<char>::empty());
    } else {
        let front: Seq<char> = if marks[0] {
            seq!['\\', t[0]]
        } else {
            seq![t[0]]
        };
        let rest = escaped(t.skip(1), marks.skip(1));
        assert forall|k: int|
            0 <= k < t.skip(1).len() && (#[trigger] t.skip(1)[k] == q || t.skip(1)[k]
                == '\\') implies #[trigger] marks.skip(1)[k] by {
            assert(t.skip(1)[k] == t[k + 1]);
            assert(marks.skip(1)[k] == marks[k + 1]);
        }
        quoted_string_is_read_back(before + front, t.skip(1), marks.skip(1), after, q);
        assert(e =~= front + rest);
        assert(s =~= before + front + rest + seq![q] + after);
        assert(seq![t[0]] + t.skip(1) =~= t);
        assert(s[n as int] == front[0]);
        if marks[0] {
            assert(s[n as int + 1] == t[0]);
            assert((before + front).len() == n + 2);
        } else {
            assert((before + front).len() == n + 1);
            assert(t[0] != q && t[0] != '\\');
        }
    }
}

/// A text whose quote is missing goes on to the end of the input, where a backslash
/// with nothing after it stands for itself.
pub proof fn unclosed_string_ends_with_the_input(before: Seq<char>, t: Seq<char>, q: char)
    requires
        q != '\\',
        forall|k: int| 0 <= k < t.len() ==> #[trigger] t[k] != q,
        forall|k: int| 0 <= k < t.len() - 1 ==> #[trigger] t[k] != '\\',
    ensures
        token::quoted_text(before + t, before.len(), q) == t,
        token::quoted_end(before + t, before.len(), q) == before.len() + t.len(),
    decreases t.len(),
{
    let s = before + t;
    if t.len() == 0 {
        assert(t =~= Seq::<char>::empty());
    } else {
        let front = before.push(t[0]);
        assert forall|k: int| 0 <= k < t.skip(1).len() implies #[trigger] t.skip(1)[k] != q by {
            assert(t.skip(1)[k] == t[k + 1]);
        }
        assert forall|k: int| 0 <= k < t.skip(1).len() - 1 implies #[trigger] t.skip(1)[k]
            != '\\' by {
            assert(t.skip(1)[k] == t[k + 1]);
        }
        unclosed_string_ends_with_the_input(front, t.skip(1), q);
        assert(s =~= front + t.skip(1));
        assert(s[before.len() as int] == t[0]);
        assert(seq![t[0]] + t.skip(1) =~= t);
    }
}

/// After white space: a parenthesis is a token of its own, a quote of either kind
/// starts a string that ends with the same kind, a letter or an underscore starts a
/// name, the end of the input is the end, and nothing else starts a token.
pub proof fn tokens_have_their_kinds(s: Seq<char>, pos: nat)
    requires
        pos <= s.len(),
    ensures
        ({
            let p = token::skip_white(s, pos);
            let c = s[p as int];
            let (l, next) = token::next_lexeme(s, pos);
            &&& p == s.len() ==> l == Lexeme::Tok(
                Token { kind: ExprTokenType::End, text: Seq::empty() },
            )
            &&& p < s.len() && c == '(' ==> next == p + 1 && l == Lexeme::Tok(
                Token { kind: ExprTokenType::LParen, text: seq!['('] },
            )
            &&& p < s.len() && c == ')' ==> next == p + 1 && l == Lexeme::Tok(
                Token { kind: ExprTokenType::RParen, text: seq![')'] },
            )
            &&& p < s.len() && (c == '"' || c == '\'') ==> next == token::quoted_end(s, p + 1, c)
                && l == Lexeme::Tok(
                Token {
                    kind: ExprTokenType::StringLit,
                    text: token::quoted_text(s, p + 1, c),
                },
            )
            &&& p < s.len() && c != '(' && c != ')' && c != '"' && c != '\'' ==> {
                &&& text::char_is_alphabetic(c) || c == '_' ==> next == token::name_end(s, p)
                    && l == Lexeme::Tok(
                    Token {
                        kind: ExprTokenType::Ident,
                        text: s.subrange(p as int, token::name_end(s, p) as int),
                    },
                )
                &&& !text::char_is_alphabetic(c) && c != '_' ==> l == Lexeme::Bad(c, p)
            }
        }),
{
    white_space_is_skipped(s, pos);
}

// ---------------------------------------------------------------------------
// Reading
// ---------------------------------------------------------------------------

/// The names of the predicates: `glob`, `regex` or `regex_search`, and `regex_match`.
/// No other name is one.
pub proof fn predicates_have_names(name: Seq<char>)
    ensures
        parser::predicate_named(name) == Some(ExprType::Glob) <==> name == seq!['g', 'l', 'o', 'b'],
        parser::predicate_named(name) == Some(ExprType::RegexSearch) <==> name == seq![
            'r',
            'e',
            'g',
            'e',
            'x',
        ] || name == seq!['r', 'e', 'g', 'e', 'x', '_', 's', 'e', 'a', 'r', 'c', 'h'],
        parser::predicate_named(name) == Some(ExprType::RegexMatch) <==> name == seq![
            'r',
            'e',
            'g',
            'e',
            'x',
            '_',
            'm',
            'a',
            't',
            'c',
            'h',
        ],
        parser::predicate_named(name) is Some ==> name[0] == 'g' || name[0] == 'r',
{
    reveal_strlit("glob");
    reveal_strlit("regex");
    reveal_strlit("regex_search");
    reveal_strlit("regex_match");
    let g = seq!['g', 'l', 'o', 'b'];
    let r = seq!['r', 'e', 'g', 'e', 'x'];
    let s = seq!['r', 'e', 'g', 'e', 'x', '_', 's', 'e', 'a', 'r', 'c', 'h'];
    let m = seq!['r', 'e', 'g', 'e', 'x', '_', 'm', 'a', 't', 'c', 'h'];
    assert("glob"@ =~= g);
    assert("regex"@ =~= r);
    assert("regex_search"@ =~= s);
    assert("regex_match"@ =~= m);
    assert(g.len() == 4 && r.len() == 5 && s.len() == 12 && m.len() == 11);
    assert(g[0] == 'g' && r[0] == 'r' && s[0] == 'r' && m[0] == 'r');
}

/// A name as a token.
pub open spec fn name_token(name: Seq<char>) -> Lexeme {
    Lexeme::Tok(Token { kind: ExprTokenType::Ident, text: name })
}

pub open spec fn open_token() -> Lexeme {
    Lexeme::Tok(Token { kind: ExprTokenType::LParen, text: seq!['('] })
}

pub open spec fn close_token() -> Lexeme {
    Lexeme::Tok(Token { kind: ExprTokenType::RParen, text: seq![')'] })
}

/// A text in quotes as a token.
pub open spec fn string_token(written: Seq<char>) -> Lexeme {
    Lexeme::Tok(Token { kind: ExprTokenType::StringLit, text: written })
}

pub open spec fn end_token() -> Lexeme {
    Lexeme::Tok(Token { kind: ExprTokenType::End, text: Seq::empty() })
}

/// `name("written")` as tokens.
pub open spec fn call(name: Seq<char>, written: Seq<char>) -> Seq<Lexeme> {
    seq![name_token(name), open_token(), string_token(written), close_token()]
}

pub open spec fn and_token() -> Lexeme {
    name_token(seq!['a', 'n', 'd'])
}

pub open spec fn or_token() -> Lexeme {
    name_token(seq!['o', 'r'])
}

pub open spec fn not_token() -> Lexeme {
    name_token(seq!['n', 'o', 't'])
}

proof fn words()
    ensures
        "and"@ == seq!['a', 'n', 'd'],
        "or"@ == seq!['o', 'r'],
        "not"@ == seq!['n', 'o', 't'],
{
    reveal_strlit("and");
    reveal_strlit("or");
    reveal_strlit("not");
    assert("and"@ =~= seq!['a', 'n', 'd']);
    assert("or"@ =~= seq!['o', 'r']);
    assert("not"@ =~= seq!['n', 'o', 't']);
}

/// A predicate with a pattern that compiles is an operand: `glob` is matched as a glob,
/// `regex` anywhere and `regex_match` on the whole path.
pub proof fn predicates_are_operands(name: Seq<char>, p: Seq<char>)
    ensures
        ({
            let ts = call(name, p);
            let compiles = |source: Seq<char>|
                pattern::regex_error(source, usize::BITS as nat) is None;
            &&& grammar::all_tokens(ts)
            &&& name == seq!['g', 'l', 'o', 'b'] && compiles(glob::glob_regex(p))
                ==> grammar::derives_primary(ts, Expr::Glob(p))
            &&& name == seq!['r', 'e', 'g', 'e', 'x'] && compiles(p) ==> grammar::derives_primary(
                ts,
                Expr::RegexSearch(p),
            )
            &&& name == seq!['r', 'e', 'g', 'e', 'x', '_', 's', 'e', 'a', 'r', 'c', 'h']
                && compiles(p) ==> grammar::derives_primary(ts, Expr::RegexSearch(p))
            &&& name == seq!['r', 'e', 'g', 'e', 'x', '_', 'm', 'a', 't', 'c', 'h'] && compiles(
                seq!['^', '(', '?', ':'] + p + seq![')', '$'],
            ) ==> grammar::derives_primary(ts, Expr::RegexMatch(p))
        }),
{
    reveal_strlit("^(?:");
    reveal_strlit(")$");
    assert("^(?:"@ =~= seq!['^', '(', '?', ':']);
    assert(")$"@ =~= seq![')', '$']);
    predicates_have_names(name);
    let ts = call(name, p);
    assert(ts[0] == name_token(name));
    assert(ts[2] == string_token(p));
}

/// An expression in parentheses is an operand, and has the same value.
pub proof fn groups_are_operands(x: Seq<Lexeme>, a: Expr)
    requires
        grammar::derives_or(x, a),
        grammar::all_tokens(x),
    ensures
        grammar::derives_primary(seq![open_token()] + x + seq![close_token()], a),
        grammar::all_tokens(seq![open_token()] + x + seq![close_token()]),
{
    let ts = seq![open_token()] + x + seq![close_token()];
    assert(ts.subrange(1, ts.len() - 1) =~= x);
    assert(ts[0] == open_token());
    assert(ts.last() == close_token());
    all_tokens_joined(seq![open_token()], x);
    all_tokens_joined(seq![open_token()] + x, seq![close_token()]);
}

proof fn all_tokens_joined(x: Seq<Lexeme>, y: Seq<Lexeme>)
    requires
        grammar::all_tokens(x),
        grammar::all_tokens(y),
    ensures
        grammar::all_tokens(x + y),
{
    assert forall|i: int| 0 <= i < (x + y).len() implies !token::is_last(
        #[trigger] (x + y)[i],
    ) by {
        if i < x.len() {
            assert((x + y)[i] == x[i]);
        } else {
            assert((x + y)[i] == y[i - x.len()]);
        }
    }
}

proof fn joined_by(x: Seq<Lexeme>, w: Lexeme, y: Seq<Lexeme>)
    requires
        grammar::all_tokens(x),
        grammar::all_tokens(y),
        !token::is_last(w),
    ensures
        grammar::all_tokens(x + seq![w] + y),
        (x + seq![w] + y)[x.len() as int] == w,
        (x + seq![w] + y).take(x.len() as int) == x,
        (x + seq![w] + y).skip((x.len() + 1) as int) == y,
{
    let ts = x + seq![w] + y;
    all_tokens_joined(x, seq![w]);
    all_tokens_joined(x + seq![w], y);
    assert(ts.take(x.len() as int) =~= x);
    assert(ts.skip((x.len() + 1) as int) =~= y);
}

/// What the grammar derives from tokens up to the end is what they are read as.
proof fn read_to_the_end(ts: Seq<Lexeme>, a: Expr)
    requires
        grammar::derives_or(ts, a),
        grammar::all_tokens(ts),
    ensures
        parser::parsed_expr(ts + seq![end_token()]) == Ok::<Expr, Fault>(a),
{
    let rest = seq![end_token()];
    assert(rest[0] == end_token());
    assert(grammar::is_open_stream(rest));
    grammar::or_is_complete(ts, rest, a);
    assert(parser::parsed_or_tail(a, rest) == Parsed::Ok((a, rest)));
}

proof fn derives_and_of(x: Seq<Lexeme>, y: Seq<Lexeme>, a: Expr, b: Expr)
    requires
        grammar::derives_and(x, a),
        grammar::derives_not(y, b),
        grammar::all_tokens(x),
        grammar::all_tokens(y),
    ensures
        grammar::derives_and(x + seq![and_token()] + y, Expr::And(Box::new(a), Box::new(b))),
        grammar::all_tokens(x + seq![and_token()] + y),
{
    words();
    joined_by(x, and_token(), y);
    let ts = x + seq![and_token()] + y;
    let k = x.len() as int;
    assert(grammar::is_word(ts[k], "and"@));
}

proof fn derives_or_of(x: Seq<Lexeme>, y: Seq<Lexeme>, a: Expr, b: Expr)
    requires
        grammar::derives_or(x, a),
        grammar::derives_and(y, b),
        grammar::all_tokens(x),
        grammar::all_tokens(y),
    ensures
        grammar::derives_or(x + seq![or_token()] + y, Expr::Or(Box::new(a), Box::new(b))),
        grammar::all_tokens(x + seq![or_token()] + y),
{
    words();
    joined_by(x, or_token(), y);
    let ts = x + seq![or_token()] + y;
    let k = x.len() as int;
    assert(grammar::is_word(ts[k], "or"@));
}

proof fn derives_not_of(x: Seq<Lexeme>, a: Expr)
    requires
        grammar::derives_not(x, a),
        grammar::all_tokens(x),
    ensures
        grammar::derives_not(seq![not_token()] + x, Expr::Not(Box::new(a))),
        grammar::all_tokens(seq![not_token()] + x),
{
    words();
    let ts = seq![not_token()] + x;
    assert(ts[0] == not_token());
    assert(ts.skip(1) =~= x);
    all_tokens_joined(seq![not_token()], x);
}

/// An operand alone is read as itself.
pub proof fn operand_is_read(x: Seq<Lexeme>, a: Expr)
    requires
        grammar::derives_primary(x, a),
        grammar::all_tokens(x),
    ensures
        parser::parsed_expr(x + seq![end_token()]) == Ok::<Expr, Fault>(a),
{
    assert(grammar::derives_not(x, a));
    assert(grammar::derives_and(x, a));
    read_to_the_end(x, a);
}

/// `and` binds tighter than `or`, on either side of it.
pub proof fn and_binds_tighter_than_or(
    x: Seq<Lexeme>,
    y: Seq<Lexeme>,
    z: Seq<Lexeme>,
    a: Expr,
    b: Expr,
    c: Expr,
)
    requires
        grammar::derives_primary(x, a) && grammar::all_tokens(x),
        grammar::derives_primary(y, b) && grammar::all_tokens(y),
        grammar::derives_primary(z, c) && grammar::all_tokens(z),
    ensures
        parser::parsed_expr(
            x + seq![or_token()] + (y + seq![and_token()] + z) + seq![end_token()],
        ) == Ok::<Expr, Fault>(
            Expr::Or(Box::new(a), Box::new(Expr::And(Box::new(b), Box::new(c)))),
        ),
        parser::parsed_expr(
            x + seq![and_token()] + y + seq![or_token()] + z + seq![end_token()],
        ) == Ok::<Expr, Fault>(
            Expr::Or(Box::new(Expr::And(Box::new(a), Box::new(b))), Box::new(c)),
        ),
{
    assert(grammar::derives_not(x, a) && grammar::derives_not(y, b) && grammar::derives_not(z, c));
    assert(grammar::derives_and(x, a) && grammar::derives_and(y, b) && grammar::derives_and(z, c));
    assert(grammar::derives_or(x, a));
    let bc = Expr::And(Box::new(b), Box::new(c));
    derives_and_of(y, z, b, c);
    derives_or_of(x, y + seq![and_token()] + z, a, bc);
    read_to_the_end(
        x + seq![or_token()] + (y + seq![and_token()] + z),
        Expr::Or(Box::new(a), Box::new(bc)),
    );
    let ab = Expr::And(Box::new(a), Box::new(b));
    derives_and_of(x, y, a, b);
    derives_or_of(x + seq![and_token()] + y, z, ab, c);
    read_to_the_end(
        x + seq![and_token()] + y + seq![or_token()] + z,
        Expr::Or(Box::new(ab), Box::new(c)),
    );
}

/// `not` binds tighter than `and`, on either side of it, and can be repeated.
pub proof fn not_binds_tightest(x: Seq<Lexeme>, y: Seq<Lexeme>, a: Expr, b: Expr)
    requires
        grammar::derives_primary(x, a) && grammar::all_tokens(x),
        grammar::derives_primary(y, b) && grammar::all_tokens(y),
    ensures
        parser::parsed_expr(
            seq![not_token()] + x + seq![and_token()] + y + seq![end_token()],
        ) == Ok::<Expr, Fault>(Expr::And(Box::new(Expr::Not(Box::new(a))), Box::new(b))),
        parser::parsed_expr(
            x + seq![and_token()] + (seq![not_token()] + y) + seq![end_token()],
        ) == Ok::<Expr, Fault>(Expr::And(Box::new(a), Box::new(Expr::Not(Box::new(b))))),
        parser::parsed_expr(
            seq![not_token()] + (seq![not_token()] + x) + seq![end_token()],
        ) == Ok::<Expr, Fault>(Expr::Not(Box::new(Expr::Not(Box::new(a))))),
{
    assert(grammar::derives_not(x, a) && grammar::derives_not(y, b));
    assert(grammar::derives_and(x, a));
    let na = Expr::Not(Box::new(a));
    let nb = Expr::Not(Box::new(b));
    derives_not_of(x, a);
    derives_not_of(y, b);
    assert(grammar::derives_and(seq![not_token()] + x, na));
    derives_and_of(seq![not_token()] + x, y, na, b);
    read_to_the_end(
        seq![not_token()] + x + seq![and_token()] + y,
        Expr::And(Box::new(na), Box::new(b)),
    );
    derives_and_of(x, seq![not_token()] + y, a, nb);
    read_to_the_end(
        x + seq![and_token()] + (seq![not_token()] + y),
        Expr::And(Box::new(a), Box::new(nb)),
    );
    derives_not_of(seq![not_token()] + x, na);
    let nna = Expr::Not(Box::new(na));
    assert(grammar::derives_and(seq![not_token()] + (seq![not_token()] + x), nna));
    read_to_the_end(seq![not_token()] + (seq![not_token()] + x), nna);
}

/// Operators of one kind group from the left.
pub proof fn operators_group_from_the_left(
    x: Seq<Lexeme>,
    y: Seq<Lexeme>,
    z: Seq<Lexeme>,
    a: Expr,
    b: Expr,
    c: Expr,
)
    requires
        grammar::derives_primary(x, a) && grammar::all_tokens(x),
        grammar::derives_primary(y, b) && grammar::all_tokens(y),
        grammar::derives_primary(z, c) && grammar::all_tokens(z),
    ensures
        parser::parsed_expr(
            x + seq![and_token()] + y + seq![and_token()] + z + seq![end_token()],
        ) == Ok::<Expr, Fault>(
            Expr::And(Box::new(Expr::And(Box::new(a), Box::new(b))), Box::new(c)),
        ),
        parser::parsed_expr(
            x + seq![or_token()] + y + seq![or_token()] + z + seq![end_token()],
        ) == Ok::<Expr, Fault>(
            Expr::Or(Box::new(Expr::Or(Box::new(a), Box::new(b))), Box::new(c)),
        ),
{
    assert(grammar::derives_not(x, a) && grammar::derives_not(y, b) && grammar::derives_not(z, c));
    assert(grammar::derives_and(x, a) && grammar::derives_and(y, b) && grammar::derives_and(z, c));
    assert(grammar::derives_or(x, a));
    let ab = Expr::And(Box::new(a), Box::new(b));
    derives_and_of(x, y, a, b);
    derives_and_of(x + seq![and_token()] + y, z, ab, c);
    let abc = Expr::And(Box::new(ab), Box::new(c));
    assert(grammar::derives_or(x + seq![and_token()] + y + seq![and_token()] + z, abc));
    read_to_the_end(x + seq![and_token()] + y + seq![and_token()] + z, abc);
    let oab = Expr::Or(Box::new(a), Box::new(b));
    derives_or_of(x, y, a, b);
    derives_or_of(x + seq![or_token()] + y, z, oab, c);
    read_to_the_end(
        x + seq![or_token()] + y + seq![or_token()] + z,
        Expr::Or(Box::new(oab), Box::new(c)),
    );
}

// ---------------------------------------------------------------------------
// Faults
// ---------------------------------------------------------------------------

proof fn first_fault(ts: Seq<Lexeme>, f: Fault)
    requires
        ts.len() > 0,
        !parser::starts_with_word(ts, "not"@),
        parser::parsed_primary(ts) == Parsed::Err(f),
    ensures
        parser::parsed_expr(ts) == Err::<Expr, Fault>(f),
{
    assert(parser::parsed_not(ts) == Parsed::Err(f));
    assert(parser::parsed_and(ts) == Parsed::Err(f));
    assert(parser::parsed_or(ts) == Parsed::Err(f));
}

/// A name that is neither `not` nor a predicate is an unknown function, whatever comes
/// after it.
pub proof fn unknown_name_is_a_fault(name: Seq<char>, rest: Seq<Lexeme>)
    requires
        name != seq!['n', 'o', 't'],
        name != seq!['g', 'l', 'o', 'b'],
        name != seq!['r', 'e', 'g', 'e', 'x'],
        name != seq!['r', 'e', 'g', 'e', 'x', '_', 's', 'e', 'a', 'r', 'c', 'h'],
        name != seq!['r', 'e', 'g', 'e', 'x', '_', 'm', 'a', 't', 'c', 'h'],
    ensures
        parser::parsed_expr(seq![name_token(name)] + rest) == Err::<Expr, Fault>(
            Fault::UnknownFunction(name),
        ),
{
    words();
    let ts = seq![name_token(name)] + rest;
    assert(ts[0] == name_token(name));
    predicates_have_names(name);
    first_fault(ts, Fault::UnknownFunction(name));
}

/// An expression cannot start with a closing parenthesis or a string, nor be empty.
pub proof fn start_without_an_operand_is_a_fault(written: Seq<char>, rest: Seq<Lexeme>)
    requires
        written.len() > 0,
    ensures
        parser::parsed_expr(seq![close_token()] + rest) == Err::<Expr, Fault>(
            Fault::UnexpectedToken(seq![')']),
        ),
        parser::parsed_expr(seq![string_token(written)] + rest) == Err::<Expr, Fault>(
            Fault::UnexpectedToken(written),
        ),
        parser::parsed_expr(seq![end_token()]) == Err::<Expr, Fault>(
            Fault::UnexpectedToken(seq!['e', 'n', 'd']),
        ),
{
    reveal_strlit("end");
    assert("end"@ =~= seq!['e', 'n', 'd']);
    let a = seq![close_token()] + rest;
    assert(a[0] == close_token());
    first_fault(a, Fault::UnexpectedToken(seq![')']));
    let b = seq![string_token(written)] + rest;
    assert(b[0] == string_token(written));
    first_fault(b, Fault::UnexpectedToken(written));
    let c = seq![end_token()];
    assert(c[0] == end_token());
    first_fault(c, Fault::UnexpectedToken(seq!['e', 'n', 'd']));
}

/// After the name of a predicate there has to stand an opening parenthesis, then a
/// string, then a closing parenthesis; the first token that does not fit is a fault.
pub proof fn incomplete_predicate_is_a_fault(name: Seq<char>, p: Seq<char>, t: Token)
    requires
        parser::predicate_named(name) is Some,
        t.text.len() > 0,
    ensures
        ({
            let other = Lexeme::Tok(t);
            let end = end_token();
            &&& t.kind != ExprTokenType::LParen ==> parser::parsed_expr(
                seq![name_token(name), other, end],
            ) == Err::<Expr, Fault>(Fault::Expected("'(' after function name"@, t.text))
            &&& t.kind != ExprTokenType::StringLit ==> parser::parsed_expr(
                seq![name_token(name), open_token(), other, end],
            ) == Err::<Expr, Fault>(Fault::MissingPattern)
            &&& t.kind != ExprTokenType::RParen ==> parser::parsed_expr(
                seq![name_token(name), open_token(), string_token(p), other, end],
            ) == Err::<Expr, Fault>(Fault::Expected("')'"@, t.text))
        }),
{
    words();
    predicates_have_names(name);
    let other = Lexeme::Tok(t);
    let end = end_token();
    assert(seq!['n', 'o', 't'][0] == 'n');
    if t.kind != ExprTokenType::LParen {
        let a = seq![name_token(name), other, end];
        assert(a.skip(1)[0] == other);
        first_fault(a, Fault::Expected("'(' after function name"@, t.text));
    }
    if t.kind != ExprTokenType::StringLit {
        let a = seq![name_token(name), open_token(), other, end];
        let b = a.skip(1);
        assert(b[0] == open_token() && b[1] == other);
        let c = b.skip(1);
        assert(c[0] == other);
        first_fault(a, Fault::MissingPattern);
    }
    if t.kind != ExprTokenType::RParen {
        let a = seq![name_token(name), open_token(), string_token(p), other, end];
        let b = a.skip(1);
        assert(b[0] == open_token() && b[1] == string_token(p));
        let c = b.skip(1);
        assert(c[0] == string_token(p) && c[1] == other);
        let d = c.skip(1);
        assert(d[0] == other);
        first_fault(a, Fault::Expected("')'"@, t.text));
    }
}

/// A pattern that does not compile is a fault with the pattern as it was written and
/// the reason.
pub proof fn broken_pattern_is_a_fault(name: Seq<char>, p: Seq<char>, reason: Seq<char>)
    ensures
        ({
            let ts = call(name, p) + seq![end_token()];
            let fault = Err::<Expr, Fault>(Fault::InvalidRegex(p, reason));
            &&& name == seq!['g', 'l', 'o', 'b'] && pattern::regex_error(
                glob::glob_regex(p),
                usize::BITS as nat,
            ) == Some(reason) ==> parser::parsed_expr(ts) == fault
            &&& name == seq!['r', 'e', 'g', 'e', 'x'] && pattern::regex_error(
                p,
                usize::BITS as nat,
            ) == Some(reason) ==> parser::parsed_expr(ts) == fault
            &&& name == seq!['r', 'e', 'g', 'e', 'x', '_', 's', 'e', 'a', 'r', 'c', 'h']
                && pattern::regex_error(p, usize::BITS as nat) == Some(reason)
                ==> parser::parsed_expr(ts) == fault
            &&& name == seq!['r', 'e', 'g', 'e', 'x', '_', 'm', 'a', 't', 'c', 'h']
                && pattern::regex_error(
                seq!['^', '(', '?', ':'] + p + seq![')', '$'],
                usize::BITS as nat,
            ) == Some(reason) ==> parser::parsed_expr(ts) == fault
        }),
{
    words();
    reveal_strlit("^(?:");
    reveal_strlit(")$");
    assert("^(?:"@ =~= seq!['^', '(', '?', ':']);
    assert(")$"@ =~= seq![')', '$']);
    predicates_have_names(name);
    let a = call(name, p) + seq![end_token()];
    assert(a[0] == name_token(name) && a[1] == open_token() && a[2] == string_token(p) && a[3]
        == close_token() && a[4] == end_token());
    let b = a.skip(1);
    assert(b[0] == open_token() && b[1] == string_token(p));
    let c = b.skip(1);
    assert(c[0] == string_token(p) && c[1] == close_token());
    let d = c.skip(1);
    assert(d[0] == close_token() && d[1] == end_token());
    if parser::predicate_named(name) is Some {
        let kind = parser::predicate_named(name)->0;
        assert(seq!['n', 'o', 't'][0] == 'n');
        if pattern::error_here(expr::predicate_source(kind, p)) == Some(reason) {
            first_fault(a, Fault::InvalidRegex(p, reason));
        }
    }
}

/// Anything after a whole operand but an operator or the end is too much.
pub proof fn trailing_content_is_a_fault(x: Seq<Lexeme>, a: Expr, t: Token)
    requires
        grammar::derives_primary(x, a) && grammar::all_tokens(x),
        t.kind != ExprTokenType::End,
        t.kind == ExprTokenType::Ident ==> t.text != seq!['a', 'n', 'd'] && t.text != seq![
            'o',
            'r',
        ],
    ensures
        parser::parsed_expr(x + seq![Lexeme::Tok(t), end_token()]) == Err::<Expr, Fault>(
            Fault::TrailingContent,
        ),
{
    words();
    let rest = seq![Lexeme::Tok(t), end_token()];
    assert(rest[0] == Lexeme::Tok(t));
    assert(rest.last() == end_token());
    assert(grammar::is_open_stream(rest));
    assert(grammar::derives_not(x, a));
    assert(grammar::derives_and(x, a));
    assert(grammar::derives_or(x, a));
    grammar::or_is_complete(x, rest, a);
    assert(parser::parsed_or_tail(a, rest) == Parsed::Ok((a, rest)));
}

/// A character that starts no token is a fault where it stands first.
pub proof fn bad_character_is_a_fault(src: Seq<char>, c: char, position: nat)
    requires
        token::next_lexeme(src, 0).0 == Lexeme::Bad(c, position),
    ensures
        parser::parsed_text(src) == Err::<Expr, Fault>(Fault::UnexpectedChar(c, position)),
{
    assert(token::lexemes(src, 0)[0] == Lexeme::Bad(c, position));
}

/// A character that starts no token is a fault where it comes up after a name.
pub proof fn bad_character_after_a_name_is_a_fault(name: Seq<char>, c: char, position: nat)
    requires
        parser::predicate_named(name) is Some,
    ensures
        parser::parsed_expr(seq![name_token(name), Lexeme::Bad(c, position)]) == Err::<Expr, Fault>(
            Fault::UnexpectedChar(c, position),
        ),
{
    words();
    predicates_have_names(name);
    assert(seq!['n', 'o', 't'][0] == 'n');
    let ts = seq![name_token(name), Lexeme::Bad(c, position)];
    assert(ts[0] == name_token(name) && ts[1] == Lexeme::Bad(c, position));
    first_fault(ts, Fault::UnexpectedChar(c, position));
}

/// A group has to be closed: another token in place of the parenthesis is a fault, and
/// so is the end.
pub proof fn unclosed_group_is_a_fault(x: Seq<Lexeme>, a: Expr, t: Token)
    requires
        grammar::derives_or(x, a) && grammar::all_tokens(x),
        t.text.len() > 0,
        t.kind == ExprTokenType::LParen || t.kind == ExprTokenType::StringLit,
    ensures
        parser::parsed_expr(seq![open_token()] + x + seq![Lexeme::Tok(t), end_token()]) == Err::<
            Expr,
            Fault,
        >(Fault::Expected(seq!['\'', ')', '\''], t.text)),
        parser::parsed_expr(seq![open_token()] + x + seq![end_token()]) == Err::<Expr, Fault>(
            Fault::Expected(seq!['\'', ')', '\''], seq!['e', 'n', 'd']),
        ),
{
    reveal_strlit("')'");
    reveal_strlit("end");
    assert("')'"@ =~= seq!['\'', ')', '\'']);
    assert("end"@ =~= seq!['e', 'n', 'd']);
    let one = seq![Lexeme::Tok(t), end_token()];
    assert(one[0] == Lexeme::Tok(t) && one.last() == end_token());
    assert(grammar::is_open_stream(one));
    unclosed(x, a, one);
    let two = seq![end_token()];
    assert(two[0] == end_token());
    assert(grammar::is_open_stream(two));
    unclosed(x, a, two);
}

proof fn unclosed(x: Seq<Lexeme>, a: Expr, rest: Seq<Lexeme>)
    requires
        grammar::derives_or(x, a) && grammar::all_tokens(x),
        grammar::is_open_stream(rest),
        parser::kind_of(rest) != ExprTokenType::RParen,
        parser::kind_of(rest) != ExprTokenType::Ident,
    ensures
        parser::parsed_expr(seq![open_token()] + x + rest) == Err::<Expr, Fault>(
            Fault::Expected("')'"@, parser::shown(parser::text_of(rest))),
        ),
{
    let ts = seq![open_token()] + x + rest;
    grammar::or_is_complete(x, rest, a);
    assert(ts[0] == open_token());
    assert(ts.skip(1) =~= x + rest);
    assert(ts[1] == x[0]);
    assert(!token::is_last(x[0]));
    assert(parser::stepped(ts) == Ok::<Seq<Lexeme>, Fault>(x + rest));
    assert(parser::parsed_or_tail(a, rest) == Parsed::Ok((a, rest)));
    first_fault(ts, Fault::Expected("')'"@, parser::shown(parser::text_of(rest))));
}

/// An operator needs an operand after it.
pub proof fn dangling_operator_is_a_fault(x: Seq<Lexeme>, a: Expr)
    requires
        grammar::derives_primary(x, a) && grammar::all_tokens(x),
    ensures
        ({
            let fault = Err::<Expr, Fault>(Fault::UnexpectedToken(seq!['e', 'n', 'd']));
            &&& parser::parsed_expr(x + seq![or_token(), end_token()]) == fault
            &&& parser::parsed_expr(x + seq![and_token(), end_token()]) == fault
            &&& parser::parsed_expr(seq![not_token(), end_token()]) == fault
        }),
{
    words();
    reveal_strlit("end");
    assert("end"@ =~= seq!['e', 'n', 'd']);
    let f = Fault::UnexpectedToken(seq!['e', 'n', 'd']);
    assert(grammar::derives_not(x, a));
    assert(grammar::derives_and(x, a));
    assert(grammar::derives_or(x, a));
    let end = seq![end_token()];
    assert(end[0] == end_token());
    assert(parser::parsed_primary(end) == Parsed::Err(f));
    assert(parser::parsed_not(end) == Parsed::Err(f));
    assert(parser::parsed_and(end) == Parsed::Err(f));
    let ors = seq![or_token(), end_token()];
    assert(ors[0] == or_token() && ors[1] == end_token() && ors.last() == end_token());
    assert(ors.skip(1) =~= end);
    assert(seq!['o', 'r'][0] == 'o' && seq!['a', 'n', 'd'][0] == 'a');
    assert(grammar::is_open_stream(ors));
    grammar::or_is_complete(x, ors, a);
    assert(parser::parsed_or_tail(a, ors) == Parsed::Err(f));
    let ands = seq![and_token(), end_token()];
    assert(ands[0] == and_token() && ands[1] == end_token() && ands.last() == end_token());
    assert(ands.skip(1) =~= end);
    assert(grammar::is_open_stream(ands));
    grammar::and_is_complete(x, ands, a);
    assert(parser::parsed_and_tail(a, ands) == Parsed::Err(f));
    assert(parser::parsed_or(x + ands) == Parsed::Err(f));
    let nots = seq![not_token(), end_token()];
    assert(nots[0] == not_token() && nots[1] == end_token());
    assert(nots.skip(1) =~= end);
    assert(parser::parsed_not(nots) == Parsed::Err(f));
    assert(parser::parsed_and(nots) == Parsed::Err(f));
    assert(parser::parsed_or(nots) == Parsed::Err(f));
}

/// A message quotes what is wrong as it was written.
pub proof fn messages_quote_what_is_wrong(c: char, n: nat, s: Seq<char>, t: Seq<char>)
    ensures
        parser::fault_message(Fault::UnexpectedChar(c, n)) == "unexpected character '"@.push(c)
            + "' in expression at position "@ + text::decimal(n),
        parser::fault_message(Fault::Expected(s, t)) == "expected "@ + s
            + " in expression, got '"@ + t.push('\''),
        parser::fault_message(Fault::UnexpectedToken(s)) == "unexpected token '"@ + s
            + "' in expression"@,
        parser::fault_message(Fault::UnknownFunction(s)) == "unknown function '"@ + s
            + "' in expression"@,
        parser::fault_message(Fault::InvalidRegex(s, t)) == "invalid regex '"@ + s
            + "' in expression: "@ + t,
{
    reveal_strlit("'");
    assert(parser::fault_message(Fault::UnexpectedChar(c, n)) =~= "unexpected character '"@.push(c)
        + "' in expression at position "@ + text::decimal(n));
    assert(parser::fault_message(Fault::Expected(s, t)) =~= "expected "@ + s
        + " in expression, got '"@ + t.push('\''));
}

} // verus!
