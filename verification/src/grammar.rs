//! The grammar of expressions, and that the parser accepts exactly it.
use vstd::prelude::*;

use crate::expr;
#[allow(unused_imports)]
use crate::expr::Expr;
use crate::parser;
#[allow(unused_imports)]
use crate::parser::Parsed;
use crate::pattern;
use crate::text;
use crate::token;
#[allow(unused_imports)]
use crate::token::{ExprTokenType, Lexeme};

verus! {

/// `l` is a token of the given kind.
pub open spec fn is_kind(l: Lexeme, kind: ExprTokenType) -> bool {
    l matches Lexeme::Tok(t) && t.kind == kind
}

/// `l` is the name `word`.
pub open spec fn is_word(l: Lexeme, word: Seq<char>) -> bool {
    l matches Lexeme::Tok(t) && t.kind == ExprTokenType::Ident && t.text == word
}

/// `function "(" STRING ")"`, with a pattern that compiles.
pub open spec fn derives_call(ts: Seq<Lexeme>, e: Expr) -> bool {
    &&& ts.len() == 4
    &&& is_kind(ts[0], ExprTokenType::Ident)
    &&& is_kind(ts[1], ExprTokenType::LParen)
    &&& is_kind(ts[2], ExprTokenType::StringLit)
    &&& is_kind(ts[3], ExprTokenType::RParen)
    &&& parser::predicate_named(ts[0]->Tok_0.text) matches Some(kind)
    &&& pattern::error_here(expr::predicate_source(kind, ts[2]->Tok_0.text)) is None
    &&& e == expr::predicate(kind, ts[2]->Tok_0.text)
}

/// `primary := function "(" STRING ")" | "(" expr ")"`
pub open spec fn derives_primary(ts: Seq<Lexeme>, e: Expr) -> bool
    decreases ts.len(), 0nat,
{
    ||| derives_call(ts, e)
    ||| {
        &&& ts.len() >= 2
        &&& is_kind(ts[0], ExprTokenType::LParen)
        &&& is_kind(ts.last(), ExprTokenType::RParen)
        &&& derives_or(ts.subrange(1, ts.len() - 1), e)
    }
}

/// `not_expr := "not" not_expr | primary`
pub open spec fn derives_not(ts: Seq<Lexeme>, e: Expr) -> bool
    decreases ts.len(), 1nat,
{
    ||| derives_primary(ts, e)
    ||| {
        &&& ts.len() >= 1
        &&& is_word(ts[0], "not"@)
        &&& e matches Expr::Not(c)
        &&& derives_not(ts.skip(1), *c)
    }
}

/// `and_expr := not_expr | and_expr "and" not_expr`
pub open spec fn derives_and(ts: Seq<Lexeme>, e: Expr) -> bool
    decreases ts.len(), 2nat,
{
    ||| derives_not(ts, e)
    ||| exists|k: int|
        #![trigger ts[k]]
        {
            &&& 0 <= k < ts.len()
            &&& is_word(ts[k], "and"@)
            &&& e matches Expr::And(l, r)
            &&& derives_and(ts.take(k), *l)
            &&& derives_not(ts.skip(k + 1), *r)
        }
}

/// `or_expr := and_expr | or_expr "or" and_expr`
pub open spec fn derives_or(ts: Seq<Lexeme>, e: Expr) -> bool
    decreases ts.len(), 4nat,
{
    ||| derives_and(ts, e)
    ||| exists|k: int|
        #![trigger ts[k]]
        {
            &&& 0 <= k < ts.len()
            &&& is_word(ts[k], "or"@)
            &&& e matches Expr::Or(l, r)
            &&& derives_or(ts.take(k), *l)
            &&& derives_and(ts.skip(k + 1), *r)
        }
}

/// Tokens up to a last lexeme, which alone can be the end or no token at all.
pub open spec fn is_stream(ts: Seq<Lexeme>) -> bool {
    &&& ts.len() > 0
    &&& token::is_last(ts.last())
    &&& forall|i: int| 0 <= i < ts.len() - 1 ==> !token::is_last(#[trigger] ts[i])
}

/// A stream that starts with a token.
pub open spec fn is_open_stream(ts: Seq<Lexeme>) -> bool {
    is_stream(ts) && ts[0] is Tok
}

/// `rest` is what is left of `ts` after some lexemes.
pub open spec fn is_rest(rest: Seq<Lexeme>, ts: Seq<Lexeme>) -> bool {
    rest.len() <= ts.len() && rest == ts.skip(ts.len() - rest.len())
}

/// The lexemes of `ts` before `rest`.
pub open spec fn before(ts: Seq<Lexeme>, rest: Seq<Lexeme>) -> Seq<Lexeme> {
    ts.take(ts.len() - rest.len())
}

proof fn lexemes_are_a_stream(s: Seq<char>, pos: nat)
    requires
        pos <= s.len(),
    ensures
        is_stream(token::lexemes(s, pos)),
    decreases s.len() - pos,
{
    let (l, next) = token::next_lexeme(s, pos);
    token::lexing_progresses(s, pos);
    if !token::is_last(l) {
        lexemes_are_a_stream(s, next);
        let tail = token::lexemes(s, next);
        let ts = token::lexemes(s, pos);
        assert(ts == seq![l] + tail);
        assert forall|i: int| 0 <= i < ts.len() - 1 implies !token::is_last(#[trigger] ts[i]) by {
            if i > 0 {
                assert(ts[i] == tail[i - 1]);
            }
        }
    }
}

/// Moving past a token that is not the end.
proof fn advancing(ts: Seq<Lexeme>)
    requires
        is_open_stream(ts),
        parser::kind_of(ts) != ExprTokenType::End,
    ensures
        ts.len() > 1,
        match parser::advanced(ts) {
            Ok(rest) => rest == ts.skip(1) && is_open_stream(rest) && parser::stepped(ts)
                == parser::advanced(ts),
            Err(f) => !(ts[1] is Tok) && parser::stepped(ts) == parser::advanced(ts),
        },
        ts[1] is Tok ==> parser::advanced(ts) is Ok,
{
    let rest = ts.skip(1);
    assert(rest.last() == ts.last());
    assert forall|i: int| 0 <= i < rest.len() - 1 implies !token::is_last(#[trigger] rest[i]) by {
        assert(rest[i] == ts[i + 1]);
    }
}

// ---------------------------------------------------------------------------
// What parses is derived
// ---------------------------------------------------------------------------

/// What a parse leaves over is the end of what it was given, and shorter.
pub open spec fn sound(p: Parsed, ts: Seq<Lexeme>) -> bool {
    p matches Ok((_, rest)) ==> is_open_stream(rest) && is_rest(rest, ts) && rest.len() < ts.len()
}

proof fn rest_of_rest(c: Seq<Lexeme>, b: Seq<Lexeme>, a: Seq<Lexeme>)
    requires
        is_rest(c, b),
        is_rest(b, a),
    ensures
        is_rest(c, a),
        before(a, c) == before(a, b) + before(b, c),
{
    assert(c =~= a.skip(a.len() - c.len()));
    assert(before(a, c) =~= before(a, b) + before(b, c));
}

proof fn call_is_sound(ts: Seq<Lexeme>)
    requires
        is_open_stream(ts),
        parser::kind_of(ts) == ExprTokenType::Ident,
    ensures
        sound(parser::parsed_call(ts), ts),
        parser::parsed_call(ts) matches Ok((e, rest)) ==> derives_call(before(ts, rest), e),
{
    if let Ok((e, rest)) = parser::parsed_call(ts) {
        advancing(ts);
        let t1 = parser::advanced(ts)->Ok_0;
        advancing(t1);
        let t2 = parser::advanced(t1)->Ok_0;
        advancing(t2);
        let t3 = parser::advanced(t2)->Ok_0;
        advancing(t3);
        assert(rest == t3.skip(1));
        assert(rest =~= ts.skip(4));
        assert(before(ts, rest) =~= ts.take(4));
        assert(t1[0] == ts[1] && t2[0] == ts[2] && t3[0] == ts[3]);
    }
}

proof fn primary_is_sound(ts: Seq<Lexeme>)
    requires
        is_open_stream(ts),
    ensures
        sound(parser::parsed_primary(ts), ts),
        parser::parsed_primary(ts) matches Ok((e, rest)) ==> derives_primary(before(ts, rest), e),
    decreases ts.len(), 0nat,
{
    if let Ok((e, rest)) = parser::parsed_primary(ts) {
        if parser::kind_of(ts) == ExprTokenType::LParen {
            advancing(ts);
            let inner = ts.skip(1);
            or_is_sound(inner);
            let t1 = parser::parsed_or(inner)->Ok_0.1;
            advancing(t1);
            assert(rest == t1.skip(1));
            assert(is_rest(inner, ts));
            rest_of_rest(t1, inner, ts);
            assert(is_rest(rest, t1));
            rest_of_rest(rest, t1, ts);
            let pre = before(ts, rest);
            assert(before(ts, t1) =~= ts.take(1) + before(inner, t1));
            assert(pre.subrange(1, pre.len() - 1) =~= before(inner, t1));
            assert(pre.last() == t1[0]);
        } else {
            call_is_sound(ts);
        }
    }
}

proof fn not_is_sound(ts: Seq<Lexeme>)
    requires
        is_open_stream(ts),
    ensures
        sound(parser::parsed_not(ts), ts),
        parser::parsed_not(ts) matches Ok((e, rest)) ==> derives_not(before(ts, rest), e),
    decreases ts.len(), 1nat,
{
    primary_is_sound(ts);
    if parser::starts_with_word(ts, "not"@) {
        if let Ok((e, rest)) = parser::parsed_not(ts) {
            advancing(ts);
            let inner = ts.skip(1);
            not_is_sound(inner);
            rest_of_rest(rest, inner, ts);
            let pre = before(ts, rest);
            assert(pre.skip(1) =~= before(inner, rest));
            assert(pre[0] == ts[0]);
        }
    }
}

proof fn and_tail_is_sound(left: Expr, whole: Seq<Lexeme>, ts: Seq<Lexeme>)
    requires
        is_open_stream(ts),
        is_rest(ts, whole),
        ts.len() < whole.len(),
        derives_and(before(whole, ts), left),
    ensures
        sound(parser::parsed_and_tail(left, ts), whole),
        parser::parsed_and_tail(left, ts) matches Ok((e, rest)) ==> derives_and(
            before(whole, rest),
            e,
        ),
    decreases ts.len(), 2nat,
{
    if parser::starts_with_word(ts, "and"@) && parser::parsed_and_tail(left, ts) is Ok {
        advancing(ts);
        let next = ts.skip(1);
        not_is_sound(next);
        let (right, after) = parser::parsed_not(next)->Ok_0;
        let both = Expr::And(Box::new(left), Box::new(right));
        rest_of_rest(next, ts, whole);
        rest_of_rest(after, next, whole);
        let pre = before(whole, after);
        let k = whole.len() - ts.len();
        assert(pre[k] == ts[0]);
        assert(pre.take(k) =~= before(whole, ts));
        assert(pre.skip(k + 1) =~= before(next, after));
        assert(is_word(pre[k], "and"@));
        assert(derives_and(pre, both));
        and_tail_is_sound(both, whole, after);
    }
}

proof fn and_is_sound(ts: Seq<Lexeme>)
    requires
        is_open_stream(ts),
    ensures
        sound(parser::parsed_and(ts), ts),
        parser::parsed_and(ts) matches Ok((e, rest)) ==> derives_and(before(ts, rest), e),
    decreases ts.len(), 3nat,
{
    not_is_sound(ts);
    if let Ok((left, rest)) = parser::parsed_not(ts) {
        and_tail_is_sound(left, ts, rest);
    }
}

proof fn or_tail_is_sound(left: Expr, whole: Seq<Lexeme>, ts: Seq<Lexeme>)
    requires
        is_open_stream(ts),
        is_rest(ts, whole),
        ts.len() < whole.len(),
        derives_or(before(whole, ts), left),
    ensures
        sound(parser::parsed_or_tail(left, ts), whole),
        parser::parsed_or_tail(left, ts) matches Ok((e, rest)) ==> derives_or(
            before(whole, rest),
            e,
        ),
    decreases ts.len(), 4nat,
{
    if parser::starts_with_word(ts, "or"@) && parser::parsed_or_tail(left, ts) is Ok {
        advancing(ts);
        let next = ts.skip(1);
        and_is_sound(next);
        let (right, after) = parser::parsed_and(next)->Ok_0;
        let both = Expr::Or(Box::new(left), Box::new(right));
        rest_of_rest(next, ts, whole);
        rest_of_rest(after, next, whole);
        let pre = before(whole, after);
        let k = whole.len() - ts.len();
        assert(pre[k] == ts[0]);
        assert(pre.take(k) =~= before(whole, ts));
        assert(pre.skip(k + 1) =~= before(next, after));
        assert(is_word(pre[k], "or"@));
        assert(derives_or(pre, both));
        or_tail_is_sound(both, whole, after);
    }
}

proof fn or_is_sound(ts: Seq<Lexeme>)
    requires
        is_open_stream(ts),
    ensures
        sound(parser::parsed_or(ts), ts),
        parser::parsed_or(ts) matches Ok((e, rest)) ==> derives_or(before(ts, rest), e),
    decreases ts.len(), 5nat,
{
    and_is_sound(ts);
    if let Ok((left, rest)) = parser::parsed_and(ts) {
        or_tail_is_sound(left, ts, rest);
    }
}

// ---------------------------------------------------------------------------
// What is derived parses
// ---------------------------------------------------------------------------

/// Tokens none of which is the end.
pub open spec fn all_tokens(ts: Seq<Lexeme>) -> bool {
    forall|i: int| 0 <= i < ts.len() ==> !token::is_last(#[trigger] ts[i])
}

proof fn joined_stream(pre: Seq<Lexeme>, rest: Seq<Lexeme>)
    requires
        all_tokens(pre),
        is_open_stream(rest),
    ensures
        is_open_stream(pre + rest),
{
    let ts = pre + rest;
    assert forall|i: int| 0 <= i < ts.len() - 1 implies !token::is_last(#[trigger] ts[i]) by {
        if i < pre.len() {
            assert(ts[i] == pre[i]);
        } else {
            assert(ts[i] == rest[i - pre.len()]);
        }
    }
    assert(ts.last() == rest.last());
    if pre.len() > 0 {
        assert(ts[0] == pre[0]);
    } else {
        assert(ts[0] == rest[0]);
    }
}

/// Moving past the first of some tokens.
proof fn advancing_in(pre: Seq<Lexeme>, rest: Seq<Lexeme>)
    requires
        all_tokens(pre),
        pre.len() > 0,
        is_open_stream(rest),
    ensures
        parser::advanced(pre + rest) == Ok::<Seq<Lexeme>, parser::Fault>(pre.skip(1) + rest),
        parser::stepped(pre + rest) == Ok::<Seq<Lexeme>, parser::Fault>(pre.skip(1) + rest),
        parser::kind_of(pre + rest) == pre[0]->Tok_0.kind,
        parser::text_of(pre + rest) == pre[0]->Tok_0.text,
        all_tokens(pre.skip(1)),
{
    let ts = pre + rest;
    assert(ts[0] == pre[0]);
    assert(ts.skip(1) =~= pre.skip(1) + rest);
    if pre.len() > 1 {
        assert(ts[1] == pre[1]);
    } else {
        assert(ts[1] == rest[0]);
    }
    assert forall|i: int| 0 <= i < pre.skip(1).len() implies !token::is_last(
        #[trigger] pre.skip(1)[i],
    ) by {
        assert(pre.skip(1)[i] == pre[i + 1]);
    }
}

proof fn all_tokens_of_parts(ts: Seq<Lexeme>, k: int)
    requires
        all_tokens(ts),
        0 <= k <= ts.len(),
    ensures
        all_tokens(ts.take(k)),
        all_tokens(ts.skip(k)),
{
    assert forall|i: int| 0 <= i < ts.take(k).len() implies !token::is_last(
        #[trigger] ts.take(k)[i],
    ) by {
        assert(ts.take(k)[i] == ts[i]);
    }
    assert forall|i: int| 0 <= i < ts.skip(k).len() implies !token::is_last(
        #[trigger] ts.skip(k)[i],
    ) by {
        assert(ts.skip(k)[i] == ts[i + k]);
    }
}

proof fn words_differ()
    ensures
        "not"@ != "and"@,
        "not"@ != "or"@,
        "and"@ != "or"@,
        parser::predicate_named("not"@) is None,
{
    reveal_strlit("not");
    reveal_strlit("and");
    reveal_strlit("or");
    reveal_strlit("glob");
    reveal_strlit("regex");
    reveal_strlit("regex_search");
    reveal_strlit("regex_match");
    assert("not"@[0] == 'n' && "and"@[0] == 'a' && "or"@[0] == 'o');
    assert("not"@.len() == 3);
    assert("glob"@.len() == 4 && "regex"@.len() == 5 && "regex_search"@.len() == 12
        && "regex_match"@.len() == 11);
}

proof fn call_is_complete(pre: Seq<Lexeme>, rest: Seq<Lexeme>, e: Expr)
    requires
        all_tokens(pre),
        is_open_stream(rest),
        derives_call(pre, e),
    ensures
        parser::parsed_primary(pre + rest) == Parsed::Ok((e, rest)),
{
    advancing_in(pre, rest);
    advancing_in(pre.skip(1), rest);
    assert(pre.skip(1).skip(1) =~= pre.skip(2));
    advancing_in(pre.skip(2), rest);
    assert(pre.skip(2).skip(1) =~= pre.skip(3));
    advancing_in(pre.skip(3), rest);
    assert(pre.skip(3).skip(1) + rest =~= rest);
}

proof fn primary_is_complete(pre: Seq<Lexeme>, rest: Seq<Lexeme>, e: Expr)
    requires
        all_tokens(pre),
        is_open_stream(rest),
        derives_primary(pre, e),
    ensures
        pre.len() > 0,
        parser::parsed_primary(pre + rest) == Parsed::Ok((e, rest)),
        !is_word(pre[0], "not"@),
    decreases pre.len(), 0nat,
{
    words_differ();
    if derives_call(pre, e) {
        call_is_complete(pre, rest, e);
    } else {
        let n = pre.len();
        let inner = pre.subrange(1, n - 1);
        let close = seq![pre.last()];
        advancing_in(pre, rest);
        all_tokens_of_parts(pre, n - 1);
        all_tokens_of_parts(pre.take(n - 1), 1);
        assert(pre.take(n - 1).skip(1) =~= inner);
        assert(pre.skip(n - 1) =~= close);
        joined_stream(close, rest);
        assert((close + rest)[0] == pre.last());
        or_is_complete(inner, close + rest, e);
        assert(pre.skip(1) + rest =~= inner + (close + rest));
        advancing_in(close, rest);
        assert(close.skip(1) + rest =~= rest);
        assert(parser::parsed_or_tail(e, close + rest) == Parsed::Ok((e, close + rest)));
    }
}

proof fn not_is_complete(pre: Seq<Lexeme>, rest: Seq<Lexeme>, e: Expr)
    requires
        all_tokens(pre),
        is_open_stream(rest),
        derives_not(pre, e),
    ensures
        pre.len() > 0,
        parser::parsed_not(pre + rest) == Parsed::Ok((e, rest)),
    decreases pre.len(), 1nat,
{
    if derives_primary(pre, e) {
        primary_is_complete(pre, rest, e);
        assert((pre + rest)[0] == pre[0]);
    } else {
        let c = e->Not_0;
        advancing_in(pre, rest);
        not_is_complete(pre.skip(1), rest, *c);
    }
}

/// What the grammar derives without `or` is read up to its end by the parser.
pub proof fn and_is_complete(pre: Seq<Lexeme>, rest: Seq<Lexeme>, e: Expr)
    requires
        all_tokens(pre),
        is_open_stream(rest),
        derives_and(pre, e),
    ensures
        pre.len() > 0,
        parser::parsed_and(pre + rest) == parser::parsed_and_tail(e, rest),
    decreases pre.len(), 2nat,
{
    if derives_not(pre, e) {
        not_is_complete(pre, rest, e);
    } else {
        let k = choose|k: int|
            #![trigger pre[k]]
            {
                &&& 0 <= k < pre.len()
                &&& is_word(pre[k], "and"@)
                &&& e matches Expr::And(l, r)
                &&& derives_and(pre.take(k), *l)
                &&& derives_not(pre.skip(k + 1), *r)
            };
        let l = *e->And_0;
        let r = *e->And_1;
        all_tokens_of_parts(pre, k);
        all_tokens_of_parts(pre, k + 1);
        let tail = pre.skip(k) + rest;
        joined_stream(pre.skip(k), rest);
        and_is_complete(pre.take(k), tail, l);
        assert(pre.take(k) + tail =~= pre + rest);
        advancing_in(pre.skip(k), rest);
        assert(pre.skip(k).skip(1) =~= pre.skip(k + 1));
        not_is_complete(pre.skip(k + 1), rest, r);
    }
}

/// What the grammar derives is read up to its end by the parser.
pub proof fn or_is_complete(pre: Seq<Lexeme>, rest: Seq<Lexeme>, e: Expr)
    requires
        all_tokens(pre),
        is_open_stream(rest),
        derives_or(pre, e),
        !is_word(rest[0], "and"@),
    ensures
        pre.len() > 0,
        parser::parsed_or(pre + rest) == parser::parsed_or_tail(e, rest),
    decreases pre.len(), 4nat,
{
    if derives_and(pre, e) {
        and_is_complete(pre, rest, e);
    } else {
        words_differ();
        let k = choose|k: int|
            #![trigger pre[k]]
            {
                &&& 0 <= k < pre.len()
                &&& is_word(pre[k], "or"@)
                &&& e matches Expr::Or(l, r)
                &&& derives_or(pre.take(k), *l)
                &&& derives_and(pre.skip(k + 1), *r)
            };
        let l = *e->Or_0;
        let r = *e->Or_1;
        all_tokens_of_parts(pre, k);
        all_tokens_of_parts(pre, k + 1);
        let tail = pre.skip(k) + rest;
        joined_stream(pre.skip(k), rest);
        assert(tail[0] == pre[k]);
        or_is_complete(pre.take(k), tail, l);
        assert(pre.take(k) + tail =~= pre + rest);
        advancing_in(pre.skip(k), rest);
        assert(pre.skip(k).skip(1) =~= pre.skip(k + 1));
        and_is_complete(pre.skip(k + 1), rest, r);
    }
}

// ---------------------------------------------------------------------------
// The parser and the grammar
// ---------------------------------------------------------------------------

/// A text parses to an expression exactly when it consists of tokens from which
/// the grammar derives that expression.
pub proof fn parser_accepts_the_grammar(src: Seq<char>, e: Expr)
    ensures
        parser::parsed_text(src) == Ok::<Expr, parser::Fault>(e) <==> {
            let ts = token::lexemes(src, 0);
            is_kind(ts.last(), ExprTokenType::End) && derives_or(ts.drop_last(), e)
        },
{
    let ts = token::lexemes(src, 0);
    let pre = ts.drop_last();
    lexemes_are_a_stream(src, 0);
    assert(all_tokens(pre)) by {
        assert forall|i: int| 0 <= i < pre.len() implies !token::is_last(#[trigger] pre[i]) by {
            assert(pre[i] == ts[i]);
        }
    }
    if is_kind(ts.last(), ExprTokenType::End) && derives_or(pre, e) {
        let rest = seq![ts.last()];
        assert(is_open_stream(rest));
        or_is_complete(pre, rest, e);
        assert(pre + rest =~= ts);
        assert(ts[0] == pre[0]);
        assert(parser::parsed_or(ts) == Parsed::Ok((e, rest)));
    }
    if parser::parsed_text(src) == Ok::<Expr, parser::Fault>(e) {
        or_is_sound(ts);
        let rest = parser::parsed_or(ts)->Ok_0.1;
        assert(rest[0] == ts[ts.len() - rest.len()]);
        assert(rest.len() == 1) by {
            if rest.len() > 1 {
                assert(!token::is_last(rest[0]));
            }
        }
        assert(before(ts, rest) =~= pre);
        assert(rest.last() == ts.last());
    }
}

/// The grammar is unambiguous: no text has two readings.
pub proof fn grammar_is_unambiguous(src: Seq<char>, e1: Expr, e2: Expr)
    requires
        is_kind(token::lexemes(src, 0).last(), ExprTokenType::End),
        derives_or(token::lexemes(src, 0).drop_last(), e1),
        derives_or(token::lexemes(src, 0).drop_last(), e2),
    ensures
        e1 == e2,
{
    parser_accepts_the_grammar(src, e1);
    parser_accepts_the_grammar(src, e2);
}

// ---------------------------------------------------------------------------
// Parentheses
// ---------------------------------------------------------------------------

proof fn white_space_in_context(pre: Seq<char>, s: Seq<char>, post: Seq<char>, pos: nat)
    requires
        pos <= s.len(),
        post.len() > 0,
        !text::is_white_space(post[0]),
    ensures
        token::skip_white(pre + s + post, pre.len() + pos) == pre.len() + token::skip_white(s, pos),
        token::skip_white(s, pos) <= s.len(),
    decreases s.len() - pos,
{
    let w = pre + s + post;
    if pos < s.len() {
        assert(w[pre.len() + pos as int] == s[pos as int]);
        if text::is_white_space(s[pos as int]) {
            white_space_in_context(pre, s, post, pos + 1);
        }
    } else {
        assert(w[pre.len() + pos as int] == post[0]);
    }
}

proof fn name_in_context(pre: Seq<char>, s: Seq<char>, post: Seq<char>, pos: nat)
    requires
        pos <= s.len(),
        token::name_end(s, pos) < s.len(),
    ensures
        token::name_end(pre + s + post, pre.len() + pos) == pre.len() + token::name_end(s, pos),
        pos <= token::name_end(s, pos),
    decreases s.len() - pos,
{
    let w = pre + s + post;
    assert(pos < s.len());
    assert(w[pre.len() + pos as int] == s[pos as int]);
    if token::is_name_char(s[pos as int]) {
        name_in_context(pre, s, post, pos + 1);
    }
}

proof fn quotes_in_context(pre: Seq<char>, s: Seq<char>, post: Seq<char>, pos: nat, q: char)
    requires
        pos <= s.len(),
        token::quoted_end(s, pos, q) < s.len(),
    ensures
        token::quoted_end(pre + s + post, pre.len() + pos, q) == pre.len() + token::quoted_end(
            s,
            pos,
            q,
        ),
        token::quoted_text(pre + s + post, pre.len() + pos, q) == token::quoted_text(s, pos, q),
    decreases s.len() - pos,
{
    let w = pre + s + post;
    assert(pos < s.len());
    assert(w[pre.len() + pos as int] == s[pos as int]);
    if s[pos as int] != q {
        if s[pos as int] == '\\' && pos + 1 < s.len() {
            assert(w[pre.len() + pos as int + 1] == s[pos as int + 1]);
            quotes_in_context(pre, s, post, pos + 2, q);
        } else {
            quotes_in_context(pre, s, post, pos + 1, q);
        }
    }
}

/// A token that ends before the text does, or a parenthesis, is the same token where
/// other text stands around.
proof fn token_in_context(pre: Seq<char>, s: Seq<char>, post: Seq<char>, pos: nat)
    requires
        pos <= s.len(),
        post.len() > 0,
        !text::is_white_space(post[0]),
        !token::is_last(token::next_lexeme(s, pos).0),
        token::next_lexeme(s, pos).1 < s.len() || is_kind(
            token::next_lexeme(s, pos).0,
            ExprTokenType::RParen,
        ),
    ensures
        token::next_lexeme(pre + s + post, pre.len() + pos) == (
            token::next_lexeme(s, pos).0,
            pre.len() + token::next_lexeme(s, pos).1,
        ),
{
    let w = pre + s + post;
    white_space_in_context(pre, s, post, pos);
    let p = token::skip_white(s, pos);
    assert(p < s.len());
    assert(w[pre.len() + p as int] == s[p as int]);
    let c = s[p as int];
    if c == '(' || c == ')' {
    } else if c == '"' || c == '\'' {
        quotes_in_context(pre, s, post, p + 1, c);
    } else {
        name_in_context(pre, s, post, p);
        let e = token::name_end(s, p);
        assert(w.subrange(pre.len() + p as int, pre.len() + e as int) =~= s.subrange(
            p as int,
            e as int,
        ));
    }
}

/// A text whose last token is a closing parenthesis consists of the same tokens
/// where a closing parenthesis is put after it.
proof fn tokens_in_context(pre: Seq<char>, s: Seq<char>, pos: nat)
    requires
        pos <= s.len(),
        is_kind(token::lexemes(s, pos).last(), ExprTokenType::End),
        token::lexemes(s, pos).len() > 1 ==> is_kind(
            token::lexemes(s, pos).drop_last().last(),
            ExprTokenType::RParen,
        ),
    ensures
        ({
            let ts = token::lexemes(pre + s + seq![')'], pre.len() + pos);
            &&& ts.len() == token::lexemes(s, pos).len() + 1
            &&& ts.take(token::lexemes(s, pos).len() - 1) == token::lexemes(s, pos).drop_last()
            &&& is_kind(ts[ts.len() - 2], ExprTokenType::RParen)
            &&& is_kind(ts.last(), ExprTokenType::End)
        }),
    decreases s.len() - pos,
{
    let post = seq![')'];
    let w = pre + s + post;
    let at = pre.len() + pos;
    let ls = token::lexemes(s, pos);
    let (l, next) = token::next_lexeme(s, pos);
    token::lexing_progresses(s, pos);
    lexemes_are_a_stream(s, pos);
    white_space_in_context(pre, s, post, pos);
    if token::is_last(l) {
        assert(ls =~= seq![l]);
        assert(ls.last() == l);
        let p = token::skip_white(s, pos);
        assert(p == s.len());
        assert(w[pre.len() + p as int] == ')');
        assert(token::skip_white(w, w.len()) == w.len());
        let ts = token::lexemes(w, at);
        let end = token::lexemes(w, w.len());
        assert(end.len() == 1);
        assert(ts =~= seq![token::next_lexeme(w, at).0] + end);
        assert(ts.take(0) =~= ls.drop_last());
    } else {
        let rest = token::lexemes(s, next);
        assert(ls == seq![l] + rest);
        lexemes_are_a_stream(s, next);
        assert(ls.last() == rest.last());
        let (l2, next2) = token::next_lexeme(s, next);
        token::lexing_progresses(s, next);
        if token::is_last(l2) {
            assert(rest =~= seq![l2]);
            assert(ls.drop_last() =~= seq![l]);
            assert(ls.drop_last().last() == l);
        } else {
            let rest2 = token::lexemes(s, next2);
            assert(rest == seq![l2] + rest2);
            lexemes_are_a_stream(s, next2);
            assert(ls.drop_last().last() == rest.drop_last().last());
            assert(next < s.len());
        }
        token_in_context(pre, s, post, pos);
        tokens_in_context(pre, s, next);
        let ts = token::lexemes(w, at);
        let tail = token::lexemes(w, pre.len() + next);
        assert(ts =~= seq![l] + tail);
        assert(ts.take(ls.len() - 1) =~= seq![l] + tail.take(rest.len() - 1));
        assert(ls.drop_last() =~= seq![l] + rest.drop_last());
        assert(ts[ts.len() - 2] == tail[tail.len() - 2]);
    }
}

/// Every expression ends with a closing parenthesis.
proof fn primary_ends_with_parenthesis(ts: Seq<Lexeme>, e: Expr)
    requires
        derives_primary(ts, e),
    ensures
        ts.len() > 0,
        is_kind(ts.last(), ExprTokenType::RParen),
{
}

proof fn not_ends_with_parenthesis(ts: Seq<Lexeme>, e: Expr)
    requires
        derives_not(ts, e),
    ensures
        ts.len() > 0,
        is_kind(ts.last(), ExprTokenType::RParen),
    decreases ts.len(),
{
    if derives_primary(ts, e) {
        primary_ends_with_parenthesis(ts, e);
    } else {
        not_ends_with_parenthesis(ts.skip(1), *e->Not_0);
        assert(ts.skip(1).last() == ts.last());
    }
}

proof fn and_ends_with_parenthesis(ts: Seq<Lexeme>, e: Expr)
    requires
        derives_and(ts, e),
    ensures
        ts.len() > 0,
        is_kind(ts.last(), ExprTokenType::RParen),
{
    if derives_not(ts, e) {
        not_ends_with_parenthesis(ts, e);
    } else {
        let k = choose|k: int|
            #![trigger ts[k]]
            {
                &&& 0 <= k < ts.len()
                &&& is_word(ts[k], "and"@)
                &&& e matches Expr::And(l, r)
                &&& derives_and(ts.take(k), *l)
                &&& derives_not(ts.skip(k + 1), *r)
            };
        not_ends_with_parenthesis(ts.skip(k + 1), *e->And_1);
        assert(ts.skip(k + 1).last() == ts.last());
    }
}

proof fn or_ends_with_parenthesis(ts: Seq<Lexeme>, e: Expr)
    requires
        derives_or(ts, e),
    ensures
        ts.len() > 0,
        is_kind(ts.last(), ExprTokenType::RParen),
{
    if derives_and(ts, e) {
        and_ends_with_parenthesis(ts, e);
    } else {
        let k = choose|k: int|
            #![trigger ts[k]]
            {
                &&& 0 <= k < ts.len()
                &&& is_word(ts[k], "or"@)
                &&& e matches Expr::Or(l, r)
                &&& derives_or(ts.take(k), *l)
                &&& derives_and(ts.skip(k + 1), *r)
            };
        and_ends_with_parenthesis(ts.skip(k + 1), *e->Or_1);
        assert(ts.skip(k + 1).last() == ts.last());
    }
}

/// One more pair of parentheses around an expression changes nothing: the text still
/// parses, and what it parses to selects the same paths.
pub proof fn parentheses_change_nothing(src: Seq<char>, path: Seq<char>)
    requires
        parser::parsed_text(src) is Ok,
    ensures
        ({
            let wrapped = parser::parsed_text(seq!['('] + src + seq![')']);
            &&& wrapped == parser::parsed_text(src)
            &&& expr::selects(wrapped->Ok_0, path) == expr::selects(
                parser::parsed_text(src)->Ok_0,
                path,
            )
        }),
{
    let e = parser::parsed_text(src)->Ok_0;
    let pre = seq!['('];
    let w = pre + src + seq![')'];
    let ls = token::lexemes(src, 0);
    parser_accepts_the_grammar(src, e);
    or_ends_with_parenthesis(ls.drop_last(), e);
    tokens_in_context(pre, src, 0);
    let ts = token::lexemes(w, 0);
    let tail = token::lexemes(w, 1);
    assert(w[0] == '(');
    let (l, next) = token::next_lexeme(w, 0);
    assert(token::skip_white(w, 0) == 0);
    assert(next == 1 && is_kind(l, ExprTokenType::LParen));
    assert(ts =~= seq![l] + tail);
    let inner = ts.drop_last();
    assert(inner.subrange(1, inner.len() - 1) =~= tail.take(ls.len() - 1));
    assert(inner[0] == l);
    assert(inner.last() == tail[tail.len() - 2]);
    assert(ts.last() == tail.last());
    assert(derives_primary(inner, e));
    assert(derives_not(inner, e));
    assert(derives_and(inner, e));
    parser_accepts_the_grammar(w, e);
}

} // verus!
