use shell_cmd::expr::{ExprNode, ExprType};
use shell_cmd::parser::{parse_expr, predicate_node, ExprError, ExprParser};
use shell_cmd::token::{BadChar, ExprTokenType, ExprTokenizer};

fn accepts(src: &str, path: &str) -> bool {
    match parse_expr(src) {
        Ok(node) => node.evaluate(path),
        Err(e) => panic!("{}", e.message()),
    }
}

fn message_of(src: &str) -> String {
    match parse_expr(src) {
        Ok(_) => panic!("parsed: {}", src),
        Err(e) => e.message(),
    }
}

fn tokens_of(src: &str) -> Vec<(ExprTokenType, String)> {
    let mut t = ExprTokenizer::new(src);
    let mut found = Vec::new();
    loop {
        let token = t.next_token().unwrap();
        let last = token.token_type == ExprTokenType::End;
        found.push((token.token_type, token.value));
        if last {
            return found;
        }
    }
}

#[test]
fn tokens_of_an_expression() {
    assert_eq!(
        tokens_of(" glob( \"*.rs\" ) "),
        vec![
            (ExprTokenType::Ident, "glob".to_string()),
            (ExprTokenType::LParen, "(".to_string()),
            (ExprTokenType::StringLit, "*.rs".to_string()),
            (ExprTokenType::RParen, ")".to_string()),
            (ExprTokenType::End, "".to_string()),
        ]
    );
}

#[test]
fn names_hold_letters_digits_and_underscores() {
    assert_eq!(
        tokens_of("regex_match2 \u{e9}t\u{e9}"),
        vec![
            (ExprTokenType::Ident, "regex_match2".to_string()),
            (ExprTokenType::Ident, "\u{e9}t\u{e9}".to_string()),
            (ExprTokenType::End, "".to_string()),
        ]
    );
}

#[test]
fn white_space_is_skipped() {
    let mut t = ExprTokenizer::new(" \t\u{2003}x");
    t.skip_ws();
    assert_eq!(t.pos, 3);
    let mut u = ExprTokenizer::new("\u{200b}x");
    u.skip_ws();
    assert_eq!(u.pos, 0);
}

#[test]
fn bad_characters_are_reported_with_their_place() {
    let mut t = ExprTokenizer::new("  &x");
    assert_eq!(t.next_token().unwrap_err(), BadChar { c: '&', position: 2 });
}

#[test]
fn documented_expression() {
    let src = "(glob(\"*.cpp\") or glob(\"*.hpp\")) and not regex(\"build\")";
    assert!(accepts(src, "./src/main.cpp"));
    assert!(accepts(src, "./src/main.hpp"));
    assert!(!accepts(src, "./build/main.cpp"));
    assert!(!accepts(src, "./src/main.rs"));
}

#[test]
fn and_binds_tighter_than_or() {
    let src = "regex(\"a\") or regex(\"b\") and regex(\"c\")";
    assert!(accepts(src, "a"));
    assert!(!accepts(src, "b"));
    assert!(accepts(src, "bc"));
    let grouped = "(regex(\"a\") or regex(\"b\")) and regex(\"c\")";
    assert!(!accepts(grouped, "a"));
    assert!(accepts(grouped, "ac"));
}

#[test]
fn not_applies_to_one_operand() {
    assert!(accepts("not regex(\"a\") and regex(\"b\")", "b"));
    assert!(!accepts("not regex(\"a\") and regex(\"b\")", "ab"));
    assert!(accepts("not not regex(\"a\")", "a"));
}

#[test]
fn search_and_whole_match_differ() {
    assert!(accepts("regex(\"b\")", "abc"));
    assert!(!accepts("regex_match(\"b\")", "abc"));
    assert!(accepts("regex_match(\"a|abc\")", "abc"));
    assert!(accepts("glob(\"a*\")", "abc"));
    assert!(!accepts("glob(\"b*\")", "abc"));
}

#[test]
fn parsed_nodes_have_their_kinds() {
    let node = parse_expr("glob(\"*\") and not regex_match(\"x\")").ok().unwrap();
    assert_eq!(node.node_type, ExprType::And);
    assert_eq!(node.left.as_ref().unwrap().node_type, ExprType::Glob);
    let right = node.right.as_ref().unwrap();
    assert_eq!(right.node_type, ExprType::Not);
    assert_eq!(right.left.as_ref().unwrap().node_type, ExprType::RegexMatch);
    assert!(right.right.is_none());
}

#[test]
fn node_without_parts_accepts_nothing() {
    let node = ExprNode { node_type: ExprType::And, compiled: None, left: None, right: None };
    assert!(!node.evaluate("x"));
    let negated = ExprNode { node_type: ExprType::Not, compiled: None, left: None, right: None };
    assert!(negated.evaluate("x"));
}

#[test]
fn faults_have_messages() {
    assert_eq!(message_of("glob(\"*\") & x"), "unexpected character '&' in expression at position 10");
    assert_eq!(message_of("foo(\"x\")"), "unknown function 'foo' in expression");
    assert_eq!(message_of("glob(x)"), "expected quoted string as function argument");
    assert_eq!(message_of("glob(\"x\") glob(\"y\")"), "unexpected content after expression");
}

#[test]
fn invalid_pattern_is_named_as_written() {
    let m = message_of("regex(\"(\")");
    assert!(m.starts_with("invalid regex '(' in expression: "));
    assert!(m.len() > "invalid regex '(' in expression: ".len());
}

#[test]
fn refused_pattern_gives_the_reason() {
    let r = predicate_node(ExprType::Glob, "x[".to_string(), Err("why".to_string()));
    match r {
        Err(ExprError::InvalidRegex { pattern, message }) => {
            assert_eq!(pattern, "x[");
            assert_eq!(message, "why");
        }
        _ => panic!("expected an error"),
    }
}

#[test]
fn parser_moves_token_by_token() {
    let mut p = ExprParser::new("( x").ok().unwrap();
    assert!(p.expect(ExprTokenType::LParen, "'('").is_ok());
    assert!(p.expect(ExprTokenType::RParen, "')'").is_err());
    assert!(p.advance().is_ok());
    assert!(p.expect(ExprTokenType::End, "end").is_ok());
}

#[test]
fn missing_parenthesis_is_an_error() {
    match parse_expr("(glob(\"x\")") {
        Err(ExprError::Expected { what, .. }) => assert_eq!(what, "')'"),
        _ => panic!("expected an error"),
    }
    assert!(matches!(parse_expr(")"), Err(ExprError::UnexpectedToken { .. })));
    assert!(matches!(parse_expr("glob(\"x\") x"), Err(ExprError::TrailingContent)));
    assert_eq!(message_of("glob(1)"), "unexpected character '1' in expression at position 5");
    assert_eq!(message_of("glob \"x\""), "expected '(' after function name in expression, got 'x'");
    assert_eq!(message_of("glob(\"x\""), "expected ')' in expression, got 'end'");
    assert_eq!(message_of("not"), "unexpected token 'end' in expression");
    assert_eq!(message_of(")"), "unexpected token ')' in expression");
}

#[test]
fn quoted_strings_know_both_quotes_and_escapes() {
    let quoted = |src: &str| tokens_of(src)[0].1.clone();
    assert_eq!(quoted("'a\"b'"), "a\"b");
    assert_eq!(quoted("\"a\\\"b\""), "a\"b");
    assert_eq!(quoted("\"a\\\\.b\""), "a\\.b");
    assert_eq!(quoted("\"open"), "open");
    assert_eq!(quoted("\"tail\\"), "tail\\");
}

#[test]
fn regex_search_is_another_name() {
    assert!(accepts("regex_search('b')", "abc"));
    assert_eq!(parse_expr("regex_search('b')").ok().unwrap().node_type, ExprType::RegexSearch);
}

#[test]
fn parentheses_around_an_expression_change_nothing() {
    for src in ["glob('*.rs')", " regex('a') or not regex('b') and regex('c') ", "((regex('a')))"] {
        let wrapped = format!("({})", src);
        for path in ["", "a", "b", "c", "bc", "x.rs"] {
            assert_eq!(accepts(src, path), accepts(&wrapped, path));
        }
    }
}

#[test]
fn incomplete_expressions_are_refused() {
    for src in ["", "()", "glob('a') and", "(glob('a')", "glob('a') AND glob('b')"] {
        assert!(parse_expr(src).is_err());
    }
}
