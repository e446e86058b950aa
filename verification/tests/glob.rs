use shell_cmd::glob::glob_to_regex;

#[test]
fn documented_globs() {
    assert_eq!(glob_to_regex("*.cpp"), "^.*\\.cpp$");
    assert_eq!(glob_to_regex("test?"), "^test.$");
    assert_eq!(glob_to_regex("*cmake"), "^.*cmake$");
    assert_eq!(glob_to_regex("[!a-z]*"), "^[^a-z].*$");
}

#[test]
fn empty_glob_is_anchored() {
    assert_eq!(glob_to_regex(""), "^$");
}

#[test]
fn plain_text_is_kept() {
    assert_eq!(glob_to_regex("Makefile"), "^Makefile$");
    assert_eq!(glob_to_regex("a b_c-d"), "^a b_c-d$");
}

#[test]
fn special_characters_get_a_backslash() {
    assert_eq!(glob_to_regex("a+b(c)"), "^a\\+b\\(c\\)$");
    assert_eq!(glob_to_regex("{x}|^$"), "^\\{x\\}\\|\\^\\$$");
}

#[test]
fn classes_are_passed_through() {
    assert_eq!(glob_to_regex("[abc].txt"), "^[abc]\\.txt$");
    assert_eq!(glob_to_regex("[^abc]"), "^[^abc]$");
}

#[test]
fn translated_globs_match_as_globs() {
    let re = regex::Regex::new(&glob_to_regex("*.rs")).unwrap();
    assert!(re.is_match("./src/main.rs"));
    assert!(!re.is_match("./src/main_rs"));
    assert!(!re.is_match("./src/main.rs.bak"));
}

#[test]
fn unclosed_bracket_is_escaped() {
    assert_eq!(glob_to_regex("[abc"), "^\\[abc$");
    assert_eq!(glob_to_regex("["), "^\\[$");
    assert_eq!(glob_to_regex("[a*?"), "^\\[a.*.$");
    assert_eq!(glob_to_regex("[ab][c"), "^[ab]\\[c$");
    let re = regex::Regex::new(&glob_to_regex("[abc")).unwrap();
    assert!(re.is_match("[abc"));
    assert!(!re.is_match("[abcd"));
}

#[test]
fn class_needs_a_character() {
    assert_eq!(glob_to_regex("[]"), "^\\[]$");
    assert_eq!(glob_to_regex("[!]"), "^\\[!]$");
    assert_eq!(glob_to_regex("[]a]*"), "^[]a].*$");
    assert_eq!(glob_to_regex("[!]a]"), "^[^]a]$");
    for g in ["[]", "[!]", "[]a]*", "[!]a]", "a]b"] {
        assert!(regex::Regex::new(&glob_to_regex(g)).is_ok());
    }
}

#[test]
fn backslashes_are_doubled() {
    assert_eq!(glob_to_regex("a\\b"), "^a\\\\b$");
    assert_eq!(glob_to_regex("[\\d]"), "^[\\\\d]$");
}
