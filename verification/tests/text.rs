use shell_cmd::text::{
    contains_char, decimal_text, parse_signed, parse_unsigned, replace_all,
    same_text, signed_decimal_text, string_of, trim,
};

#[test]
fn replace_all_replaces_each_occurrence() {
    assert_eq!(replace_all("a-b-c", "-", "+"), "a+b+c");
    assert_eq!(replace_all("aaaa", "aa", "b"), "bb");
    assert_eq!(replace_all("aaa", "aa", "b"), "ba");
    assert_eq!(replace_all("", "x", "y"), "");
    assert_eq!(replace_all("%1 and %1", "%1", "f.txt"), "f.txt and f.txt");
}

#[test]
fn replace_all_agrees_with_std() {
    let texts = ["", "a", "abcabc", "aaaaaa", "x%0y%0", "\u{e9}t\u{e9}"];
    let pats = ["a", "aa", "abc", "%0", "\u{e9}", "", "zz"];
    let tos = ["", "b", "aa", "long value"];
    for t in texts {
        for p in pats {
            for to in tos {
                assert_eq!(replace_all(t, p, to), t.replace(p, to));
            }
        }
    }
}

#[test]
fn replacing_absent_text_changes_nothing() {
    assert_eq!(replace_all("echo hello", "%9", "x"), "echo hello");
}

#[test]
fn replacing_text_by_itself_changes_nothing() {
    assert_eq!(replace_all("a%1b%1", "%1", "%1"), "a%1b%1");
}

#[test]
fn characters_are_found() {
    assert!(contains_char("a b", ' '));
    assert!(!contains_char("ab", ' '));
    assert!(!contains_char("", ' '));
}

#[test]
fn texts_compare_by_characters() {
    assert!(same_text("abc", "abc"));
    assert!(!same_text("abc", "abd"));
    assert!(!same_text("abc", "ab"));
}

#[test]
fn trim_removes_white_space_at_both_ends() {
    for s in ["", "  ", "y\n", " \t y x \r\n", "\u{2003}y\u{a0}", "\u{85}a\u{200b}"] {
        assert_eq!(trim(s), s.trim());
    }
}

#[test]
fn decimal_numbers_are_written_and_read() {
    assert_eq!(decimal_text(0), "0");
    assert_eq!(decimal_text(10), "10");
    assert_eq!(decimal_text(u64::MAX), "18446744073709551615");
    assert_eq!(signed_decimal_text(-1), "-1");
    assert_eq!(signed_decimal_text(i32::MIN), "-2147483648");
    for n in [0u64, 7, 42, 1024, u64::MAX] {
        assert_eq!(parse_unsigned(&decimal_text(n), 10, u64::MAX), Some(n));
    }
}

#[test]
fn unsigned_numbers_are_read_as_std_reads_them() {
    for s in ["", "+", "-1", "+5", "007", "18446744073709551615", "18446744073709551616", "1a", " 1"] {
        assert_eq!(parse_unsigned(s, 10, u64::MAX), s.parse::<u64>().ok());
    }
    for s in ["755", "0755", "+7", "8", "37777777777", "40000000000", "", "-7"] {
        assert_eq!(
            parse_unsigned(s, 8, u32::MAX as u64),
            u32::from_str_radix(s, 8).ok().map(|n| n as u64)
        );
    }
}

#[test]
fn signed_numbers_are_read_as_std_reads_them() {
    for s in [
        "", "-", "+", "0", "-0", "+3", "-3", "--3", "9223372036854775807",
        "9223372036854775808", "-9223372036854775808", "-9223372036854775809", "3d",
    ] {
        assert_eq!(parse_signed(s), s.parse::<i64>().ok());
    }
}

#[test]
fn part_of_characters_becomes_a_string() {
    let v: Vec<char> = "hello".chars().collect();
    assert_eq!(string_of(&v, 1, 3), "el");
}
