use shell_cmd::filter::{
    matches_filters, parse_size_filter, parse_time_filter, size_fits, CmpOp, EntryMeta,
    FilterError, SizeFilter, TimeFilter,
};
use shell_cmd::options::Options;

fn no_options() -> Options {
    Options {
        dry_run: false,
        verbose: false,
        hidden: false,
        max_depth: -1,
        size_filter: SizeFilter { active: false, op: CmpOp::Eq, bytes: 0 },
        mtime_filter: TimeFilter { active: false, op: CmpOp::Eq, days: 0 },
        perm_filter: String::new(),
        user_filter: String::new(),
        group_filter: String::new(),
        type_filter: '\0',
        exclude_pattern: String::new(),
        stop_on_error: false,
        confirm: false,
        jobs: 1,
        shell: "/bin/bash".to_string(),
        shell_name: "bash".to_string(),
        collect_all: false,
        glob: false,
        regex_match: false,
        glob_exclude: false,
        expr_str: String::new(),
    }
}

fn file_meta() -> EntryMeta {
    EntryMeta {
        is_file: true,
        is_dir: false,
        is_symlink: false,
        size: 4096,
        age_secs: Some(3 * 86400 + 5),
        mode: 0o100755,
        owner: Some("root".to_string()),
        group: None,
    }
}

#[test]
fn documented_sizes() {
    let f = parse_size_filter("+10M").unwrap();
    assert_eq!(f, SizeFilter { active: true, op: CmpOp::Gt, bytes: 10 * 1024 * 1024 });
    let f = parse_size_filter("-1K").unwrap();
    assert_eq!(f, SizeFilter { active: true, op: CmpOp::Lt, bytes: 1024 });
    let f = parse_size_filter("4096").unwrap();
    assert_eq!(f, SizeFilter { active: true, op: CmpOp::Eq, bytes: 4096 });
    let f = parse_size_filter("2g").unwrap();
    assert_eq!(f, SizeFilter { active: true, op: CmpOp::Eq, bytes: 2 * 1024 * 1024 * 1024 });
}

#[test]
fn second_sign_of_a_size() {
    assert_eq!(parse_size_filter("++5").unwrap().bytes, 5);
    assert_eq!(parse_size_filter("-+5k").unwrap().bytes, 5120);
}

#[test]
fn wrong_sizes_are_refused() {
    for s in ["", "+", "K", "abc", "1.5M", "-1T", "--1"] {
        match parse_size_filter(s) {
            Err(FilterError::InvalidSize { text }) => assert_eq!(text, s),
            _ => panic!("accepted {}", s),
        }
    }
    assert_eq!(parse_size_filter("x").unwrap_err().message(), "invalid size value 'x'");
}

#[test]
fn huge_sizes_do_not_fit() {
    assert!(size_fits("18446744073709551615"));
    assert!(!size_fits("18446744073709551615K"));
    assert!(size_fits("17179869183G"));
    assert!(!size_fits("17179869184G"));
    assert!(size_fits("nonsense"));
}

#[test]
fn documented_times() {
    assert_eq!(parse_time_filter("+7").unwrap(), TimeFilter { active: true, op: CmpOp::Gt, days: 7 });
    assert_eq!(parse_time_filter("-1").unwrap(), TimeFilter { active: true, op: CmpOp::Lt, days: 1 });
    assert_eq!(parse_time_filter("3").unwrap(), TimeFilter { active: true, op: CmpOp::Eq, days: 3 });
    assert_eq!(parse_time_filter("--3").unwrap(), TimeFilter { active: true, op: CmpOp::Lt, days: -3 });
    assert_eq!(parse_time_filter("x").unwrap_err().message(), "invalid time value 'x'");
    assert!(matches!(parse_time_filter(""), Err(FilterError::InvalidTime { .. })));
}

#[test]
fn no_filter_lets_everything_pass() {
    let mut m = file_meta();
    assert!(matches_filters(&m, &no_options()).unwrap());
    m.is_file = false;
    m.age_secs = None;
    m.owner = None;
    assert!(matches_filters(&m, &no_options()).unwrap());
}

#[test]
fn type_filter_tests_the_type() {
    let m = file_meta();
    let mut o = no_options();
    o.type_filter = 'f';
    assert!(matches_filters(&m, &o).unwrap());
    o.type_filter = 'd';
    assert!(!matches_filters(&m, &o).unwrap());
    o.type_filter = 'l';
    assert!(!matches_filters(&m, &o).unwrap());
}

#[test]
fn size_filter_compares_and_is_for_files() {
    let mut m = file_meta();
    let mut o = no_options();
    for (op, bytes, expected) in [
        (CmpOp::Eq, 4096, true),
        (CmpOp::Eq, 4095, false),
        (CmpOp::Gt, 4095, true),
        (CmpOp::Gt, 4096, false),
        (CmpOp::Lt, 4097, true),
        (CmpOp::Lt, 4096, false),
    ] {
        o.size_filter = SizeFilter { active: true, op, bytes };
        assert_eq!(matches_filters(&m, &o).unwrap(), expected);
    }
    m.is_file = false;
    m.is_dir = true;
    o.size_filter = SizeFilter { active: true, op: CmpOp::Gt, bytes: 0 };
    assert!(!matches_filters(&m, &o).unwrap());
}

#[test]
fn time_filter_counts_whole_days() {
    let mut m = file_meta();
    let mut o = no_options();
    for (op, days, expected) in [
        (CmpOp::Eq, 3, true),
        (CmpOp::Gt, 3, false),
        (CmpOp::Gt, 2, true),
        (CmpOp::Lt, 4, true),
        (CmpOp::Lt, 3, false),
        (CmpOp::Gt, -1, true),
    ] {
        o.mtime_filter = TimeFilter { active: true, op, days };
        assert_eq!(matches_filters(&m, &o).unwrap(), expected);
    }
    m.age_secs = None;
    o.mtime_filter = TimeFilter { active: true, op: CmpOp::Gt, days: -1 };
    assert!(!matches_filters(&m, &o).unwrap());
}

#[test]
fn future_times_have_negative_ages() {
    let mut m = file_meta();
    let mut o = no_options();
    for (secs, op, days, expected) in [
        (-3600, CmpOp::Lt, 1, true),
        (-3600, CmpOp::Eq, 0, true),
        (-86399, CmpOp::Eq, 0, true),
        (-86400, CmpOp::Eq, -1, true),
        (-2 * 86400 - 1, CmpOp::Eq, -2, true),
        (-86400, CmpOp::Gt, 0, false),
        (i128::MIN, CmpOp::Lt, 0, true),
        (i128::MAX, CmpOp::Gt, i64::MAX, true),
    ] {
        m.age_secs = Some(secs);
        o.mtime_filter = TimeFilter { active: true, op, days };
        assert_eq!(matches_filters(&m, &o).unwrap(), expected);
    }
}

#[test]
fn permission_filter_compares_octal_bits() {
    let m = file_meta();
    let mut o = no_options();
    o.perm_filter = "755".to_string();
    assert!(matches_filters(&m, &o).unwrap());
    o.perm_filter = "0755".to_string();
    assert!(matches_filters(&m, &o).unwrap());
    o.perm_filter = "644".to_string();
    assert!(!matches_filters(&m, &o).unwrap());
}

#[test]
fn wrong_permission_filter_is_an_error() {
    let m = file_meta();
    let mut o = no_options();
    o.perm_filter = "rwx".to_string();
    assert_eq!(matches_filters(&m, &o).unwrap_err().message(), "invalid permission filter 'rwx'");
    o.type_filter = 'd';
    assert!(!matches_filters(&m, &o).unwrap());
}

#[test]
fn owner_and_group_are_compared_by_name() {
    let mut m = file_meta();
    let mut o = no_options();
    o.user_filter = "root".to_string();
    assert!(matches_filters(&m, &o).unwrap());
    o.user_filter = "nobody".to_string();
    assert!(!matches_filters(&m, &o).unwrap());
    o.user_filter = String::new();
    o.group_filter = "www-data".to_string();
    assert!(!matches_filters(&m, &o).unwrap());
    m.group = Some("www-data".to_string());
    assert!(matches_filters(&m, &o).unwrap());
}
