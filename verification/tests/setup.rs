use shell_cmd::filter::CmpOp;
use shell_cmd::pattern::anchor;
use shell_cmd::setup::{
    check_extra_args, check_sizes, excluded_pattern, options, search_pattern, setup, shell_base,
    source_text, Cli, Plan, SetupError,
};

fn cli(args: &[&str]) -> Cli {
    Cli {
        dry_run: false,
        verbose: false,
        all: false,
        depth: None,
        size: None,
        mtime: None,
        perm: None,
        user: None,
        group: None,
        type_filter: None,
        exclude: None,
        stop_on_error: false,
        confirm: false,
        list_all: false,
        jobs: 1,
        shell: "/bin/bash".to_string(),
        args: args.iter().map(|s| s.to_string()).collect(),
        glob: false,
        regex_match: false,
        glob_exclude: false,
        expr: None,
    }
}

fn text(s: &str) -> Option<String> {
    Some(s.to_string())
}

fn refusal(c: &Cli) -> String {
    match setup(c) {
        Ok(_) => panic!("accepted"),
        Err(e) => e.message(),
    }
}

fn plan(c: &Cli) -> Plan {
    match setup(c) {
        Ok(p) => p,
        Err(e) => panic!("{}", e.message()),
    }
}

#[test]
fn options_that_were_not_given() {
    let o = options(&cli(&[])).ok().unwrap();
    assert!(!o.dry_run && !o.verbose && !o.hidden && !o.stop_on_error && !o.confirm);
    assert!(!o.collect_all && !o.glob && !o.regex_match && !o.glob_exclude);
    assert_eq!(o.max_depth, -1);
    assert!(!o.size_filter.active);
    assert!(!o.mtime_filter.active);
    assert_eq!(o.type_filter, '\0');
    assert_eq!(o.perm_filter, "");
    assert_eq!(o.user_filter, "");
    assert_eq!(o.group_filter, "");
    assert_eq!(o.exclude_pattern, "");
    assert_eq!(o.expr_str, "");
    assert_eq!(o.jobs, 1);
    assert_eq!(o.shell, "/bin/bash");
    assert_eq!(o.shell_name, "bash");
}

#[test]
fn options_that_were_given() {
    let mut c = cli(&[]);
    c.dry_run = true;
    c.all = true;
    c.depth = Some(0);
    c.size = text("+10M");
    c.mtime = text("-1");
    c.perm = text("755");
    c.user = text("root");
    c.group = text("wheel");
    c.type_filter = Some('l');
    c.exclude = text("target");
    c.list_all = true;
    c.jobs = 4;
    c.shell = "zsh".to_string();
    let o = options(&c).ok().unwrap();
    assert!(o.dry_run && o.hidden && o.collect_all && !o.verbose);
    assert_eq!(o.max_depth, 0);
    assert_eq!(o.size_filter.op, CmpOp::Gt);
    assert_eq!(o.size_filter.bytes, 10485760);
    assert_eq!(o.mtime_filter.op, CmpOp::Lt);
    assert_eq!(o.mtime_filter.days, 1);
    assert_eq!(o.perm_filter, "755");
    assert_eq!(o.user_filter, "root");
    assert_eq!(o.group_filter, "wheel");
    assert_eq!(o.type_filter, 'l');
    assert_eq!(o.exclude_pattern, "target");
    assert_eq!(o.jobs, 4);
    assert_eq!(o.shell_name, "zsh");
}

#[test]
fn at_least_one_job() {
    for (jobs, expected) in [(-3, 1), (0, 1), (1, 1), (2, 2)] {
        let mut c = cli(&[]);
        c.jobs = jobs;
        assert_eq!(options(&c).ok().unwrap().jobs, expected);
    }
}

#[test]
fn shell_is_known_by_its_last_part() {
    assert_eq!(shell_base("/usr/bin/zsh"), "zsh");
    assert_eq!(shell_base("sh"), "sh");
    assert_eq!(shell_base("/bin/"), "");
    assert_eq!(shell_base(""), "");
}

#[test]
fn unknown_type_is_refused_first() {
    let mut c = cli(&[]);
    c.type_filter = Some('x');
    c.size = text("nonsense");
    assert_eq!(refusal(&c), "invalid type 'x'. Use f (file), d (directory), or l (symlink).");
}

#[test]
fn filters_are_refused_in_order() {
    let mut c = cli(&[]);
    c.size = text("ten");
    c.mtime = text("old");
    assert_eq!(refusal(&c), "invalid size value 'ten'");
    c.size = None;
    assert_eq!(refusal(&c), "invalid time value 'old'");
}

#[test]
fn sizes_that_do_not_fit_are_noticed() {
    let mut c = cli(&[]);
    assert!(check_sizes(&c));
    c.size = text("10G");
    assert!(check_sizes(&c));
    c.size = text("9999999999999999999K");
    assert!(!check_sizes(&c));
    c.type_filter = Some('x');
    assert!(check_sizes(&c));
}

#[test]
fn expression_is_refused_before_the_count() {
    let mut c = cli(&[]);
    c.expr = text("foo('x')");
    assert_eq!(refusal(&c), "unknown function 'foo' in expression");
}

#[test]
fn too_few_arguments() {
    let e = setup(&cli(&[".", "cat %1"])).err().unwrap();
    assert_eq!(e.message(), "at least three positional arguments required.");
    assert!(e.shows_help());
    let mut c = cli(&["."]);
    c.expr = text("glob('*')");
    let e = setup(&c).err().unwrap();
    assert_eq!(e.message(), "at least two positional arguments required when --expr is used.");
    assert!(e.shows_help());
    assert!(!SetupError::InvalidType { c: 'x' }.shows_help());
}

#[test]
fn wrong_patterns_are_refused() {
    let m = refusal(&cli(&[".", "cat %1", "("]));
    assert!(m.starts_with("invalid regex '(': "));
    assert!(m.len() > "invalid regex '(': ".len());
    let mut c = cli(&[".", "cat %1", "x"]);
    c.exclude = text("[");
    assert!(refusal(&c).starts_with("invalid exclude regex '[': "));
    c.args[2] = ")".to_string();
    assert!(refusal(&c).starts_with("invalid regex ')': "));
}

#[test]
fn refused_patterns_give_their_reason() {
    let e = search_pattern("(".to_string(), Err("why".to_string())).err().unwrap();
    assert_eq!(e.message(), "invalid regex '(': why");
    let e = excluded_pattern("[".to_string(), Err("why".to_string())).err().unwrap();
    assert_eq!(e.message(), "invalid exclude regex '[': why");
}

#[test]
fn sources_of_patterns() {
    assert_eq!(source_text("*.rs", true, false), "^.*\\.rs$");
    assert_eq!(source_text("a|b", false, true), "^(?:a|b)$");
    assert_eq!(source_text("*.rs", true, true), "^(?:^.*\\.rs$)$");
    assert_eq!(source_text("a|b", false, false), "a|b");
    assert_eq!(anchor("x"), "^(?:x)$");
}

#[test]
fn every_extra_argument_needs_its_placeholder() {
    assert_eq!(
        refusal(&cli(&[".", "cat %1", "x", "extra"])),
        "command has no placeholder %2 for extra argument \"extra\""
    );
    assert_eq!(
        refusal(&cli(&[".", "cp %1 %2", "x", "a", "b"])),
        "command has no placeholder %3 for extra argument \"b\""
    );
    let mut c = cli(&[".", "cat %0 %1", "x", "extra"]);
    c.list_all = true;
    assert_eq!(refusal(&c), "command has no placeholder %2 for extra argument \"extra\"");
}

#[test]
fn arguments_of_the_command() {
    let p = plan(&cli(&["./src", "cp %1 %2 %3", "x", "a", "b"]));
    assert_eq!(p.path, "./src");
    assert_eq!(p.command, "cp %1 %2 %3");
    assert_eq!(p.args, vec!["filename", "a", "b"]);
    let mut c = cli(&[".", "tar %2 %0", "x", "a"]);
    c.list_all = true;
    assert_eq!(plan(&c).args, vec!["filename", "a"]);
    assert_eq!(plan(&c).command_for_all("f g"), "tar a f g");
    let args: Vec<String> = vec![".".to_string(), "cat".to_string()];
    assert_eq!(check_extra_args(&args, false).ok().unwrap(), vec!["filename"]);
    assert_eq!(check_extra_args(&args, true).ok().unwrap(), vec!["filename"]);
}

#[test]
fn command_for_a_match_and_for_all() {
    let mut p = plan(&cli(&[".", "cp %1 %2/%0", "x", "/backup"]));
    assert_eq!(p.command_for("./a b.txt".to_string()), "cp \"./a b.txt\" /backup/a b.txt");
    assert_eq!(p.command_for("./c.txt".to_string()), "cp ./c.txt /backup/c.txt");
    let mut c = cli(&[".", "cat %0", "x"]);
    c.list_all = true;
    assert_eq!(plan(&c).command_for_all("a b c"), "cat a b c");
}

#[test]
fn expression_makes_the_pattern_optional() {
    let mut c = cli(&[".", "cat %1"]);
    c.expr = text("glob('*.rs')");
    let p = plan(&c);
    assert!(p.search.expr.is_some());
    assert!(p.search.exclude.is_none());
    assert_eq!(p.args, vec!["filename"]);
    c.expr = text("");
    assert_eq!(refusal(&c), "at least three positional arguments required.");
}

#[test]
fn longer_number_is_no_placeholder_for_a_shorter_one() {
    let mut args: Vec<&str> = vec![".", "f %20 %3 %4 %5 %6 %7 %8 %9 %10 %11", "x"];
    let extra = ["a", "b", "c", "d", "e", "f", "g", "h", "i", "j"];
    args.extend(extra);
    assert!(refusal(&cli(&[".", "f %22", "x", "a", "b"])).contains("%3"));
    let p = plan(&cli(&args));
    assert_eq!(p.args.len(), 11);
    args[1] = "f %1 %3 %4 %5 %6 %7 %8 %9 %10 %11";
    assert_eq!(refusal(&cli(&args)), "command has no placeholder %2 for extra argument \"a\"");
    let many: Vec<String> = (2..22).map(|n| format!("v{}", n)).collect();
    let mut c = cli(&[".", "f %20 %3 %4 %5 %6 %7 %8 %9 %10 %11", "x"]);
    c.args.extend(many);
    assert_eq!(refusal(&c), "command has no placeholder %2 for extra argument \"v2\"");
}
