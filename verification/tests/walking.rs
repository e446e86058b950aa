use shell_cmd::expr::entry_matches_path;
use shell_cmd::filter::EntryMeta;
use shell_cmd::session::Session;
use shell_cmd::setup::{setup, Cli, Plan};
use shell_cmd::walk::{
    join_files, judge, not_opened_text, Verdict, Walk, WalkAction, WalkError, WalkEvent, WalkPhase,
};

fn cli(pattern: &str) -> Cli {
    Cli {
        dry_run: false,
        verbose: false,
        all: false,
        depth: None,
        size: None,
        mtime: None,
        perm: None,
        user: None,
        group: None,
        type_filter: None,
        exclude: None,
        stop_on_error: false,
        confirm: false,
        list_all: false,
        jobs: 1,
        shell: "/bin/bash".to_string(),
        args: vec!["t".to_string(), "echo %1".to_string(), pattern.to_string()],
        glob: false,
        regex_match: false,
        glob_exclude: false,
        expr: None,
    }
}

fn plan(c: &Cli) -> Plan {
    match setup(c) {
        Ok(p) => p,
        Err(e) => panic!("{}", e.message()),
    }
}

/// An entry of a tree kept in memory.
enum Node {
    File,
    Dir(Vec<(&'static str, Node)>),
    LinkToFile,
    LinkToDir,
    DeadLink,
    Locked,
    Unreadable,
}

fn meta(file: bool, dir: bool, link: bool) -> Option<EntryMeta> {
    Some(EntryMeta {
        is_file: file,
        is_dir: dir,
        is_symlink: link,
        size: 10,
        age_secs: Some(0),
        mode: 0o644,
        owner: None,
        group: None,
    })
}

fn metas(n: &Node) -> (Option<EntryMeta>, Option<EntryMeta>) {
    match n {
        Node::File => (meta(true, false, false), None),
        Node::Dir(_) | Node::Locked => (meta(false, true, false), None),
        Node::LinkToFile => (meta(false, false, true), meta(true, false, false)),
        Node::LinkToDir => (meta(false, false, true), meta(false, true, false)),
        Node::DeadLink => (meta(false, false, true), None),
        Node::Unreadable => (None, None),
    }
}

fn tree() -> Node {
    Node::Dir(vec![
        ("a.txt", Node::File),
        (".hidden", Node::Dir(vec![("h.txt", Node::File)])),
        (
            "sub",
            Node::Dir(vec![
                ("b.txt", Node::File),
                ("deep", Node::Dir(vec![("c.txt", Node::File)])),
                ("d.log", Node::File),
            ]),
        ),
        ("link.txt", Node::LinkToFile),
        ("dirlink.txt", Node::LinkToDir),
        ("dead.txt", Node::DeadLink),
        ("bad", Node::Unreadable),
        ("z.txt", Node::File),
    ])
}

struct Outcome {
    commands: Vec<String>,
    files: Vec<String>,
    matched: i32,
    error: Option<String>,
}

/// Walks a tree. The command numbered `fail_at` fails and is a reason to stop.
fn walk_tree(p: &Plan, root: &Node, fail_at: Option<usize>) -> Outcome {
    let mut walk = Walk::new();
    let mut session = Session::new();
    let mut stack: Vec<(&Node, String, usize)> = Vec::new();
    let mut at: (&Node, String) = (root, "t".to_string());
    let mut commands: Vec<String> = Vec::new();
    let mut event = WalkEvent::Start;
    let error: Option<String>;
    loop {
        match walk.step(&mut session, event, false, &p.search, &p.opts) {
            WalkAction::OpenDir => {
                let opens = matches!(at.0, Node::Dir(_));
                if opens {
                    stack.push((at.0, at.1.clone(), 0));
                }
                event = WalkEvent::Opened(opens);
            }
            WalkAction::NextEntry(depth) => {
                stack.truncate(depth as usize + 1);
                let top = stack.last_mut().unwrap();
                let items = match top.0 {
                    Node::Dir(items) => items,
                    _ => panic!("no directory"),
                };
                if top.2 == items.len() {
                    event = WalkEvent::NoMore;
                } else {
                    let (name, node) = &items[top.2];
                    top.2 += 1;
                    at = (node, format!("{}/{}", top.1, name));
                    event = match node {
                        Node::Unreadable => WalkEvent::Unreadable,
                        _ => WalkEvent::Entry(name.to_string()),
                    };
                }
            }
            WalkAction::Examine => {
                let (own, target) = metas(at.0);
                event = WalkEvent::Examined { path: at.1.clone(), own, target };
            }
            WalkAction::Command(path) => {
                let fails = Some(commands.len()) == fail_at;
                commands.push(path);
                if fails {
                    session.stop_requested = true;
                }
                event = WalkEvent::Commanded(!fails);
            }
            WalkAction::Finish => {
                error = None;
                break;
            }
            WalkAction::Fail(WalkError::NotOpened) => {
                error = Some("not opened".to_string());
                break;
            }
            WalkAction::Fail(WalkError::Filter(e)) => {
                error = Some(e.message());
                break;
            }
        }
    }
    assert_eq!(walk.phase, WalkPhase::Finished);
    Outcome { commands, files: walk.files, matched: session.stats.files_matched, error }
}

fn found(c: &Cli) -> Vec<String> {
    let out = walk_tree(&plan(c), &tree(), None);
    assert!(out.error.is_none());
    assert_eq!(out.matched as usize, out.commands.len());
    assert!(out.files.is_empty());
    out.commands
}

#[test]
fn walk_finds_matches_in_order() {
    assert_eq!(
        found(&cli("txt$")),
        vec!["t/a.txt", "t/sub/b.txt", "t/sub/deep/c.txt", "t/link.txt", "t/dirlink.txt", "t/z.txt"]
    );
}

#[test]
fn collecting_finds_the_same() {
    let mut c = cli("txt$");
    let each = found(&c);
    c.list_all = true;
    let out = walk_tree(&plan(&c), &tree(), None);
    assert!(out.commands.is_empty());
    assert_eq!(out.files, each);
    assert_eq!(out.matched, 6);
    assert_eq!(join_files(&out.files), each.join(" "));
}

#[test]
fn joined_files() {
    assert_eq!(join_files(&Vec::new()), "");
    assert_eq!(join_files(&vec!["a".to_string()]), "a");
    assert_eq!(join_files(&vec!["".to_string(), "".to_string()]), " ");
}

#[test]
fn hidden_entries_on_request() {
    let mut c = cli("h\\.txt$");
    assert!(found(&c).is_empty());
    c.all = true;
    assert_eq!(found(&c), vec!["t/.hidden/h.txt"]);
}

#[test]
fn depth_is_limited() {
    let mut c = cli("txt$");
    c.depth = Some(0);
    assert_eq!(found(&c), vec!["t/a.txt", "t/link.txt", "t/dirlink.txt", "t/z.txt"]);
    c.depth = Some(1);
    assert_eq!(found(&c)[1], "t/sub/b.txt");
    assert_eq!(found(&c).len(), 5);
}

#[test]
fn excluded_names_are_left_out() {
    let mut c = cli("txt$");
    c.exclude = Some("^sub$|^z".to_string());
    assert_eq!(found(&c), vec!["t/a.txt", "t/link.txt", "t/dirlink.txt"]);
    c.exclude = Some("*b*".to_string());
    c.glob_exclude = true;
    assert_eq!(found(&c), vec!["t/a.txt", "t/link.txt", "t/dirlink.txt", "t/z.txt"]);
}

#[test]
fn types_are_told_apart() {
    let mut c = cli(".*");
    c.type_filter = Some('f');
    assert_eq!(
        found(&c),
        vec!["t/a.txt", "t/sub/b.txt", "t/sub/deep/c.txt", "t/sub/d.log", "t/link.txt", "t/z.txt"]
    );
    c.type_filter = Some('d');
    assert_eq!(found(&c), vec!["t/sub", "t/sub/deep"]);
    c.type_filter = Some('l');
    assert_eq!(found(&c), vec!["t/link.txt", "t/dirlink.txt", "t/dead.txt"]);
}

#[test]
fn expression_replaces_the_pattern() {
    let mut c = cli("txt$");
    c.expr = Some("glob('*.log')".to_string());
    assert_eq!(found(&c), vec!["t/sub/d.log"]);
}

#[test]
fn whole_path_has_to_match_on_request() {
    let mut c = cli("a.txt");
    assert_eq!(found(&c), vec!["t/a.txt"]);
    c.regex_match = true;
    assert!(found(&c).is_empty());
    c.args[2] = "t/[ab].txt".to_string();
    assert_eq!(found(&c), vec!["t/a.txt"]);
}

#[test]
fn failing_command_stops_the_walk() {
    let p = plan(&cli("txt$"));
    let out = walk_tree(&p, &tree(), Some(1));
    assert_eq!(out.commands, vec!["t/a.txt", "t/sub/b.txt"]);
    let out = walk_tree(&p, &tree(), Some(2));
    assert_eq!(out.commands, vec!["t/a.txt", "t/sub/b.txt", "t/sub/deep/c.txt"]);
    assert!(out.error.is_none());
}

#[test]
fn locked_directory_ends_the_walk() {
    let root = Node::Dir(vec![
        ("a.txt", Node::File),
        ("locked", Node::Locked),
        ("b.txt", Node::File),
    ]);
    let out = walk_tree(&plan(&cli("txt$")), &root, None);
    assert_eq!(out.commands, vec!["t/a.txt"]);
    assert_eq!(out.error.unwrap(), "not opened");
    assert_eq!(
        not_opened_text("t/locked", "Permission denied"),
        "could not open directory: t/locked: Permission denied"
    );
}

#[test]
fn wrong_permission_filter_ends_the_walk() {
    let mut c = cli("z");
    c.perm = Some("rw".to_string());
    let out = walk_tree(&plan(&c), &tree(), None);
    assert!(out.commands.is_empty());
    assert_eq!(out.matched, 0);
    assert_eq!(out.error.unwrap(), "invalid permission filter 'rw'");
    c.args[2] = "no such entry".to_string();
    assert!(walk_tree(&plan(&c), &tree(), None).error.is_none());
}

#[test]
fn interrupted_walk_opens_nothing() {
    let p = plan(&cli("txt$"));
    let mut walk = Walk::new();
    let mut session = Session::new();
    let a = walk.step(&mut session, WalkEvent::Start, true, &p.search, &p.opts);
    assert!(matches!(a, WalkAction::Finish));
}

#[test]
fn interrupt_between_entries_leaves_the_directory() {
    let p = plan(&cli("txt$"));
    let mut walk = Walk::new();
    let mut session = Session::new();
    let a = walk.step(&mut session, WalkEvent::Start, false, &p.search, &p.opts);
    assert!(matches!(a, WalkAction::OpenDir));
    let a = walk.step(&mut session, WalkEvent::Opened(true), false, &p.search, &p.opts);
    assert!(matches!(a, WalkAction::NextEntry(0)));
    let event = WalkEvent::Entry("a.txt".to_string());
    let a = walk.step(&mut session, event, true, &p.search, &p.opts);
    assert!(matches!(a, WalkAction::Finish));
    assert_eq!(session.stats.files_matched, 0);
}

#[test]
fn refused_command_ends_the_walk() {
    let p = plan(&cli("txt$"));
    let mut walk = Walk::new();
    walk.phase = WalkPhase::AwaitCommand { descends: true };
    walk.depth = 2;
    let mut session = Session::new();
    let a = walk.step(&mut session, WalkEvent::Commanded(false), false, &p.search, &p.opts);
    assert!(matches!(a, WalkAction::Finish));
    assert_eq!(walk.phase, WalkPhase::Finished);
}

#[test]
fn counters_have_limits() {
    let p = plan(&cli("txt$"));
    let mut walk = Walk::new();
    let mut session = Session::new();
    let file = |path: &str| WalkEvent::Examined {
        path: path.to_string(),
        own: meta(true, false, false),
        target: None,
    };
    let dir = WalkEvent::Examined {
        path: "d".to_string(),
        own: meta(false, true, false),
        target: None,
    };
    let room = |w: &Walk, s: &Session, e: &WalkEvent| w.has_room_for(s, e, &p.search, &p.opts);
    assert!(room(&walk, &session, &file("x.txt")));
    session.stats.files_matched = i32::MAX;
    assert!(!room(&walk, &session, &file("x.txt")));
    assert!(room(&walk, &session, &file("x.log")));
    assert!(room(&walk, &session, &dir));
    walk.depth = i32::MAX;
    assert!(!room(&walk, &session, &dir));
    assert!(room(&walk, &session, &WalkEvent::NoMore));
    walk.phase = WalkPhase::AwaitCommand { descends: true };
    assert!(!room(&walk, &session, &WalkEvent::Commanded(true)));
    assert!(room(&walk, &session, &WalkEvent::Commanded(false)));
}

#[test]
fn verdicts_on_entries() {
    let mut c = cli("txt$");
    let p = plan(&c);
    let nothing = Verdict { matches: false, descends: false, fault: false };
    let file = meta(true, false, false);
    let link = meta(false, false, true);
    let dir = meta(false, true, false);
    let v = judge(&p.search, &p.opts, "x.txt", &file, &None);
    assert_eq!(v, Verdict { matches: true, descends: false, fault: false });
    assert_eq!(judge(&p.search, &p.opts, "x.log", &file, &None), nothing);
    assert_eq!(judge(&p.search, &p.opts, "x.txt", &None, &file), nothing);
    assert_eq!(judge(&p.search, &p.opts, "x.txt", &link, &None), nothing);
    let v = judge(&p.search, &p.opts, "x.txt", &dir, &None);
    assert_eq!(v, Verdict { matches: false, descends: true, fault: false });
    c.type_filter = Some('d');
    let p = plan(&c);
    let v = judge(&p.search, &p.opts, "x.txt", &dir, &None);
    assert_eq!(v, Verdict { matches: true, descends: true, fault: false });
    assert_eq!(judge(&p.search, &p.opts, "x.txt", &link, &dir), nothing);
}

#[test]
fn paths_match_the_pattern_or_the_expression() {
    let mut c = cli("a");
    let p = plan(&c);
    assert!(entry_matches_path("cat", &p.search.regex, None));
    assert!(!entry_matches_path("dog", &p.search.regex, None));
    c.expr = Some("regex('o')".to_string());
    let p = plan(&c);
    assert!(entry_matches_path("dog", &p.search.regex, p.search.expr.as_deref()));
    assert!(!entry_matches_path("cat", &p.search.regex, p.search.expr.as_deref()));
}
