use shell_cmd::command::{has_placeholder, quote, substitute};
use shell_cmd::path::{name_extension, name_stem, path_name};

fn strings(v: &[&str]) -> Vec<String> {
    v.iter().map(|s| s.to_string()).collect()
}

#[test]
fn parts_of_paths_are_those_of_std() {
    for p in [
        "", "/", ".", "..", "a", "a/", "a/.", "a/..", "/a/b.txt", "./src/main.rs", "a//b//",
        "x/.bashrc", "x/archive.tar.gz", "x/name.", "x/..hidden", "a/./.", "../..", "x/...",
    ] {
        let path = std::path::Path::new(p);
        let name = path_name(p);
        let file_name = path.file_name().map(|s| s.to_string_lossy().to_string());
        let stem = path.file_stem().map(|s| s.to_string_lossy().to_string());
        assert_eq!(name, file_name.unwrap_or_default(), "name of {}", p);
        assert_eq!(name_stem(&name), stem.unwrap_or_default(), "stem of {}", p);
        let ext = path
            .extension()
            .map(|s| format!(".{}", s.to_string_lossy()))
            .unwrap_or_default();
        assert_eq!(name_extension(&name), ext, "extension of {}", p);
    }
}

#[test]
fn placeholders_of_a_match() {
    let args = strings(&["./docs/report.md"]);
    assert_eq!(
        substitute("cp %1 /tmp/%0 %b%e", &args, None),
        "cp ./docs/report.md /tmp/report.md report.md"
    );
}

#[test]
fn path_with_a_space_is_quoted() {
    let args = strings(&["./my file.txt", "two words"]);
    assert_eq!(substitute("cat %1 %2", &args, None), "cat \"./my file.txt\" two words");
    assert_eq!(substitute("cat %0", &args, None), "cat my file.txt");
    assert_eq!(quote("a b"), "\"a b\"");
    assert_eq!(quote("ab"), "ab");
}

#[test]
fn extra_arguments_follow_the_path() {
    let args = strings(&["/var/log/a.log", "/backup", "user@host"]);
    assert_eq!(
        substitute("cp %1 %2/%0 && echo 'copied to %3'", &args, None),
        "cp /var/log/a.log /backup/a.log && echo 'copied to user@host'"
    );
}

#[test]
fn list_of_all_matches() {
    let args = strings(&["filename", "x y", "z"]);
    assert_eq!(
        substitute("tar czf %3 %0 %2", &args, Some("a.log b.log")),
        "tar czf z a.log b.log \"x y\""
    );
    assert_eq!(substitute("cat %0", &Vec::new(), Some("")), "cat ");
    assert_eq!(substitute("%b%e", &args, Some("a.b")), "%b%e");
}

#[test]
fn first_slot_is_unused_for_a_list() {
    let a = strings(&["one", "x"]);
    let b = strings(&["two", "x"]);
    assert_eq!(substitute("f %1 %2 %0", &a, Some("l")), "f %1 x l");
    assert_eq!(
        substitute("f %1 %2 %0", &a, Some("l")),
        substitute("f %1 %2 %0", &b, Some("l"))
    );
}

#[test]
fn inserted_text_is_not_scanned() {
    let args = strings(&["/d/a%b.txt"]);
    assert_eq!(substitute("echo %0", &args, None), "echo a%b.txt");
    assert_eq!(substitute("%1", &args, None), "/d/a%b.txt");
    let args = strings(&["/d/%e", "%3", "%1"]);
    assert_eq!(substitute("%0 %2 %3", &args, None), "%e %3 %1");
    assert_eq!(substitute("%%2", &args, None), "%%3");
    assert_eq!(substitute("%0", &args, Some("%2 %0")), "%2 %0");
}

#[test]
fn empty_value_joins_nothing() {
    let mut args = strings(&["/d/f"]);
    for i in 2..11 {
        args.push(format!("v{}", i));
    }
    assert_eq!(substitute("%1%e0", &args, None), "/d/f0");
    assert_eq!(substitute("%1%10", &args, None), "/d/fv10");
}

#[test]
fn template_without_arguments_is_kept() {
    assert_eq!(substitute("echo %0 %1", &Vec::new(), None), "echo %0 %1");
}

#[test]
fn template_without_placeholders_is_kept() {
    let args = strings(&["/a/b", "c"]);
    assert_eq!(substitute("echo 100%", &args, None), "echo 100%");
}

#[test]
fn ten_and_more_arguments() {
    let mut args = strings(&["p"]);
    for i in 2..12 {
        args.push(format!("v{}", i));
    }
    assert_eq!(substitute("%1 %10 %11 %2", &args, None), "p v10 v11 v2");
}

#[test]
fn placeholders_are_found_as_they_are_read() {
    assert!(has_placeholder("cp %1 %2", false, 2, 2));
    assert!(!has_placeholder("cp %1", false, 2, 2));
    assert!(has_placeholder("%10", false, 1, 1));
    assert!(!has_placeholder("%10", false, 10, 1));
    assert!(has_placeholder("%10", false, 10, 10));
    assert!(!has_placeholder("%1", true, 3, 1));
    assert!(has_placeholder("%%2", true, 3, 2));
    assert!(!has_placeholder("%02", false, 3, 2));
}

#[test]
fn number_beyond_the_arguments_ends_early() {
    let args = strings(&["p", "q"]);
    assert_eq!(substitute("%12", &args, None), "p2");
}

#[test]
fn placeholders_next_to_each_other() {
    let mut args = strings(&["/d/f.txt"]);
    for i in 2..13 {
        args.push(format!("v{}", i));
    }
    assert_eq!(substitute("%2%3%12%1%e", &args, None), "v2v3v12/d/f.txt.txt");
    assert_eq!(substitute("%19%1x", &args, None), "/d/f.txt9/d/f.txtx");
    assert_eq!(substitute("%x%", &args, None), "%x%");
}
