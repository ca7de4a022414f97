use change_watcher::paths::{normalize_path, should_ignore, CACHE_FILE, CHANGELOG_FILE};
use change_watcher::scanner::{collect_files, scan_step, EntryKind, ScanEntry, ScanStep};
use std::path::Path;

#[test]
fn ordinary_paths_are_not_ignored() {
    assert!(!should_ignore("./src/main.rs"));
    assert!(!should_ignore("src/lib.rs"));
    assert!(!should_ignore("/home/user/project/notes.txt"));
    assert!(!should_ignore("."));
    assert!(!should_ignore(""));
    assert!(!should_ignore("/"));
}

#[test]
fn version_control_directory_is_ignored() {
    assert!(should_ignore(".git"));
    assert!(should_ignore("./.git"));
    assert!(should_ignore("./.git/config"));
    assert!(should_ignore("/repo/.git/objects/ab/cdef"));
}

#[test]
fn build_and_dependency_directories_are_ignored() {
    assert!(should_ignore("target"));
    assert!(should_ignore("./target/debug/app"));
    assert!(should_ignore("web/node_modules/pkg/index.js"));
    assert!(should_ignore("./.cache/x"));
}

#[test]
fn changelog_and_cache_file_are_ignored() {
    assert!(should_ignore("README.md"));
    assert!(should_ignore("./README.md"));
    assert!(should_ignore("./docs/README.md"));
    assert!(should_ignore(".file_watcher_cache.json"));
    assert!(should_ignore("./.file_watcher_cache.json"));
    assert!(should_ignore(CACHE_FILE));
    assert!(should_ignore(CHANGELOG_FILE));
}

#[test]
fn only_whole_components_count() {
    assert!(!should_ignore("./targets/x"));
    assert!(!should_ignore("./my_target/x"));
    assert!(!should_ignore("./README.md.bak"));
    assert!(!should_ignore("./xREADME.md"));
    assert!(!should_ignore("./.gitignore"));
    assert!(!should_ignore("./.github/workflows/ci.yml"));
    assert!(!should_ignore("./node_modules2/a"));
    assert!(!should_ignore("./Target/x"));
}

#[test]
fn repeated_and_trailing_separators() {
    assert!(should_ignore("a//target//b"));
    assert!(should_ignore("a/target/"));
    assert!(!should_ignore("a//b/"));
}

#[test]
fn should_ignore_agrees_with_path_components() {
    let names = ["target", ".git", "node_modules", ".cache", CACHE_FILE, CHANGELOG_FILE];
    let samples = [
        "./src/main.rs",
        "./.git/HEAD",
        "target",
        "a/b/c",
        "./a/./target",
        "../node_modules/x",
        "/abs/.cache",
        "./README.md",
        "./README.mdx",
        "x/.file_watcher_cache.json",
        "",
        "/",
        "a//b",
    ];
    for sample in samples {
        let expected = Path::new(sample)
            .components()
            .any(|c| c.as_os_str().to_str().map_or(false, |s| names.contains(&s)));
        assert_eq!(should_ignore(sample), expected, "sample {:?}", sample);
    }
}

#[test]
fn relative_paths_are_stored_as_they_are() {
    assert_eq!(normalize_path("./src/a.rs", "/home/u/p"), "./src/a.rs");
    assert_eq!(normalize_path("src/a.rs", "/home/u/p"), "src/a.rs");
    assert_eq!(normalize_path("", "/home/u/p"), "");
}

#[test]
fn absolute_paths_below_the_root_become_relative() {
    assert_eq!(normalize_path("/home/u/p/src/a.rs", "/home/u/p"), "./src/a.rs");
    assert_eq!(normalize_path("/home/u/p/a.rs", "/home/u/p/"), "./a.rs");
    assert_eq!(normalize_path("/a/b", "/"), "./a/b");
}

#[test]
fn the_root_itself_becomes_dot_slash() {
    assert_eq!(normalize_path("/home/u/p", "/home/u/p"), "./");
    assert_eq!(normalize_path("/home/u/p/", "/home/u/p"), "./");
    assert_eq!(normalize_path("/home/u/p", "/home/u/p/"), "./");
    assert_eq!(normalize_path("/", "/"), "./");
}

#[test]
fn absolute_paths_elsewhere_are_stored_as_they_are() {
    assert_eq!(normalize_path("/home/u/px/a.rs", "/home/u/p"), "/home/u/px/a.rs");
    assert_eq!(normalize_path("/home/u", "/home/u/p"), "/home/u");
    assert_eq!(normalize_path("/etc/hosts", "/home/u/p"), "/etc/hosts");
}

#[test]
fn a_relative_root_strips_nothing() {
    assert_eq!(normalize_path("/home/u/p/a.rs", "home/u/p"), "/home/u/p/a.rs");
    assert_eq!(normalize_path("/a", ""), "/a");
}

#[test]
fn a_stored_path_is_not_ignored_when_the_path_is_not() {
    let root = "/work/target/project";
    let path = "/work/other/src/a.rs";
    assert!(!should_ignore(path));
    assert!(!should_ignore(&normalize_path(path, root)));
    let below = "/srv/app/src/a.rs";
    assert!(!should_ignore(below));
    assert_eq!(normalize_path(below, "/srv/app"), "./src/a.rs");
    assert!(!should_ignore(&normalize_path(below, "/srv/app")));
}

#[test]
fn scan_step_follows_the_rule() {
    assert_eq!(scan_step("./src/a.rs", EntryKind::File), ScanStep::Track);
    assert_eq!(scan_step("./src", EntryKind::Directory), ScanStep::Descend);
    assert_eq!(scan_step("./link", EntryKind::Other), ScanStep::Skip);
    assert_eq!(scan_step("./target", EntryKind::Directory), ScanStep::Skip);
    assert_eq!(scan_step("./README.md", EntryKind::File), ScanStep::Skip);
    assert_eq!(scan_step("./.git/config", EntryKind::File), ScanStep::Skip);
}

fn entry(path: &str, kind: EntryKind) -> ScanEntry {
    ScanEntry { path: path.to_string(), kind }
}

#[test]
fn collect_files_sorts_the_entries_of_a_directory() {
    let entries = vec![
        entry("./a.txt", EntryKind::File),
        entry("./src", EntryKind::Directory),
        entry("./target", EntryKind::Directory),
        entry("./README.md", EntryKind::File),
        entry("./socket", EntryKind::Other),
        entry("./b.txt", EntryKind::File),
        entry("./docs", EntryKind::Directory),
    ];
    let mut files = vec!["./earlier.txt".to_string()];
    let dirs = collect_files(&entries, &mut files);
    assert_eq!(files, vec!["./earlier.txt", "./a.txt", "./b.txt"]);
    assert_eq!(dirs, vec!["./src", "./docs"]);
}

#[test]
fn collect_files_of_an_empty_directory() {
    let mut files: Vec<String> = Vec::new();
    let dirs = collect_files(&Vec::new(), &mut files);
    assert!(files.is_empty());
    assert!(dirs.is_empty());
}
