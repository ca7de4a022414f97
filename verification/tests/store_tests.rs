use change_watcher::cycle::{
    initialize_cache, labeled_block, process_changes, process_file, FileReading,
};
use change_watcher::store::{Cache, FileSnapshot};
use std::time::{Duration, SystemTime};

fn at(secs: u64) -> SystemTime {
    SystemTime::UNIX_EPOCH + Duration::from_secs(secs)
}

fn read(path: &str, content: &str, secs: u64) -> FileReading {
    FileReading {
        path: path.to_string(),
        snapshot: Some(FileSnapshot { content: content.to_string(), modified: at(secs) }),
    }
}

fn unread(path: &str) -> FileReading {
    FileReading { path: path.to_string(), snapshot: None }
}

fn paths_of(cache: &Cache) -> Vec<String> {
    let mut paths = cache.paths();
    paths.sort();
    paths
}

const ROOT: &str = "/work/project";

#[test]
fn a_new_store_is_empty() {
    let cache = Cache::new();
    assert!(cache.get_snapshot("./a.txt").is_none());
    assert!(cache.paths().is_empty());
    let cache = Cache::default();
    assert!(cache.paths().is_empty());
}

#[test]
fn update_then_get() {
    let mut cache = Cache::new();
    cache.update_snapshot("./a.txt", "hello".to_string(), at(5));
    let snapshot = cache.get_snapshot("./a.txt").expect("stored");
    assert_eq!(snapshot.content, "hello");
    assert_eq!(snapshot.modified, at(5));
    assert!(cache.get_snapshot("./b.txt").is_none());
}

#[test]
fn update_replaces_the_snapshot() {
    let mut cache = Cache::new();
    cache.update_snapshot("./a.txt", "one\ntwo".to_string(), at(5));
    cache.update_snapshot("./a.txt", "three".to_string(), at(9));
    let snapshot = cache.get_snapshot("./a.txt").expect("stored");
    assert_eq!(snapshot.content, "three");
    assert_eq!(snapshot.modified, at(9));
    assert_eq!(paths_of(&cache), vec!["./a.txt"]);
}

#[test]
fn paths_lists_each_path_once() {
    let mut cache = Cache::new();
    cache.update_snapshot("./b.txt", "b".to_string(), at(1));
    cache.update_snapshot("./a.txt", "a".to_string(), at(2));
    cache.update_snapshot("./b.txt", "b2".to_string(), at(3));
    cache.update_snapshot("./c.txt", "c".to_string(), at(4));
    assert_eq!(paths_of(&cache), vec!["./a.txt", "./b.txt", "./c.txt"]);
}

#[test]
fn snapshot_clone_keeps_the_fields() {
    let snapshot = FileSnapshot { content: "text".to_string(), modified: at(7) };
    let copy = snapshot.clone();
    assert_eq!(copy.content, "text");
    assert_eq!(copy.modified, at(7));
}

#[test]
fn labeled_block_frames_the_diff() {
    assert_eq!(labeled_block("\"./a.txt\"", "+x\n"), "File: \"./a.txt\"\n+x\n\n");
    assert_eq!(labeled_block("", ""), "File: \n\n");
}

#[test]
fn a_new_file_is_all_additions() {
    let mut cache = Cache::new();
    let block = process_file(&mut cache, &read("./a.txt", "x\ny\n", 3), ROOT);
    assert_eq!(block, "File: \"./a.txt\"\n+x\n+y\n");
    let snapshot = cache.get_snapshot("./a.txt").expect("stored");
    assert_eq!(snapshot.content, "x\ny\n");
    assert_eq!(snapshot.modified, at(3));
}

#[test]
fn the_path_in_the_header_is_quoted_and_escaped() {
    let mut cache = Cache::new();
    let block = process_file(&mut cache, &read("./a \"b\"\\c.txt", "x", 3), ROOT);
    assert_eq!(block, "File: \"./a \\\"b\\\"\\\\c.txt\"\n+x\n");
}

#[test]
fn a_changed_file_is_diffed_against_its_snapshot() {
    let mut cache = Cache::new();
    cache.update_snapshot("./a.txt", "a\nb\nc".to_string(), at(1));
    let block = process_file(&mut cache, &read("./a.txt", "a\nc\nd", 2), ROOT);
    assert_eq!(block, "File: \"./a.txt\"\n-b\n+d\n\n");
    let snapshot = cache.get_snapshot("./a.txt").expect("stored");
    assert_eq!(snapshot.content, "a\nc\nd");
    assert_eq!(snapshot.modified, at(2));
}

#[test]
fn an_unchanged_file_leaves_no_trace() {
    let mut cache = Cache::new();
    cache.update_snapshot("./a.txt", "a\nb".to_string(), at(1));
    let block = process_file(&mut cache, &read("./a.txt", "a\nb", 8), ROOT);
    assert_eq!(block, "");
    let snapshot = cache.get_snapshot("./a.txt").expect("stored");
    assert_eq!(snapshot.content, "a\nb");
    assert_eq!(snapshot.modified, at(1));
    assert_eq!(process_changes(&mut cache, &vec![read("./a.txt", "a\nb", 9)], ROOT), "");
    assert_eq!(cache.get_snapshot("./a.txt").expect("stored").modified, at(1));
}

#[test]
fn a_reordered_file_leaves_no_trace() {
    let mut cache = Cache::new();
    cache.update_snapshot("./a.txt", "a\nb".to_string(), at(1));
    let block = process_file(&mut cache, &read("./a.txt", "b\na\n", 8), ROOT);
    assert_eq!(block, "");
    assert_eq!(cache.get_snapshot("./a.txt").expect("stored").content, "a\nb");
}

#[test]
fn an_empty_new_file_leaves_no_trace() {
    let mut cache = Cache::new();
    let block = process_file(&mut cache, &read("./empty.txt", "", 8), ROOT);
    assert_eq!(block, "");
    assert!(cache.get_snapshot("./empty.txt").is_none());
}

#[test]
fn an_unread_file_leaves_no_trace() {
    let mut cache = Cache::new();
    cache.update_snapshot("./a.txt", "a".to_string(), at(1));
    let block = process_file(&mut cache, &unread("./a.txt"), ROOT);
    assert_eq!(block, "");
    assert_eq!(cache.get_snapshot("./a.txt").expect("stored").content, "a");
}

#[test]
fn an_excluded_path_leaves_no_trace() {
    let mut cache = Cache::new();
    for path in ["./README.md", "./.git/HEAD", "./target/out.txt", "./.file_watcher_cache.json"] {
        let block = process_file(&mut cache, &read(path, "x", 8), ROOT);
        assert_eq!(block, "");
        assert!(cache.get_snapshot(path).is_none());
    }
    assert!(cache.paths().is_empty());
}

#[test]
fn absolute_paths_are_stored_relative_to_the_root() {
    let mut cache = Cache::new();
    let block = process_file(&mut cache, &read("/work/project/src/a.rs", "x", 8), ROOT);
    assert_eq!(block, "File: \"./src/a.rs\"\n+x\n");
    assert!(cache.get_snapshot("./src/a.rs").is_some());
    assert!(cache.get_snapshot("/work/project/src/a.rs").is_none());
}

#[test]
fn a_cycle_joins_the_blocks_in_order() {
    let mut cache = Cache::new();
    cache.update_snapshot("./a.txt", "a\nb\nc".to_string(), at(1));
    cache.update_snapshot("./same.txt", "s".to_string(), at(1));
    let files = vec![
        read("./a.txt", "a\nc\nd", 2),
        read("./same.txt", "s", 2),
        unread("./gone.txt"),
        read("./README.md", "changelog", 2),
        read("./new.txt", "n", 2),
    ];
    let diff = process_changes(&mut cache, &files, ROOT);
    assert_eq!(diff, "File: \"./a.txt\"\n-b\n+d\n\nFile: \"./new.txt\"\n+n\n");
    assert_eq!(cache.get_snapshot("./a.txt").expect("stored").content, "a\nc\nd");
    assert_eq!(cache.get_snapshot("./same.txt").expect("stored").modified, at(1));
    assert_eq!(cache.get_snapshot("./new.txt").expect("stored").content, "n");
    assert_eq!(paths_of(&cache), vec!["./a.txt", "./new.txt", "./same.txt"]);
}

#[test]
fn a_cycle_sees_its_own_earlier_steps() {
    let mut cache = Cache::new();
    let files = vec![read("./a.txt", "one", 1), read("./a.txt", "one\ntwo", 2)];
    let diff = process_changes(&mut cache, &files, ROOT);
    assert_eq!(diff, "File: \"./a.txt\"\n+one\nFile: \"./a.txt\"\n+two\n\n");
    assert_eq!(cache.get_snapshot("./a.txt").expect("stored").content, "one\ntwo");
}

#[test]
fn a_cycle_without_files_is_empty() {
    let mut cache = Cache::new();
    assert_eq!(process_changes(&mut cache, &Vec::new(), ROOT), "");
    assert!(cache.paths().is_empty());
}

#[test]
fn a_second_cycle_on_the_same_content_is_empty() {
    let mut cache = Cache::new();
    let files = vec![read("./a.txt", "x\ny", 1), read("./b.txt", "z", 1)];
    assert_ne!(process_changes(&mut cache, &files, ROOT), "");
    assert_eq!(process_changes(&mut cache, &files, ROOT), "");
}

#[test]
fn the_baseline_holds_what_was_read() {
    let files = vec![
        read("./a.txt", "a", 1),
        read("./.git/config", "g", 1),
        unread("./b.txt"),
        read("/work/project/src/c.rs", "c", 2),
        read("./README.md", "r", 1),
        read("./empty.txt", "", 3),
    ];
    let cache = initialize_cache(&files, ROOT);
    assert_eq!(paths_of(&cache), vec!["./a.txt", "./empty.txt", "./src/c.rs"]);
    assert_eq!(cache.get_snapshot("./a.txt").expect("stored").content, "a");
    assert_eq!(cache.get_snapshot("./src/c.rs").expect("stored").modified, at(2));
    assert_eq!(cache.get_snapshot("./empty.txt").expect("stored").content, "");
    assert!(cache.get_snapshot("./.git/config").is_none());
    assert!(cache.get_snapshot("./README.md").is_none());
}

#[test]
fn the_baseline_takes_the_later_of_two_readings() {
    let files = vec![read("./a.txt", "old", 1), read("./a.txt", "new", 2)];
    let cache = initialize_cache(&files, ROOT);
    assert_eq!(cache.get_snapshot("./a.txt").expect("stored").content, "new");
    assert_eq!(paths_of(&cache), vec!["./a.txt"]);
}

#[test]
fn a_snapshot_can_be_printed() {
    let snapshot = FileSnapshot { content: "text".to_string(), modified: at(7) };
    assert!(format!("{:?}", snapshot).contains("text"));
}
