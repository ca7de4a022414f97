use change_watcher::diff::{calculate_diff, diff_lines, new_file_diff};
use change_watcher::lines::split_lines;
use change_watcher::text::chars_of;

fn lines(text: &str) -> Vec<String> {
    split_lines(text)
}

#[test]
fn split_lines_of_empty_text_is_empty() {
    assert_eq!(lines(""), Vec::<String>::new());
}

#[test]
fn split_lines_without_final_line_feed() {
    assert_eq!(lines("a\nb"), vec!["a".to_string(), "b".to_string()]);
}

#[test]
fn split_lines_with_final_line_feed() {
    assert_eq!(lines("a\nb\n"), vec!["a".to_string(), "b".to_string()]);
}

#[test]
fn split_lines_keeps_empty_lines() {
    assert_eq!(lines("a\n\nb"), vec!["a".to_string(), String::new(), "b".to_string()]);
    assert_eq!(lines("\n"), vec![String::new()]);
    assert_eq!(lines("\n\n"), vec![String::new(), String::new()]);
}

#[test]
fn split_lines_takes_cr_lf_as_one_ending() {
    assert_eq!(lines("a\r\nb\r\n"), vec!["a".to_string(), "b".to_string()]);
}

#[test]
fn split_lines_keeps_a_lone_cr() {
    assert_eq!(lines("a\rb"), vec!["a\rb".to_string()]);
    assert_eq!(lines("a\r"), vec!["a\r".to_string()]);
    assert_eq!(lines("a\r\r\n"), vec!["a\r".to_string()]);
}

#[test]
fn split_lines_agrees_with_std() {
    let samples = [
        "",
        "one",
        "one\n",
        "one\ntwo",
        "\r\n",
        "\r",
        "a\r\n\r\nb",
        "tab\there\n  indented\n",
        "ünï\ncödé ✨\n",
        "\n\n\n",
        "x\r\ny\rz\n",
    ];
    for sample in samples {
        let expected: Vec<String> = sample.lines().map(|l| l.to_string()).collect();
        assert_eq!(lines(sample), expected, "sample {:?}", sample);
    }
}

#[test]
fn diff_reports_removed_and_added_lines() {
    assert_eq!(calculate_diff("a\nb\nc", "a\nc\nd"), "-b\n+d\n");
}

#[test]
fn diff_lines_reports_removed_and_added_lines() {
    let diff = diff_lines("a\nb\nc", "a\nc\nd");
    assert_eq!(diff.removed, vec!["b".to_string()]);
    assert_eq!(diff.added, vec!["d".to_string()]);
    assert!(!diff.is_empty());
    assert_eq!(diff.to_text(), "-b\n+d\n");
}

#[test]
fn diff_of_a_text_with_itself_is_empty() {
    assert_eq!(calculate_diff("a\nb\nc", "a\nb\nc"), "");
    assert_eq!(calculate_diff("", ""), "");
    assert!(diff_lines("x\ny", "x\ny").is_empty());
}

#[test]
fn diff_ignores_order() {
    assert_eq!(calculate_diff("a\nb\nc", "c\na\nb"), "");
}

#[test]
fn diff_ignores_repeated_lines() {
    assert_eq!(calculate_diff("a\nb", "a\na\nb\nb"), "");
    assert_eq!(calculate_diff("a\na\nb", "a\nb"), "");
}

#[test]
fn diff_ignores_the_final_line_feed() {
    assert_eq!(calculate_diff("a\nb\n", "a\nb"), "");
}

#[test]
fn diff_lists_each_occurrence_of_a_changed_line() {
    assert_eq!(calculate_diff("x\nx\ny", "y"), "-x\n-x\n");
    assert_eq!(calculate_diff("y", "z\ny\nz"), "+z\n+z\n");
}

#[test]
fn diff_lists_removals_before_additions_in_text_order() {
    assert_eq!(calculate_diff("1\n2\n3\n4", "5\n4\n6"), "-1\n-2\n-3\n+5\n+6\n");
}

#[test]
fn diff_against_empty_text() {
    assert_eq!(calculate_diff("", "a\nb"), "+a\n+b\n");
    assert_eq!(calculate_diff("a\nb", ""), "-a\n-b\n");
}

#[test]
fn diff_mirrors_when_swapped() {
    let forward = diff_lines("a\nb\nc", "b\nd");
    let backward = diff_lines("b\nd", "a\nb\nc");
    assert_eq!(forward.removed, backward.added);
    assert_eq!(forward.added, backward.removed);
}

#[test]
fn diff_tells_an_empty_line_from_no_line() {
    assert_eq!(calculate_diff("a", "a\n\n"), "+\n");
}

#[test]
fn new_file_diff_marks_every_line() {
    assert_eq!(new_file_diff("x\ny"), "+x\n+y");
    assert_eq!(new_file_diff("x\ny\n"), "+x\n+y");
    assert_eq!(new_file_diff("only"), "+only");
}

#[test]
fn new_file_diff_of_empty_file_is_empty() {
    assert_eq!(new_file_diff(""), "");
}

#[test]
fn new_file_diff_of_blank_lines() {
    assert_eq!(new_file_diff("\n"), "+");
    assert_eq!(new_file_diff("\n\n"), "+\n+");
}

#[test]
fn new_file_diff_keeps_repeated_lines() {
    assert_eq!(new_file_diff("a\na"), "+a\n+a");
}

#[test]
fn chars_of_lists_the_characters() {
    assert_eq!(chars_of(""), Vec::<char>::new());
    assert_eq!(chars_of("aé✨\n"), vec!['a', 'é', '✨', '\n']);
}
