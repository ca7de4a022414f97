use change_watcher::changelog::{
    append_to_readme, changelog_entry, is_blank_text, is_whitespace, trim, updated_changelog,
    TIMESTAMP_FORMAT,
};
use change_watcher::summarizer::{
    build_prompt, summary_of_reply, INSTRUCTIONS, REPLY_MEMBER, SUMMARY_TIMEOUT_SECS,
};

#[test]
fn whitespace_is_what_std_calls_whitespace() {
    let mut code: u32 = 0;
    while code <= 0x3100 {
        if let Some(c) = char::from_u32(code) {
            assert_eq!(is_whitespace(c), c.is_whitespace(), "code point {:#x}", code);
        }
        code += 1;
    }
    assert!(!is_whitespace('\u{feff}'));
    assert!(!is_whitespace('\u{200b}'));
    assert!(!is_whitespace('\u{10ffff}'));
}

#[test]
fn trim_removes_whitespace_at_both_ends() {
    assert_eq!(trim("  a b  "), "a b");
    assert_eq!(trim("\n\ta\r\n"), "a");
    assert_eq!(trim("a"), "a");
    assert_eq!(trim(""), "");
    assert_eq!(trim(" \n "), "");
    assert_eq!(trim("\u{a0}x\u{3000}"), "x");
    assert_eq!(trim(" é ✨ "), "é ✨");
}

#[test]
fn trim_agrees_with_std() {
    for sample in ["", " ", "a", " a", "a ", "  a  b  ", "\t\n", "\u{2003}x y\u{2028}", "x\u{200b} "] {
        assert_eq!(trim(sample), sample.trim(), "sample {:?}", sample);
    }
}

#[test]
fn blank_text_holds_only_whitespace() {
    assert!(is_blank_text(""));
    assert!(is_blank_text(" \n\t"));
    assert!(!is_blank_text(" x "));
    assert!(!is_blank_text("#"));
}

#[test]
fn an_entry_has_a_heading_and_the_trimmed_summary() {
    assert_eq!(
        changelog_entry("2024-05-06 07:08:09", "  ✨ Added `x`.\n\n"),
        "### 📅 Update: 2024-05-06 07:08:09\n✨ Added `x`.\n"
    );
    assert_eq!(changelog_entry("", ""), "### 📅 Update: \n\n");
}

#[test]
fn the_first_entry_goes_below_a_title() {
    assert_eq!(updated_changelog("", "entry\n"), "# Project Updates\n\nentry\n");
    assert_eq!(updated_changelog(" \n\n", "entry\n"), "# Project Updates\n\nentry\n");
}

#[test]
fn a_later_entry_goes_below_the_document() {
    assert_eq!(updated_changelog("# Log\n", "entry\n"), "# Log\n\nentry\n");
    assert_eq!(updated_changelog("x", "y"), "x\ny");
}

#[test]
fn append_to_readme_stamps_the_entry() {
    assert_eq!(
        append_to_readme("", " did things \n", 0, 0),
        Some("# Project Updates\n\n### 📅 Update: 1970-01-01 00:00:00\ndid things\n".to_string())
    );
    assert_eq!(
        append_to_readme("", "x", 1_431_648_000, 0),
        Some("# Project Updates\n\n### 📅 Update: 2015-05-15 00:00:00\nx\n".to_string())
    );
}

#[test]
fn append_to_readme_writes_local_time() {
    assert_eq!(
        append_to_readme("", "x", 1_431_648_000, 2 * 3600),
        Some("# Project Updates\n\n### 📅 Update: 2015-05-15 02:00:00\nx\n".to_string())
    );
    assert_eq!(
        append_to_readme("", "x", 1_431_648_000, -(5 * 3600 + 30 * 60)),
        Some("# Project Updates\n\n### 📅 Update: 2015-05-14 18:30:00\nx\n".to_string())
    );
    assert_eq!(
        append_to_readme("", "x", -1, 0),
        Some("# Project Updates\n\n### 📅 Update: 1969-12-31 23:59:59\nx\n".to_string())
    );
}

#[test]
fn append_to_readme_keeps_the_document() {
    assert_eq!(
        append_to_readme("# Log\nold entry\n", "new", 86_399, 0),
        Some("# Log\nold entry\n\n### 📅 Update: 1970-01-01 23:59:59\nnew\n".to_string())
    );
}

#[test]
fn append_to_readme_without_a_time_it_can_write() {
    assert_eq!(append_to_readme("", "x", i64::MAX, 0), None);
    assert_eq!(append_to_readme("", "x", i64::MIN, 0), None);
    assert_eq!(append_to_readme("", "x", 0, 86_400), None);
    assert_eq!(append_to_readme("", "x", 0, -86_400), None);
    assert!(append_to_readme("", "x", 0, 86_399).is_some());
}

#[test]
fn the_timestamp_format_is_date_and_time() {
    assert_eq!(TIMESTAMP_FORMAT, "%Y-%m-%d %H:%M:%S");
}

#[test]
fn the_prompt_is_the_instructions_and_the_diff() {
    let prompt = build_prompt("File: \"./a\"\n+x\n");
    assert_eq!(prompt, format!("{}{}", INSTRUCTIONS, "File: \"./a\"\n+x\n"));
    assert!(prompt.starts_with("\n        You are an automated technical writer"));
    assert!(prompt.ends_with("Just write the content. \n        \n\nFile: \"./a\"\n+x\n"));
    assert_eq!(build_prompt(""), INSTRUCTIONS);
}

#[test]
fn the_instructions_join_their_continued_lines() {
    assert!(INSTRUCTIONS.contains("README. You will receive a git diff of recent changes. Your job"));
    assert!(INSTRUCTIONS.contains("lines of code.\n        5. Do NOT"));
    assert!(INSTRUCTIONS.ends_with("\n\n"));
}

#[test]
fn the_summarizer_has_thirty_seconds() {
    assert_eq!(SUMMARY_TIMEOUT_SECS, 30);
}

#[test]
fn the_summary_is_the_response_member_of_the_reply() {
    assert_eq!(summary_of_reply(br#"{"response":"hi"}"#), Some("hi".to_string()));
    let reply = r#"{"model":"m","response":" ✨ Added `x`.\n","done":true}"#;
    assert_eq!(summary_of_reply(reply.as_bytes()), Some(" ✨ Added `x`.\n".to_string()));
    assert_eq!(summary_of_reply(br#"{"response":""}"#), Some(String::new()));
}

#[test]
fn a_reply_without_a_summary_has_none() {
    assert_eq!(summary_of_reply(b""), None);
    assert_eq!(summary_of_reply(b"not json"), None);
    assert_eq!(summary_of_reply(br#"{"response":"cut"#), None);
    assert_eq!(summary_of_reply(br#"{"error":"model not found"}"#), None);
    assert_eq!(summary_of_reply(br#"{"response":42}"#), None);
    assert_eq!(summary_of_reply(br#"{"response":null}"#), None);
    assert_eq!(summary_of_reply(br#"["response"]"#), None);
    assert_eq!(summary_of_reply(br#""response""#), None);
    assert_eq!(summary_of_reply(br#"{"response":"a"} trailing"#), None);
    assert_eq!(summary_of_reply(b"{\"response\":\"\xff\"}"), None);
}

#[test]
fn the_reply_member_is_response() {
    assert_eq!(REPLY_MEMBER, "response");
}
