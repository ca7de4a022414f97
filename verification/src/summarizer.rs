//! What the summarizer is asked, and what is taken from its reply: the
//! instructions that go before the diff, and the member of the reply that
//! holds the summary.

use vstd::prelude::*;
use vstd::string::StringExecFns;

verus! {

/// How long the summarizer may take to answer, in seconds.
pub const SUMMARY_TIMEOUT_SECS: u64 = 30;

/// The instructions that stand before the diff in a request.
pub const INSTRUCTIONS: &'static str = "
        You are an automated technical writer maintaining a project's README. \
        You will receive a git diff of recent changes. \
        Your job is to write a concise, engaging log entry for these changes. \
        1. Use Markdown. \
        2. Use emojis to categorize changes (e.g., 🐛 for bugs, ✨ for features, ⚡ for perf). \
        3. Include short code snippets in backticks ` ` if relevant. \
        4. Lines starting with '+'/'-' are added/removed lines of code.
        5. Do NOT write introductions like 'Here is the summary'. Just write the content. 
        \n\n";

/// The request text for `diff`: the instructions, then the diff.
pub open spec fn prompt_text(diff: Seq<char>) -> Seq<char> {
    INSTRUCTIONS@ + diff
}

/// The request text for the aggregate diff `diff`.
pub fn build_prompt(diff: &str) -> (prompt: String)
    ensures
        prompt@ == prompt_text(diff@),
{
    let mut prompt = String::new();
    prompt.append(INSTRUCTIONS);
    prompt.append(diff);
    prompt
}

/// The member of a reply that holds the summary.
pub const REPLY_MEMBER: &'static str = "response";

/// The string that the member named `name` holds in the JSON object that
/// the bytes `body` spell. `None` where `body` is not one JSON value, where
/// that value is not an object, and where the object has no such member or
/// holds something else than a string under that name.
pub uninterp spec fn json_string_member(body: Seq<u8>, name: Seq<char>) -> Option<Seq<char>>;

/// `serde_json::from_slice` to a `serde_json::Value`, of which `Value::get`
/// takes the member `name` and `Value::as_str` its string. What comes out
/// depends on the bytes and the name alone, and the contract names it
/// `json_string_member`; there is nothing where `from_slice` fails or where
/// `get` or `as_str` returns `None`.
#[verifier::external_body]
fn string_member(body: &[u8], name: &str) -> (text: Option<String>)
    ensures
        match text {
            Some(t) => json_string_member(body@, name@) == Some(t@),
            None => json_string_member(body@, name@) is None,
        },
{
    let value: serde_json::Value = serde_json::from_slice(body).ok()?;
    Some(value.get(name)?.as_str()?.to_string())
}

/// The summary that the reply `body` holds, if it holds one.
pub open spec fn reply_summary(body: Seq<u8>) -> Option<Seq<char>> {
    json_string_member(body, REPLY_MEMBER@)
}

/// The summary in the summarizer's reply `body`, or `None` where the reply
/// holds none.
pub fn summary_of_reply(body: &[u8]) -> (summary: Option<String>)
    ensures
        match summary {
            Some(text) => reply_summary(body@) == Some(text@),
            None => reply_summary(body@) is None,
        },
{
    string_member(body, REPLY_MEMBER)
}

} // verus!
