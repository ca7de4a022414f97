//! The text of the changelog: how a summary becomes an entry, and how an
//! entry joins the document.

use vstd::prelude::*;
use vstd::string::StringExecFns;
use crate::text::{chars_of, string_of};

verus! {

/// The shape of an entry's timestamp: year, month, day, hour, minute, second.
pub const TIMESTAMP_FORMAT: &'static str = "%Y-%m-%d %H:%M:%S";

/// White space, by code point: the characters with the Unicode property
/// `White_Space`.
pub open spec fn is_space(c: char) -> bool {
    let n = c as u32;
    ||| 0x9 <= n <= 0xd
    ||| n == 0x20
    ||| n == 0x85
    ||| n == 0xa0
    ||| n == 0x1680
    ||| 0x2000 <= n <= 0x200a
    ||| n == 0x2028
    ||| n == 0x2029
    ||| n == 0x202f
    ||| n == 0x205f
    ||| n == 0x3000
}

/// `s` holds nothing but white space.
pub open spec fn is_blank(s: Seq<char>) -> bool {
    forall|i: int| 0 <= i < s.len() ==> is_space(#[trigger] s[i])
}

/// `s` without the white space at its start.
pub open spec fn trim_start(s: Seq<char>) -> Seq<char>
    decreases s.len(),
{
    if s.len() > 0 && is_space(s[0]) {
        trim_start(s.skip(1))
    } else {
        s
    }
}

/// `s` without the white space at its end.
pub open spec fn trim_end(s: Seq<char>) -> Seq<char>
    decreases s.len(),
{
    if s.len() > 0 && is_space(s.last()) {
        trim_end(s.drop_last())
    } else {
        s
    }
}

/// `s` without the white space at its start and at its end.
pub open spec fn trimmed(s: Seq<char>) -> Seq<char> {
    trim_end(trim_start(s))
}

/// An entry: a heading with the timestamp, then the trimmed summary.
pub open spec fn entry_text(timestamp: Seq<char>, summary: Seq<char>) -> Seq<char> {
    "### 📅 Update: "@ + timestamp + seq!['\n'] + trimmed(summary) + seq!['\n']
}

/// The document with `entry` added: below a title where the document was
/// blank, else below what it held, after a line feed.
pub open spec fn updated_text(existing: Seq<char>, entry: Seq<char>) -> Seq<char> {
    if is_blank(existing) {
        "# Project Updates\n\n"@ + entry
    } else {
        existing + seq!['\n'] + entry
    }
}

/// Trimming leaves nothing exactly when the text is blank.
pub proof fn lemma_trimmed_is_empty(s: Seq<char>)
    ensures
        trimmed(s).len() == 0 <==> is_blank(s),
    decreases s.len(),
{
    if s.len() > 0 && is_space(s[0]) {
        let rest = s.skip(1);
        lemma_trimmed_is_empty(rest);
        if is_blank(rest) {
            assert forall|i: int| 0 <= i < s.len() implies is_space(#[trigger] s[i]) by {
                if i > 0 {
                    assert(s[i] == rest[i - 1]);
                }
            }
        }
        if is_blank(s) {
            assert forall|i: int| 0 <= i < rest.len() implies is_space(#[trigger] rest[i]) by {
                assert(rest[i] == s[i + 1]);
            }
        }
    } else if s.len() > 0 {
        lemma_trim_end_keeps_start(s);
    }
}

/// Text that starts with something other than white space keeps that start
/// when its end is trimmed.
proof fn lemma_trim_end_keeps_start(s: Seq<char>)
    requires
        s.len() > 0,
        !is_space(s[0]),
    ensures
        trim_end(s).len() > 0,
    decreases s.len(),
{
    if is_space(s.last()) {
        assert(s.len() > 1);
        assert(s.drop_last()[0] == s[0]);
        lemma_trim_end_keeps_start(s.drop_last());
    }
}

/// True when `c` is white space.
pub fn is_whitespace(c: char) -> (space: bool)
    ensures
        space == is_space(c),
{
    let n: u32 = c as u32;
    (0x9 <= n && n <= 0xd) || n == 0x20 || n == 0x85 || n == 0xa0 || n == 0x1680 || (0x2000 <= n
        && n <= 0x200a) || n == 0x2028 || n == 0x2029 || n == 0x202f || n == 0x205f || n == 0x3000
}

/// True when `text` holds nothing but white space.
pub fn is_blank_text(text: &str) -> (blank: bool)
    ensures
        blank == is_blank(text@),
{
    let chars = chars_of(text);
    let mut i: usize = 0;
    while i < chars.len()
        invariant
            i <= chars.len(),
            chars@ == text@,
            forall|k: int| 0 <= k < i ==> is_space(#[trigger] chars[k]),
        decreases chars.len() - i,
    {
        if !is_whitespace(chars[i]) {
            return false;
        }
        i += 1;
    }
    true
}

/// `text` without the white space at its start and at its end.
pub fn trim(text: &str) -> (out: String)
    ensures
        out@ == trimmed(text@),
{
    let chars = chars_of(text);
    let mut start: usize = 0;
    proof {
        assert(chars@.skip(0) == chars@);
    }
    while start < chars.len() && is_whitespace(chars[start])
        invariant
            start <= chars.len(),
            trim_start(chars@) == trim_start(chars@.skip(start as int)),
        decreases chars.len() - start,
    {
        proof {
            assert(chars@.skip(start as int).skip(1) == chars@.skip(start + 1));
        }
        start += 1;
    }
    let ghost rest = chars@.skip(start as int);
    assert(trim_start(chars@) == rest);
    let mut end: usize = chars.len();
    proof {
        assert(rest.take(rest.len() as int) == rest);
    }
    while end > start && is_whitespace(chars[end - 1])
        invariant
            start <= end <= chars.len(),
            rest == chars@.skip(start as int),
            trim_end(rest) == trim_end(rest.take(end - start)),
        decreases end,
    {
        proof {
            let cut = rest.take(end - start);
            assert(cut.last() == chars[end - 1]);
            assert(cut.drop_last() == rest.take(end - start - 1));
        }
        end -= 1;
    }
    proof {
        let cut = rest.take(end - start);
        if end > start {
            assert(cut.last() == chars[end - 1]);
        }
        assert(trim_end(cut) == cut);
        assert(cut == chars@.subrange(start as int, end as int));
    }
    string_of(&chars, start, end)
}

/// The entry for `summary`, under a heading with `timestamp`.
pub fn changelog_entry(timestamp: &str, summary: &str) -> (entry: String)
    ensures
        entry@ == entry_text(timestamp@, summary@),
{
    let body = trim(summary);
    let mut entry = String::new();
    entry.append("### 📅 Update: ");
    entry.append(timestamp);
    entry.push('\n');
    entry.append(body.as_str());
    entry.push('\n');
    proof {
        assert(entry@ =~= entry_text(timestamp@, summary@));
    }
    entry
}

/// The document `existing` with `entry` added at its end.
pub fn updated_changelog(existing: &str, entry: &str) -> (updated: String)
    ensures
        updated@ == updated_text(existing@, entry@),
{
    let mut updated = String::new();
    if is_blank_text(existing) {
        updated.append("# Project Updates\n\n");
    } else {
        updated.append(existing);
        updated.push('\n');
    }
    updated.append(entry);
    proof {
        assert(updated@ =~= updated_text(existing@, entry@));
    }
    updated
}

/// The text that chrono writes, in `format`, for the moment `unix_seconds`
/// seconds after the start of 1970 in UTC, as a clock shows it that is
/// `offset_seconds` seconds ahead of UTC. `None` where chrono has no such
/// moment or no such clock.
pub uninterp spec fn local_time_text(
    unix_seconds: int,
    offset_seconds: int,
    format: Seq<char>,
) -> Option<Seq<char>>;

/// chrono's `DateTime::format`, on the moment that `DateTime::from_timestamp`
/// makes of `unix_seconds`, moved by `DateTime::with_timezone` to the clock
/// that `FixedOffset::east_opt` makes of `offset_seconds`. The text depends
/// on these arguments alone, and the contract names it `local_time_text`;
/// there is none where `from_timestamp` or `east_opt` returns `None`. The
/// one format this is called with is `TIMESTAMP_FORMAT`, whose items chrono
/// knows; with an item it does not know, writing the text out would panic.
#[verifier::external_body]
fn format_local_time(unix_seconds: i64, offset_seconds: i32, format: &str) -> (text: Option<String>)
    requires
        format@ == TIMESTAMP_FORMAT@,
    ensures
        match text {
            Some(t) => local_time_text(unix_seconds as int, offset_seconds as int, format@)
                == Some(t@),
            None => local_time_text(unix_seconds as int, offset_seconds as int, format@) is None,
        },
{
    let clock = chrono::FixedOffset::east_opt(offset_seconds)?;
    let moment = chrono::DateTime::from_timestamp(unix_seconds, 0)?;
    Some(moment.with_timezone(&clock).format(format).to_string())
}

/// The document after an entry for `summary` at the given time, or `None`
/// where the time cannot be written.
pub open spec fn appended_text(
    existing: Seq<char>,
    summary: Seq<char>,
    unix_seconds: int,
    offset_seconds: int,
) -> Option<Seq<char>> {
    match local_time_text(unix_seconds, offset_seconds, TIMESTAMP_FORMAT@) {
        Some(timestamp) => Some(updated_text(existing, entry_text(timestamp, summary))),
        None => None,
    }
}

/// The document `existing` with an entry for `summary` added at its end. The
/// entry's heading holds the moment `unix_seconds` seconds after the start
/// of 1970 in UTC, as local time on a clock that is `offset_seconds` seconds
/// ahead of UTC. `None` where that moment cannot be written.
pub fn append_to_readme(
    existing: &str,
    summary: &str,
    unix_seconds: i64,
    offset_seconds: i32,
) -> (updated: Option<String>)
    ensures
        match updated {
            Some(text) => appended_text(
                existing@,
                summary@,
                unix_seconds as int,
                offset_seconds as int,
            ) == Some(text@),
            None => appended_text(existing@, summary@, unix_seconds as int, offset_seconds as int)
                is None,
        },
{
    match format_local_time(unix_seconds, offset_seconds, TIMESTAMP_FORMAT) {
        Some(timestamp) => {
            let entry = changelog_entry(timestamp.as_str(), summary);
            Some(updated_changelog(existing, entry.as_str()))
        },
        None => None,
    }
}

} // verus!
