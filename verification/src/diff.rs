//! Line diffs by set difference.
//!
//! A line of the old text that does not occur anywhere in the new text is a
//! removal; a line of the new text that does not occur anywhere in the old
//! text is an addition. Order, position and the number of times a line occurs
//! play no part: moving or repeating a line changes nothing.

use vstd::prelude::*;
use vstd::hash_set::StringHashSet;
use vstd::string::StringExecFns;
use crate::lines::{lines_of, split_lines};

verus! {

/// The entries of `lines` that `other` does not hold, in the order of `lines`.
pub open spec fn not_in(lines: Seq<Seq<char>>, other: Set<Seq<char>>) -> Seq<Seq<char>> {
    lines.filter(|l: Seq<char>| !other.contains(l))
}

/// The lines of `old` that are no line of `new`.
pub open spec fn removed_lines(old: Seq<char>, new: Seq<char>) -> Seq<Seq<char>> {
    not_in(lines_of(old), lines_of(new).to_set())
}

/// The lines of `new` that are no line of `old`.
pub open spec fn added_lines(old: Seq<char>, new: Seq<char>) -> Seq<Seq<char>> {
    not_in(lines_of(new), lines_of(old).to_set())
}

/// Each line behind `mark` and before a line feed, one after the other.
pub open spec fn marked_lines(mark: char, lines: Seq<Seq<char>>) -> Seq<char>
    decreases lines.len(),
{
    if lines.len() == 0 {
        Seq::empty()
    } else {
        marked_lines(mark, lines.drop_last()) + seq![mark] + lines.last() + seq!['\n']
    }
}

/// The diff from `old` to `new` as text: the removals behind `-`, then the
/// additions behind `+`.
pub open spec fn diff_text(old: Seq<char>, new: Seq<char>) -> Seq<char> {
    marked_lines('-', removed_lines(old, new)) + marked_lines('+', added_lines(old, new))
}

/// Each line behind `+`, with a line feed between two of them and none at
/// the end.
pub open spec fn joined_additions(lines: Seq<Seq<char>>) -> Seq<char>
    decreases lines.len(),
{
    if lines.len() == 0 {
        Seq::empty()
    } else if lines.len() == 1 {
        seq!['+'] + lines[0]
    } else {
        joined_additions(lines.drop_last()) + seq!['\n', '+'] + lines.last()
    }
}

/// The diff of a file seen for the first time: every line is an addition.
pub open spec fn new_file_text(content: Seq<char>) -> Seq<char> {
    joined_additions(lines_of(content))
}

/// A line is among `not_in(lines, other)` exactly when it is among `lines`
/// and not in `other`.
pub proof fn lemma_not_in_contains(lines: Seq<Seq<char>>, other: Set<Seq<char>>, l: Seq<char>)
    ensures
        not_in(lines, other).contains(l) <==> lines.contains(l) && !other.contains(l),
{
    let pred = |l: Seq<char>| !other.contains(l);
    let kept = lines.filter(pred);
    if kept.contains(l) {
        lines.lemma_filter_contains_rev(pred, l);
        let k = choose|k: int| 0 <= k < kept.len() && kept[k] == l;
        lines.lemma_filter_pred(pred, k);
    }
    if lines.contains(l) && !other.contains(l) {
        let k = choose|k: int| 0 <= k < lines.len() && lines[k] == l;
        lines.lemma_filter_contains(pred, k);
    }
}

/// As sets, the removals are the lines of `a` that are not in `b`, and the
/// additions are the lines of `b` that are not in `a`.
pub proof fn lemma_diff_is_set_difference(a: Seq<Seq<char>>, b: Seq<Seq<char>>)
    ensures
        not_in(a, b.to_set()).to_set() == a.to_set().difference(b.to_set()),
        not_in(b, a.to_set()).to_set() == b.to_set().difference(a.to_set()),
{
    assert forall|l: Seq<char>|
        not_in(a, b.to_set()).to_set().contains(l) == a.to_set().difference(
            b.to_set(),
        ).contains(l) by {
        lemma_not_in_contains(a, b.to_set(), l);
    }
    assert forall|l: Seq<char>|
        not_in(b, a.to_set()).to_set().contains(l) == b.to_set().difference(
            a.to_set(),
        ).contains(l) by {
        lemma_not_in_contains(b, a.to_set(), l);
    }
    assert(not_in(a, b.to_set()).to_set() =~= a.to_set().difference(b.to_set()));
    assert(not_in(b, a.to_set()).to_set() =~= b.to_set().difference(a.to_set()));
}

/// What is removed from `old` to `new` is what is added from `new` to `old`.
pub proof fn lemma_diff_mirrors(old: Seq<char>, new: Seq<char>)
    ensures
        removed_lines(old, new) == added_lines(new, old),
        added_lines(old, new) == removed_lines(new, old),
{
}

/// Nothing is left of `lines` exactly when every one of them is in `other`.
pub proof fn lemma_not_in_is_empty(lines: Seq<Seq<char>>, other: Set<Seq<char>>)
    ensures
        not_in(lines, other).len() == 0 <==> lines.to_set().subset_of(other),
{
    let kept = not_in(lines, other);
    if kept.len() == 0 {
        assert forall|l: Seq<char>| lines.to_set().contains(l) implies other.contains(l) by {
            lemma_not_in_contains(lines, other, l);
            if !other.contains(l) {
                let k = choose|k: int| 0 <= k < kept.len() && kept[k] == l;
            }
        }
    } else {
        lemma_not_in_contains(lines, other, kept[0]);
        assert(kept.contains(kept[0]));
        assert(lines.to_set().contains(kept[0]));
    }
}

/// Marked text is empty exactly when there is no line to mark.
pub proof fn lemma_marked_lines_is_empty(mark: char, lines: Seq<Seq<char>>)
    ensures
        marked_lines(mark, lines).len() == 0 <==> lines.len() == 0,
{
}

/// The diff text is empty exactly when both texts hold the same set of lines.
pub proof fn lemma_diff_is_empty(old: Seq<char>, new: Seq<char>)
    ensures
        diff_text(old, new).len() == 0 <==> lines_of(old).to_set() == lines_of(new).to_set(),
{
    let a = lines_of(old);
    let b = lines_of(new);
    lemma_not_in_is_empty(a, b.to_set());
    lemma_not_in_is_empty(b, a.to_set());
    lemma_marked_lines_is_empty('-', removed_lines(old, new));
    lemma_marked_lines_is_empty('+', added_lines(old, new));
    if a.to_set().subset_of(b.to_set()) && b.to_set().subset_of(a.to_set()) {
        assert(a.to_set() =~= b.to_set());
    }
}

/// The diff of a text with itself is empty: nothing removed, nothing added.
pub proof fn lemma_diff_with_itself_is_empty(content: Seq<char>)
    ensures
        removed_lines(content, content).len() == 0,
        added_lines(content, content).len() == 0,
        diff_text(content, content).len() == 0,
{
    lemma_not_in_is_empty(lines_of(content), lines_of(content).to_set());
    lemma_diff_is_empty(content, content);
}

/// Against an empty text nothing is removed and every line is added.
pub proof fn lemma_first_sight_adds_every_line(content: Seq<char>)
    ensures
        removed_lines(Seq::empty(), content).len() == 0,
        added_lines(Seq::empty(), content) == lines_of(content),
{
    reveal(Seq::filter);
    let none = lines_of(Seq::<char>::empty());
    assert(none.len() == 0);
    assert(none.to_set() =~= Set::<Seq<char>>::empty());
    lemma_keeps_all(lines_of(content));
}

/// Filtering against the empty set keeps every line.
proof fn lemma_keeps_all(lines: Seq<Seq<char>>)
    ensures
        not_in(lines, Set::<Seq<char>>::empty()) == lines,
    decreases lines.len(),
{
    reveal(Seq::filter);
    if lines.len() > 0 {
        lemma_keeps_all(lines.drop_last());
        assert(lines.drop_last().push(lines.last()) == lines);
    }
}

/// The text for a file seen for the first time is empty exactly when the
/// file has no line, which is when it is empty.
pub proof fn lemma_new_file_text_is_empty(content: Seq<char>)
    ensures
        new_file_text(content).len() == 0 <==> content.len() == 0,
        lines_of(content).len() == 0 <==> content.len() == 0,
{
}

/// The removals and additions between two texts.
#[derive(Debug)]
pub struct LineDiff {
    pub removed: Vec<String>,
    pub added: Vec<String>,
}

impl LineDiff {
    /// True when nothing was removed and nothing was added.
    pub fn is_empty(&self) -> (empty: bool)
        ensures
            empty == (self.removed.deep_view().len() == 0 && self.added.deep_view().len() == 0),
    {
        self.removed.len() == 0 && self.added.len() == 0
    }

    /// The diff as text: removals behind `-`, then additions behind `+`.
    pub fn to_text(&self) -> (text: String)
        ensures
            text@ == marked_lines('-', self.removed.deep_view()) + marked_lines(
                '+',
                self.added.deep_view(),
            ),
    {
        let mut text = String::new();
        append_marked(&mut text, '-', &self.removed);
        append_marked(&mut text, '+', &self.added);
        text
    }
}

/// Appends each of `lines` to `text`, behind `mark` and before a line feed.
fn append_marked(text: &mut String, mark: char, lines: &Vec<String>)
    ensures
        final(text)@ == old(text)@ + marked_lines(mark, lines.deep_view()),
{
    let ghost all = lines.deep_view();
    let ghost start = text@;
    let mut i: usize = 0;
    while i < lines.len()
        invariant
            i <= lines.len(),
            all == lines.deep_view(),
            text@ == start + marked_lines(mark, all.take(i as int)),
        decreases lines.len() - i,
    {
        proof {
            let next = all.take(i + 1);
            assert(next.drop_last() == all.take(i as int));
            assert(next.last() == lines[i as int]@);
        }
        text.push(mark);
        text.append(lines[i].as_str());
        text.push('\n');
        i += 1;
    }
    proof {
        assert(all.take(i as int) == all);
    }
}

/// The set of the lines in `lines`.
fn line_set(lines: &Vec<String>) -> (set: StringHashSet)
    ensures
        set@ == lines.deep_view().to_set(),
{
    let ghost all = lines.deep_view();
    let mut set = StringHashSet::new();
    let mut i: usize = 0;
    while i < lines.len()
        invariant
            i <= lines.len(),
            all == lines.deep_view(),
            set@ == all.take(i as int).to_set(),
        decreases lines.len() - i,
    {
        proof {
            let next = all.take(i + 1);
            assert(next == all.take(i as int).push(lines[i as int]@));
            assert(next.to_set() =~= all.take(i as int).to_set().insert(lines[i as int]@)) by {
                assert forall|l: Seq<char>| #[trigger]
                    next.to_set().contains(l) == all.take(i as int).to_set().insert(
                        lines[i as int]@,
                    ).contains(l) by {
                    if next.contains(l) {
                        let k = choose|k: int| 0 <= k < next.len() && next[k] == l;
                        if k < i {
                            assert(all.take(i as int)[k] == l);
                        }
                    }
                    if all.take(i as int).contains(l) {
                        let k = choose|k: int|
                            0 <= k < all.take(i as int).len() && all.take(i as int)[k] == l;
                        assert(next[k] == l);
                    }
                    if l == lines[i as int]@ {
                        assert(next[i as int] == l);
                    }
                }
            }
        }
        set.insert(lines[i].clone());
        i += 1;
    }
    proof {
        assert(all.take(i as int) == all);
    }
    set
}

/// The entries of `lines` that `other` does not hold, in the order of `lines`.
fn lines_not_in(lines: &Vec<String>, other: &StringHashSet) -> (out: Vec<String>)
    ensures
        out.deep_view() == not_in(lines.deep_view(), other@),
{
    let ghost all = lines.deep_view();
    let mut out: Vec<String> = Vec::new();
    let mut i: usize = 0;
    proof {
        reveal(Seq::filter);
        assert(out.deep_view() == Seq::<Seq<char>>::empty());
        assert(all.take(0).len() == 0);
    }
    while i < lines.len()
        invariant
            i <= lines.len(),
            all == lines.deep_view(),
            out.deep_view() == not_in(all.take(i as int), other@),
        decreases lines.len() - i,
    {
        proof {
            reveal(Seq::filter);
            let next = all.take(i + 1);
            assert(next.drop_last() == all.take(i as int));
            assert(next.last() == lines[i as int]@);
        }
        if !other.contains(lines[i].as_str()) {
            let ghost before = out.deep_view();
            let line = lines[i].clone();
            out.push(line);
            proof {
                assert(out.deep_view() == before.push(lines[i as int]@));
            }
        }
        i += 1;
    }
    proof {
        assert(all.take(i as int) == all);
    }
    out
}

/// The removals and additions from `old_content` to `new_content`.
pub fn diff_lines(old_content: &str, new_content: &str) -> (diff: LineDiff)
    ensures
        diff.removed.deep_view() == removed_lines(old_content@, new_content@),
        diff.added.deep_view() == added_lines(old_content@, new_content@),
{
    let old_lines = split_lines(old_content);
    let new_lines = split_lines(new_content);
    let old_set = line_set(&old_lines);
    let new_set = line_set(&new_lines);
    let removed = lines_not_in(&old_lines, &new_set);
    let added = lines_not_in(&new_lines, &old_set);
    LineDiff { removed, added }
}

/// The diff from `old_content` to `new_content` as text.
pub fn calculate_diff(old_content: &str, new_content: &str) -> (text: String)
    ensures
        text@ == diff_text(old_content@, new_content@),
{
    diff_lines(old_content, new_content).to_text()
}

/// The diff of a file seen for the first time: each line of `new_content`
/// behind `+`.
pub fn new_file_diff(new_content: &str) -> (text: String)
    ensures
        text@ == new_file_text(new_content@),
{
    let lines = split_lines(new_content);
    let ghost all = lines.deep_view();
    let mut text = String::new();
    let mut i: usize = 0;
    while i < lines.len()
        invariant
            i <= lines.len(),
            all == lines.deep_view(),
            text@ == joined_additions(all.take(i as int)),
        decreases lines.len() - i,
    {
        proof {
            let next = all.take(i + 1);
            assert(next.drop_last() == all.take(i as int));
            assert(next.last() == lines[i as int]@);
            if i == 0 {
                assert(next[0] == lines[0]@);
                assert(text@ + seq!['+'] + lines[0]@ == seq!['+'] + lines[0]@);
            } else {
                assert(text@ + seq!['\n'] + seq!['+'] == text@ + seq!['\n', '+']);
            }
        }
        if i > 0 {
            text.push('\n');
        }
        text.push('+');
        text.append(lines[i].as_str());
        i += 1;
    }
    proof {
        assert(all.take(i as int) == all);
    }
    text
}

} // verus!
