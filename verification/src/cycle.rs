//! One processing cycle: the files read after a quiet period are diffed
//! against their snapshots. Each file whose lines changed adds a labeled
//! block to the aggregate diff and has its snapshot replaced; every other
//! file leaves no trace.

use vstd::prelude::*;
use vstd::string::StringExecFns;
use crate::diff::{calculate_diff, diff_text, new_file_diff, new_file_text};
use crate::diff::{lemma_diff_is_empty, lemma_new_file_text_is_empty};
use crate::paths::{ignored, normalize_path, normalized, should_ignore};
use crate::paths::lemma_normalized_stays_eligible;
use crate::store::{Cache, FileSnapshot, SnapshotView};
use crate::text::{debug_quoted, quoted};
use crate::lines::lines_of;

verus! {

/// What was found when a changed path was read: its current state, or
/// nothing where the file or its modification time could not be read. A
/// file that does not hold text cannot be read as such, and so is passed
/// over like one that is gone.
#[derive(Debug)]
pub struct FileReading {
    /// The path as the change was reported.
    pub path: String,
    /// The file's current content and modification time, if both were read.
    pub snapshot: Option<FileSnapshot>,
}

/// What a `FileReading` stands for.
pub struct FileReadingView {
    pub path: Seq<char>,
    pub snapshot: Option<SnapshotView>,
}

impl View for FileReading {
    type V = FileReadingView;

    open spec fn view(&self) -> FileReadingView {
        FileReadingView {
            path: self.path@,
            snapshot: match self.snapshot {
                Some(s) => Some(s@),
                None => None,
            },
        }
    }
}

impl DeepView for FileReading {
    type V = FileReadingView;

    open spec fn deep_view(&self) -> FileReadingView {
        self@
    }
}

/// No stored path is excluded.
pub open spec fn holds_no_ignored(cache: Map<Seq<char>, SnapshotView>) -> bool {
    forall|k: Seq<char>| cache.contains_key(k) ==> !ignored(k)
}

/// The diff of a file's new content: against its prior snapshot where it
/// has one, else with every line as an addition.
pub open spec fn file_diff(prior: Option<SnapshotView>, content: Seq<char>) -> Seq<char> {
    match prior {
        Some(snapshot) => diff_text(snapshot.content, content),
        None => new_file_text(content),
    }
}

/// The snapshot that `cache` holds for `key`, if any.
pub open spec fn prior_of(cache: Map<Seq<char>, SnapshotView>, key: Seq<char>) -> Option<
    SnapshotView,
> {
    if cache.contains_key(key) {
        Some(cache[key])
    } else {
        None
    }
}

/// A file's block in the aggregate diff: a header with the quoted path, the
/// diff, and a line feed.
pub open spec fn labeled_block_text(quoted_path: Seq<char>, diff: Seq<char>) -> Seq<char> {
    "File: "@ + quoted_path + seq!['\n'] + diff + seq!['\n']
}

/// What one file does to the store and adds to the aggregate diff. An
/// excluded path, an unread file and a file whose diff is empty do nothing.
pub open spec fn cycle_step(
    cache: Map<Seq<char>, SnapshotView>,
    file: FileReadingView,
    root: Seq<char>,
) -> (Map<Seq<char>, SnapshotView>, Seq<char>) {
    let key = normalized(file.path, root);
    match file.snapshot {
        Some(current) if !ignored(file.path) => {
            let diff = file_diff(prior_of(cache, key), current.content);
            if diff.len() == 0 {
                (cache, Seq::empty())
            } else {
                (cache.insert(key, current), labeled_block_text(debug_quoted(key), diff))
            }
        },
        _ => (cache, Seq::empty()),
    }
}

/// What a whole cycle does: the files take their steps one after the other,
/// and the aggregate diff is their blocks in that order.
pub open spec fn cycle(
    cache: Map<Seq<char>, SnapshotView>,
    files: Seq<FileReadingView>,
    root: Seq<char>,
) -> (Map<Seq<char>, SnapshotView>, Seq<char>)
    decreases files.len(),
{
    if files.len() == 0 {
        (cache, Seq::empty())
    } else {
        let (before, diff) = cycle(cache, files.drop_last(), root);
        let (after, block) = cycle_step(before, files.last(), root);
        (after, diff + block)
    }
}

/// A file whose content has the same set of lines as its snapshot changes
/// nothing: the snapshot stays as it was and the aggregate diff gets no block.
pub proof fn lemma_unchanged_file_is_skipped(
    cache: Map<Seq<char>, SnapshotView>,
    file: FileReadingView,
    root: Seq<char>,
)
    requires
        file.snapshot is Some,
        cache.contains_key(normalized(file.path, root)),
        lines_of(cache[normalized(file.path, root)].content).to_set() == lines_of(
            file.snapshot->0.content,
        ).to_set(),
    ensures
        cycle_step(cache, file, root) == (cache, Seq::<char>::empty()),
{
    lemma_diff_is_empty(cache[normalized(file.path, root)].content, file.snapshot->0.content);
}

/// A file whose content is what its snapshot holds changes nothing.
pub proof fn lemma_same_content_is_skipped(
    cache: Map<Seq<char>, SnapshotView>,
    file: FileReadingView,
    root: Seq<char>,
)
    requires
        file.snapshot is Some,
        cache.contains_key(normalized(file.path, root)),
        cache[normalized(file.path, root)].content == file.snapshot->0.content,
    ensures
        cycle_step(cache, file, root) == (cache, Seq::<char>::empty()),
{
    lemma_unchanged_file_is_skipped(cache, file, root);
}

/// A file without a prior snapshot gets a block that holds every line of its
/// content as an addition, and its content becomes its snapshot. Only an
/// empty file, which has no line, leaves no trace.
pub proof fn lemma_new_file_is_all_additions(
    cache: Map<Seq<char>, SnapshotView>,
    file: FileReadingView,
    root: Seq<char>,
)
    requires
        file.snapshot is Some,
        !ignored(file.path),
        !cache.contains_key(normalized(file.path, root)),
    ensures
        file.snapshot->0.content.len() > 0 ==> cycle_step(cache, file, root) == (
            cache.insert(normalized(file.path, root), file.snapshot->0),
            labeled_block_text(
                debug_quoted(normalized(file.path, root)),
                new_file_text(file.snapshot->0.content),
            ),
        ),
        file.snapshot->0.content.len() == 0 ==> cycle_step(cache, file, root) == (
            cache,
            Seq::<char>::empty(),
        ),
{
    lemma_new_file_text_is_empty(file.snapshot->0.content);
}

/// An excluded path changes nothing, whatever was read of it.
pub proof fn lemma_ignored_file_is_skipped(
    cache: Map<Seq<char>, SnapshotView>,
    file: FileReadingView,
    root: Seq<char>,
)
    requires
        ignored(file.path),
    ensures
        cycle_step(cache, file, root) == (cache, Seq::<char>::empty()),
{
}

/// A block in the aggregate diff is never that of an excluded path: neither
/// the path as it was reported nor the path in the block's header is one.
pub proof fn lemma_block_is_of_no_ignored(
    cache: Map<Seq<char>, SnapshotView>,
    file: FileReadingView,
    root: Seq<char>,
)
    requires
        cycle_step(cache, file, root).1.len() > 0,
    ensures
        !ignored(file.path),
        !ignored(normalized(file.path, root)),
{
    lemma_normalized_stays_eligible(file.path, root);
}

/// A step stores nothing under an excluded path.
pub proof fn lemma_step_stores_no_ignored(
    cache: Map<Seq<char>, SnapshotView>,
    file: FileReadingView,
    root: Seq<char>,
)
    requires
        holds_no_ignored(cache),
    ensures
        holds_no_ignored(cycle_step(cache, file, root).0),
{
    if !ignored(file.path) {
        lemma_normalized_stays_eligible(file.path, root);
    }
}

/// A cycle stores nothing under an excluded path.
pub proof fn lemma_cycle_stores_no_ignored(
    cache: Map<Seq<char>, SnapshotView>,
    files: Seq<FileReadingView>,
    root: Seq<char>,
)
    requires
        holds_no_ignored(cache),
    ensures
        holds_no_ignored(cycle(cache, files, root).0),
    decreases files.len(),
{
    if files.len() > 0 {
        lemma_cycle_stores_no_ignored(cache, files.drop_last(), root);
        lemma_step_stores_no_ignored(cycle(cache, files.drop_last(), root).0, files.last(), root);
    }
}

/// The aggregate diff is empty exactly when the cycle left the store as it
/// was: a block is added whenever a snapshot is set, and only then.
pub proof fn lemma_empty_cycle_changes_nothing(
    cache: Map<Seq<char>, SnapshotView>,
    files: Seq<FileReadingView>,
    root: Seq<char>,
)
    requires
        cycle(cache, files, root).1.len() == 0,
    ensures
        cycle(cache, files, root).0 == cache,
    decreases files.len(),
{
    if files.len() > 0 {
        lemma_empty_cycle_changes_nothing(cache, files.drop_last(), root);
    }
}

/// The block for a file: `File: `, the quoted path, a line feed, the diff,
/// and a line feed.
pub fn labeled_block(quoted_path: &str, diff: &str) -> (block: String)
    ensures
        block@ == labeled_block_text(quoted_path@, diff@),
{
    let mut block = String::new();
    block.append("File: ");
    block.append(quoted_path);
    block.push('\n');
    block.append(diff);
    block.push('\n');
    proof {
        assert(block@ =~= labeled_block_text(quoted_path@, diff@));
    }
    block
}

/// Diffs one file that was read against the store. Returns its block for the
/// aggregate diff, which is empty where the file changes nothing, and sets
/// its snapshot where the block is not empty.
pub fn process_file(cache: &mut Cache, file: &FileReading, root: &str) -> (block: String)
    ensures
        (final(cache)@, block@) == cycle_step(old(cache)@, file@, root@),
{
    let current = match &file.snapshot {
        Some(current) => current,
        None => {
            return String::new();
        },
    };
    if should_ignore(file.path.as_str()) {
        return String::new();
    }
    let key = normalize_path(file.path.as_str(), root);
    let diff = match cache.get_snapshot(key.as_str()) {
        Some(prior) => calculate_diff(prior.content.as_str(), current.content.as_str()),
        None => new_file_diff(current.content.as_str()),
    };
    if diff.as_str().is_empty() {
        return String::new();
    }
    let label = quoted(key.as_str());
    let block = labeled_block(label.as_str(), diff.as_str());
    cache.update_snapshot(key.as_str(), current.content.clone(), current.modified);
    block
}

/// Runs one cycle over the files that were read: each is diffed against the
/// store in turn. Returns the aggregate diff; the store then holds the new
/// content of every file that has a block in it.
pub fn process_changes(cache: &mut Cache, files: &Vec<FileReading>, root: &str) -> (diff: String)
    ensures
        (final(cache)@, diff@) == cycle(old(cache)@, files.deep_view(), root@),
{
    let ghost all = files.deep_view();
    let mut diff = String::new();
    let mut i: usize = 0;
    while i < files.len()
        invariant
            i <= files.len(),
            all == files.deep_view(),
            (cache@, diff@) == cycle(old(cache)@, all.take(i as int), root@),
        decreases files.len() - i,
    {
        proof {
            let next = all.take(i + 1);
            assert(next.drop_last() == all.take(i as int));
            assert(next.last() == files[i as int]@);
        }
        let block = process_file(cache, &files[i], root);
        diff.append(block.as_str());
        i += 1;
    }
    proof {
        assert(all.take(i as int) == all);
    }
    diff
}

/// The store after one more file of the baseline: a file that was read and
/// is not excluded gets its snapshot, under its stored path.
pub open spec fn baseline_step(
    cache: Map<Seq<char>, SnapshotView>,
    file: FileReadingView,
    root: Seq<char>,
) -> Map<Seq<char>, SnapshotView> {
    match file.snapshot {
        Some(current) if !ignored(file.path) => cache.insert(normalized(file.path, root), current),
        _ => cache,
    }
}

/// The baseline: the store that holds the files as they were found, a later
/// file of the same stored path in place of an earlier one.
pub open spec fn baseline(files: Seq<FileReadingView>, root: Seq<char>) -> Map<
    Seq<char>,
    SnapshotView,
>
    decreases files.len(),
{
    if files.len() == 0 {
        Map::empty()
    } else {
        baseline_step(baseline(files.drop_last(), root), files.last(), root)
    }
}

/// The baseline holds no excluded path.
pub proof fn lemma_baseline_holds_no_ignored(files: Seq<FileReadingView>, root: Seq<char>)
    ensures
        holds_no_ignored(baseline(files, root)),
    decreases files.len(),
{
    if files.len() > 0 {
        lemma_baseline_holds_no_ignored(files.drop_last(), root);
        if !ignored(files.last().path) {
            lemma_normalized_stays_eligible(files.last().path, root);
        }
    }
}

/// Builds the baseline from the files found under the watched directory
/// `root`, each with what was read of it.
pub fn initialize_cache(files: &Vec<FileReading>, root: &str) -> (cache: Cache)
    ensures
        cache@ == baseline(files.deep_view(), root@),
        holds_no_ignored(cache@),
{
    let ghost all = files.deep_view();
    let mut cache = Cache::new();
    let mut i: usize = 0;
    while i < files.len()
        invariant
            i <= files.len(),
            all == files.deep_view(),
            cache@ == baseline(all.take(i as int), root@),
        decreases files.len() - i,
    {
        proof {
            let next = all.take(i + 1);
            assert(next.drop_last() == all.take(i as int));
            assert(next.last() == files[i as int]@);
        }
        let file = &files[i];
        match &file.snapshot {
            Some(current) => {
                if !should_ignore(file.path.as_str()) {
                    let key = normalize_path(file.path.as_str(), root);
                    cache.update_snapshot(key.as_str(), current.content.clone(), current.modified);
                }
            },
            None => {},
        }
        i += 1;
    }
    proof {
        assert(all.take(i as int) == all);
        lemma_baseline_holds_no_ignored(all, root@);
    }
    cache
}

} // verus!
