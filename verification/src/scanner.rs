//! The directory scanner's rules: what to do with each entry that a walk of
//! the watched directory comes upon.

use vstd::prelude::*;
use crate::paths::{ignored, should_ignore};

verus! {

/// What the file system says an entry is.
#[derive(Clone, Copy, Debug, PartialEq, Eq, Structural)]
pub enum EntryKind {
    /// A regular file.
    File,
    /// A directory.
    Directory,
    /// Anything else: a symbolic link, a device, an entry that cannot be
    /// looked at.
    Other,
}

/// What the walk does with an entry.
#[derive(Clone, Copy, Debug, PartialEq, Eq, Structural)]
pub enum ScanStep {
    /// Track the file.
    Track,
    /// Walk the directory.
    Descend,
    /// Pass over the entry.
    Skip,
}

/// One entry of a directory.
#[derive(Debug)]
pub struct ScanEntry {
    pub path: String,
    pub kind: EntryKind,
}

/// What a `ScanEntry` stands for.
pub struct ScanEntryView {
    pub path: Seq<char>,
    pub kind: EntryKind,
}

impl View for ScanEntry {
    type V = ScanEntryView;

    open spec fn view(&self) -> ScanEntryView {
        ScanEntryView { path: self.path@, kind: self.kind }
    }
}

impl DeepView for ScanEntry {
    type V = ScanEntryView;

    open spec fn deep_view(&self) -> ScanEntryView {
        self@
    }
}

/// The rule for one entry: an excluded path is passed over, whatever it is;
/// of the others a file is tracked and a directory walked.
pub open spec fn scan_rule(path: Seq<char>, kind: EntryKind) -> ScanStep {
    if ignored(path) {
        ScanStep::Skip
    } else {
        match kind {
            EntryKind::File => ScanStep::Track,
            EntryKind::Directory => ScanStep::Descend,
            EntryKind::Other => ScanStep::Skip,
        }
    }
}

/// The paths among `entries` for which the rule gives `step`, in their order.
pub open spec fn chosen(entries: Seq<ScanEntryView>, step: ScanStep) -> Seq<Seq<char>>
    decreases entries.len(),
{
    if entries.len() == 0 {
        Seq::empty()
    } else if scan_rule(entries.last().path, entries.last().kind) == step {
        chosen(entries.drop_last(), step).push(entries.last().path)
    } else {
        chosen(entries.drop_last(), step)
    }
}

/// No excluded path is tracked or walked.
pub proof fn lemma_chosen_not_ignored(entries: Seq<ScanEntryView>, step: ScanStep, i: int)
    requires
        step != ScanStep::Skip,
        0 <= i < chosen(entries, step).len(),
    ensures
        !ignored(chosen(entries, step)[i]),
    decreases entries.len(),
{
    if entries.len() > 0 {
        let rest = chosen(entries.drop_last(), step);
        if i < rest.len() {
            lemma_chosen_not_ignored(entries.drop_last(), step, i);
        }
    }
}

/// What to do with the entry `path` of kind `kind`.
pub fn scan_step(path: &str, kind: EntryKind) -> (step: ScanStep)
    ensures
        step == scan_rule(path@, kind),
{
    if should_ignore(path) {
        ScanStep::Skip
    } else {
        match kind {
            EntryKind::File => ScanStep::Track,
            EntryKind::Directory => ScanStep::Descend,
            EntryKind::Other => ScanStep::Skip,
        }
    }
}

/// Goes over the entries of one directory: the files to track are added to
/// `files`, and the directories to walk are returned.
pub fn collect_files(entries: &Vec<ScanEntry>, files: &mut Vec<String>) -> (dirs: Vec<String>)
    ensures
        final(files).deep_view() == old(files).deep_view() + chosen(
            entries.deep_view(),
            ScanStep::Track,
        ),
        dirs.deep_view() == chosen(entries.deep_view(), ScanStep::Descend),
{
    let ghost all = entries.deep_view();
    let ghost start = files.deep_view();
    let mut dirs: Vec<String> = Vec::new();
    let mut i: usize = 0;
    proof {
        assert(dirs.deep_view() =~= Seq::<Seq<char>>::empty());
        assert(start + Seq::<Seq<char>>::empty() =~= start);
    }
    while i < entries.len()
        invariant
            i <= entries.len(),
            all == entries.deep_view(),
            files.deep_view() == start + chosen(all.take(i as int), ScanStep::Track),
            dirs.deep_view() == chosen(all.take(i as int), ScanStep::Descend),
        decreases entries.len() - i,
    {
        proof {
            let next = all.take(i + 1);
            assert(next.drop_last() == all.take(i as int));
            assert(next.last() == entries[i as int]@);
        }
        let entry = &entries[i];
        let ghost kept = files.deep_view();
        let ghost walked = dirs.deep_view();
        match scan_step(entry.path.as_str(), entry.kind) {
            ScanStep::Track => {
                files.push(entry.path.clone());
                proof {
                    assert(files.deep_view() =~= kept.push(entry.path@));
                    assert(files.deep_view() =~= start + chosen(all.take(i + 1), ScanStep::Track));
                }
            },
            ScanStep::Descend => {
                dirs.push(entry.path.clone());
                proof {
                    assert(dirs.deep_view() =~= walked.push(entry.path@));
                }
            },
            ScanStep::Skip => {},
        }
        i += 1;
    }
    proof {
        assert(all.take(i as int) == all);
    }
    dirs
}

} // verus!
