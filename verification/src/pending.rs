//! The event coalescer: raw change notifications are filtered and gathered
//! into the set of paths that wait for the next cycle, with the time of the
//! last notification that counted.

use vstd::prelude::*;
use vstd::hash_set::StringHashSet;
use crate::paths::{ignored, should_ignore};

verus! {

/// What kind of change a notification reports.
#[derive(Clone, Copy, Debug, PartialEq, Eq, Structural)]
pub enum ChangeKind {
    /// Something changed, it is not known what.
    Any,
    /// A file was read or opened.
    Access,
    /// A file or directory was created.
    Create,
    /// Content, metadata or name was modified.
    Modify,
    /// A file or directory was removed.
    Remove,
    /// Anything else.
    Other,
}

/// One path of a notification, with what the file system says of it.
#[derive(Debug)]
pub struct ChangedPath {
    pub path: String,
    /// True when the path is a regular file at the time of the notification.
    pub is_file: bool,
}

/// What a `ChangedPath` stands for.
pub struct ChangedPathView {
    pub path: Seq<char>,
    pub is_file: bool,
}

impl View for ChangedPath {
    type V = ChangedPathView;

    open spec fn view(&self) -> ChangedPathView {
        ChangedPathView { path: self.path@, is_file: self.is_file }
    }
}

impl DeepView for ChangedPath {
    type V = ChangedPathView;

    open spec fn deep_view(&self) -> ChangedPathView {
        self@
    }
}

/// The paths that wait for processing, and the time of the last event that
/// added to them, in milliseconds.
pub struct PendingChanges {
    index: StringHashSet,
    paths: Vec<String>,
    last_event: u64,
}

/// What a `PendingChanges` stands for.
pub struct PendingView {
    pub paths: Set<Seq<char>>,
    pub last_event: u64,
}

/// Only creations and modifications count as changes.
pub open spec fn counts(kind: ChangeKind) -> bool {
    kind is Create || kind is Modify
}

/// A changed path is taken up when it is a regular file that is not excluded.
pub open spec fn eligible(changed: ChangedPathView) -> bool {
    changed.is_file && !ignored(changed.path)
}

/// The eligible paths among `changed`.
pub open spec fn eligible_paths(changed: Seq<ChangedPathView>) -> Set<Seq<char>> {
    Set::new(
        |path: Seq<char>|
            exists|i: int| 0 <= i < changed.len() && eligible(#[trigger] changed[i]) && changed[i].path == path,
    )
}

/// The pending set after a notification of `kind` for `changed` at `now`:
/// where the kind counts, the eligible paths join the set, and if there is
/// one the time of the last event becomes `now`.
pub open spec fn recorded(
    pending: PendingView,
    kind: ChangeKind,
    changed: Seq<ChangedPathView>,
    now: u64,
) -> PendingView {
    if counts(kind) {
        PendingView {
            paths: pending.paths.union(eligible_paths(changed)),
            last_event: if eligible_paths(changed).is_empty() {
                pending.last_event
            } else {
                now
            },
        }
    } else {
        pending
    }
}

/// Changes are pending and none has arrived for `window` milliseconds.
pub open spec fn quiescent(pending: PendingView, now: u64, window: u64) -> bool {
    &&& !pending.paths.is_empty()
    &&& pending.last_event <= now
    &&& now - pending.last_event >= window
}

/// No pending path is excluded.
pub open spec fn no_path_ignored(pending: PendingView) -> bool {
    forall|path: Seq<char>| pending.paths.contains(path) ==> !ignored(path)
}

/// A notification never brings an excluded path into the pending set.
pub proof fn lemma_recorded_has_no_ignored(
    pending: PendingView,
    kind: ChangeKind,
    changed: Seq<ChangedPathView>,
    now: u64,
)
    requires
        no_path_ignored(pending),
    ensures
        no_path_ignored(recorded(pending, kind, changed, now)),
{
}

impl View for PendingChanges {
    type V = PendingView;

    closed spec fn view(&self) -> PendingView {
        PendingView { paths: self.index@, last_event: self.last_event }
    }
}

impl PendingChanges {
    /// `paths` lists the members of `index`, each once, and none is excluded.
    #[verifier::type_invariant]
    spec fn wf(self) -> bool {
        &&& self.paths.deep_view().no_duplicates()
        &&& self.paths.deep_view().to_set() == self.index@
        &&& forall|i: int| 0 <= i < self.paths.len() ==> !ignored(#[trigger] self.paths[i]@)
    }

    /// Nothing pending.
    pub fn new() -> (pending: Self)
        ensures
            pending@.paths == Set::<Seq<char>>::empty(),
            pending@.last_event == 0,
    {
        Self::empty_at(0)
    }

    /// Nothing pending, with the last event at `last_event`.
    fn empty_at(last_event: u64) -> (pending: Self)
        ensures
            pending@.paths == Set::<Seq<char>>::empty(),
            pending@.last_event == last_event,
    {
        let index = StringHashSet::new();
        let paths: Vec<String> = Vec::new();
        proof {
            assert(paths.deep_view() =~= Seq::<Seq<char>>::empty());
            assert(paths.deep_view().to_set() =~= Set::<Seq<char>>::empty());
        }
        PendingChanges { index, paths, last_event }
    }

    /// True when nothing is pending.
    pub fn is_empty(&self) -> (empty: bool)
        ensures
            empty == self@.paths.is_empty(),
    {
        proof {
            use_type_invariant(self);
            if self.paths.len() > 0 {
                assert(self.paths.deep_view().to_set().contains(self.paths.deep_view()[0]));
            } else {
                assert(self.paths.deep_view().to_set() =~= Set::<Seq<char>>::empty());
            }
        }
        self.paths.len() == 0
    }

    /// True when `path` is pending.
    pub fn contains(&self, path: &str) -> (found: bool)
        ensures
            found == self@.paths.contains(path@),
            found ==> !ignored(path@),
    {
        proof {
            use_type_invariant(self);
            Self::lemma_listed(self.paths.deep_view(), self.index@);
        }
        self.index.contains(path)
    }

    /// The time of the last event that added to the set.
    pub fn last_event(&self) -> (at: u64)
        ensures
            at == self@.last_event,
    {
        self.last_event
    }

    /// Takes up a notification of `kind` for `changed`, received at `now`.
    pub fn record(&mut self, kind: ChangeKind, changed: &Vec<ChangedPath>, now: u64)
        ensures
            final(self)@ == recorded(old(self)@, kind, changed.deep_view(), now),
            no_path_ignored(final(self)@),
    {
        proof {
            use_type_invariant(&*self);
            Self::lemma_listed(self.paths.deep_view(), self.index@);
        }
        match kind {
            ChangeKind::Create | ChangeKind::Modify => {},
            _ => {
                return ;
            },
        }
        let mut taken = PendingChanges::new();
        std::mem::swap(self, &mut taken);
        let PendingChanges { mut index, mut paths, mut last_event } = taken;
        let ghost all = changed.deep_view();
        let ghost start = index@;
        let ghost start_time = last_event;
        let mut i: usize = 0;
        proof {
            assert(eligible_paths(all.take(0)) =~= Set::<Seq<char>>::empty());
            assert(start.union(Set::<Seq<char>>::empty()) =~= start);
        }
        while i < changed.len()
            invariant
                i <= changed.len(),
                all == changed.deep_view(),
                paths.deep_view().no_duplicates(),
                paths.deep_view().to_set() == index@,
                forall|k: int| 0 <= k < paths.len() ==> !ignored(#[trigger] paths[k]@),
                index@ == start.union(eligible_paths(all.take(i as int))),
                last_event == if eligible_paths(all.take(i as int)).is_empty() {
                    start_time
                } else {
                    now
                },
            decreases changed.len() - i,
        {
            let entry = &changed[i];
            let ghost so_far = eligible_paths(all.take(i as int));
            let ghost next = eligible_paths(all.take(i + 1));
            proof {
                assert(all.take(i + 1) == all.take(i as int).push(entry@));
                assert forall|p: Seq<char>| #[trigger]
                    next.contains(p) <==> so_far.contains(p) || (eligible(entry@) && entry@.path
                        == p) by {
                    if so_far.contains(p) {
                        let k = choose|k: int|
                            0 <= k < all.take(i as int).len() && eligible(
                                #[trigger] all.take(i as int)[k],
                            ) && all.take(i as int)[k].path == p;
                        assert(all.take(i + 1)[k] == all.take(i as int)[k]);
                    }
                    if eligible(entry@) && entry@.path == p {
                        assert(all.take(i + 1)[i as int] == entry@);
                    }
                    if next.contains(p) {
                        let k = choose|k: int|
                            0 <= k < all.take(i + 1).len() && eligible(
                                #[trigger] all.take(i + 1)[k],
                            ) && all.take(i + 1)[k].path == p;
                        if k < i {
                            assert(all.take(i as int)[k] == all.take(i + 1)[k]);
                        }
                    }
                }
            }
            if entry.is_file && !should_ignore(entry.path.as_str()) {
                let ghost before = paths.deep_view();
                if !index.contains(entry.path.as_str()) {
                    index.insert(entry.path.clone());
                    paths.push(entry.path.clone());
                    proof {
                        assert(paths.deep_view() == before.push(entry@.path));
                        assert(!before.contains(entry@.path));
                        assert(paths.deep_view().to_set() =~= index@) by {
                            assert forall|p: Seq<char>|
                                paths.deep_view().to_set().contains(p) <==> index@.contains(p) by {
                                if before.contains(p) {
                                    let k = choose|k: int| 0 <= k < before.len() && before[k] == p;
                                    assert(paths.deep_view()[k] == p);
                                }
                                if p == entry@.path {
                                    assert(paths.deep_view()[before.len() as int] == p);
                                }
                            }
                        }
                    }
                }
                last_event = now;
                proof {
                    assert(next.contains(entry@.path));
                    assert(index@ =~= start.union(next));
                }
            } else {
                proof {
                    assert(next =~= so_far);
                }
            }
            i += 1;
        }
        proof {
            assert(all.take(i as int) == all);
            Self::lemma_listed(paths.deep_view(), index@);
        }
        *self = PendingChanges { index, paths, last_event };
    }

    /// When no listed path is excluded, no member of their set is.
    proof fn lemma_listed(paths: Seq<Seq<char>>, index: Set<Seq<char>>)
        requires
            paths.to_set() == index,
            forall|i: int| 0 <= i < paths.len() ==> !ignored(#[trigger] paths[i]),
        ensures
            forall|path: Seq<char>| index.contains(path) ==> !ignored(path),
    {
        assert forall|path: Seq<char>| index.contains(path) implies !ignored(path) by {
            assert(paths.to_set().contains(path));
            let i = choose|i: int| 0 <= i < paths.len() && paths[i] == path;
            assert(!ignored(paths[i]));
        }
    }

    /// True when changes are pending and none has arrived for `window`
    /// milliseconds before `now`.
    pub fn is_quiescent(&self, now: u64, window: u64) -> (quiet: bool)
        ensures
            quiet == quiescent(self@, now, window),
    {
        !self.is_empty() && self.last_event <= now && now - self.last_event >= window
    }

    /// Hands out the pending paths, each once, and leaves the set empty.
    pub fn drain(&mut self) -> (paths: Vec<String>)
        ensures
            paths.deep_view().to_set() == old(self)@.paths,
            paths.deep_view().no_duplicates(),
            forall|i: int| 0 <= i < paths.len() ==> !ignored(#[trigger] paths[i]@),
            final(self)@.paths == Set::<Seq<char>>::empty(),
            final(self)@.last_event == old(self)@.last_event,
    {
        proof {
            use_type_invariant(&*self);
        }
        let mut taken = PendingChanges::new();
        std::mem::swap(self, &mut taken);
        let PendingChanges { index, paths, last_event } = taken;
        *self = Self::empty_at(last_event);
        paths
    }
}

} // verus!
