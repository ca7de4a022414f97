//! The snapshot store: the last known content of each tracked file.

use std::time::SystemTime;
use vstd::prelude::*;
use vstd::hash_map::StringHashMap;

verus! {

/// `std::time::SystemTime`, a point in time as the operating system reports it.
#[verifier::external_type_specification]
#[verifier::external_body]
pub struct ExSystemTime(SystemTime);

/// The last known state of one tracked file.
#[derive(Debug)]
pub struct FileSnapshot {
    /// The whole text of the file.
    pub content: String,
    /// When the file was last modified. Advisory: diffs go by content alone.
    pub modified: SystemTime,
}

/// What a `FileSnapshot` stands for.
pub struct SnapshotView {
    pub content: Seq<char>,
    pub modified: SystemTime,
}

impl View for FileSnapshot {
    type V = SnapshotView;

    open spec fn view(&self) -> SnapshotView {
        SnapshotView { content: self.content@, modified: self.modified }
    }
}

impl DeepView for FileSnapshot {
    type V = SnapshotView;

    open spec fn deep_view(&self) -> SnapshotView {
        self@
    }
}

impl Clone for FileSnapshot {
    fn clone(&self) -> (copy: Self)
        ensures
            copy == *self,
    {
        FileSnapshot { content: self.content.clone(), modified: self.modified }
    }
}

/// The snapshots of all tracked files, by stored path. Each path has at most
/// one snapshot, the most recent. A snapshot is replaced and never removed:
/// a file that is deleted keeps its last one.
pub struct Cache {
    snapshots: StringHashMap<FileSnapshot>,
    paths: Vec<String>,
}

impl View for Cache {
    type V = Map<Seq<char>, SnapshotView>;

    closed spec fn view(&self) -> Map<Seq<char>, SnapshotView> {
        self.snapshots@.map_values(|s: FileSnapshot| s@)
    }
}

impl Cache {
    /// `paths` lists the keys of `snapshots`, each once.
    #[verifier::type_invariant]
    spec fn wf(self) -> bool {
        &&& forall|i: int, j: int|
            0 <= i < j < self.paths.len() ==> self.paths[i]@ != self.paths[j]@
        &&& forall|k: Seq<char>|
            self.snapshots@.contains_key(k) <==> self.paths.deep_view().contains(k)
    }

    /// A store without snapshots.
    pub fn new() -> (cache: Self)
        ensures
            cache@ == Map::<Seq<char>, SnapshotView>::empty(),
    {
        let cache = Cache { snapshots: StringHashMap::new(), paths: Vec::new() };
        proof {
            assert(cache@ =~= Map::<Seq<char>, SnapshotView>::empty());
        }
        cache
    }

    /// Sets the snapshot of `path`, in place of the one it had, if any.
    pub fn update_snapshot(&mut self, path: &str, content: String, modified: SystemTime)
        ensures
            final(self)@ == old(self)@.insert(
                path@,
                SnapshotView { content: content@, modified },
            ),
    {
        proof {
            use_type_invariant(&*self);
        }
        let mut taken = Cache::new();
        std::mem::swap(self, &mut taken);
        let Cache { mut snapshots, mut paths } = taken;
        let ghost before = paths.deep_view();
        let ghost known = snapshots@;
        let ghost key = path@;
        assert(forall|k: Seq<char>| #[trigger] known.contains_key(k) <==> before.contains(k));
        assert(forall|i: int, j: int| 0 <= i < j < paths.len() ==> paths[i]@ != paths[j]@);
        if !snapshots.contains_key(path) {
            paths.push(path.to_owned());
            proof {
                assert(paths.deep_view() == before.push(key));
                assert forall|k: Seq<char>| #[trigger]
                    paths.deep_view().contains(k) <==> before.contains(k) || k == key by {
                    if before.contains(k) {
                        let i = choose|i: int| 0 <= i < before.len() && before[i] == k;
                        assert(paths.deep_view()[i] == k);
                    }
                    if k == key {
                        assert(paths.deep_view()[before.len() as int] == k);
                    }
                }
                assert forall|i: int, j: int| 0 <= i < j < paths.len() implies paths[i]@
                    != paths[j]@ by {
                    assert(paths[i]@ == before[i]);
                    if j < before.len() {
                        assert(paths[j]@ == before[j]);
                    } else {
                        assert(before.contains(before[i]));
                    }
                }
            }
        } else {
            proof {
                assert(known.contains_key(key));
                assert(before.contains(key));
            }
        }
        assert(forall|k: Seq<char>| #[trigger]
            paths.deep_view().contains(k) <==> before.contains(k) || k == key);
        let snapshot = FileSnapshot { content, modified };
        let ghost stored = snapshot@;
        snapshots.insert(path.to_owned(), snapshot);
        proof {
            assert forall|k: Seq<char>|
                snapshots@.contains_key(k) <==> paths.deep_view().contains(k) by {
                assert(snapshots@.contains_key(k) <==> known.contains_key(k) || k == key);
                assert(known.contains_key(k) <==> before.contains(k));
                assert(paths.deep_view().contains(k) <==> before.contains(k) || k == key);
            }
        }
        *self = Cache { snapshots, paths };
        proof {
            assert(self@ =~= old(self)@.insert(key, stored));
        }
    }

    /// The snapshot of `path`, if the store has one.
    pub fn get_snapshot(&self, path: &str) -> (found: Option<&FileSnapshot>)
        ensures
            match found {
                Some(snapshot) => self@.contains_key(path@) && snapshot@ == self@[path@],
                None => !self@.contains_key(path@),
            },
    {
        self.snapshots.get(path)
    }

    /// The stored paths, each once.
    pub fn paths(&self) -> (paths: Vec<String>)
        ensures
            paths.deep_view().to_set() == self@.dom(),
            paths.deep_view().no_duplicates(),
    {
        proof {
            use_type_invariant(self);
        }
        let paths = self.paths.clone();
        proof {
            assert(paths.deep_view() =~= self.paths.deep_view());
            assert(paths.deep_view().to_set() =~= self@.dom());
        }
        paths
    }
}

impl Default for Cache {
    fn default() -> (cache: Self)
        ensures
            cache@ == Map::<Seq<char>, SnapshotView>::empty(),
    {
        Cache::new()
    }
}

} // verus!
