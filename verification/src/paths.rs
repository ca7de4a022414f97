//! Path rules: which paths are excluded from tracking, and the form under
//! which a tracked path is stored.
//!
//! A path is text whose components are separated by `/`.

use vstd::prelude::*;
use crate::text::{append_chars, chars_of, same_start};

verus! {

/// Name of the file that holds the persisted snapshots.
pub const CACHE_FILE: &'static str = ".file_watcher_cache.json";

/// Name of the changelog document.
pub const CHANGELOG_FILE: &'static str = "README.md";

/// The names that exclude a path: build output, version-control metadata,
/// dependency directories, caches, the persisted snapshots and the changelog.
pub open spec fn is_ignore_name(name: Seq<char>) -> bool {
    ||| name == "target"@
    ||| name == ".git"@
    ||| name == "node_modules"@
    ||| name == ".cache"@
    ||| name == ".file_watcher_cache.json"@
    ||| name == "README.md"@
}

/// `path[from..to]` is one whole component of `path`: it has a separator or
/// an end of the path on both sides, and no separator inside.
pub open spec fn is_component(path: Seq<char>, from: int, to: int) -> bool {
    &&& 0 <= from <= to <= path.len()
    &&& (from == 0 || path[from - 1] == '/')
    &&& (to == path.len() || path[to] == '/')
    &&& forall|k: int| from <= k < to ==> path[k] != '/'
}

/// `path` is excluded: one of its components is an ignore name.
pub open spec fn ignored(path: Seq<char>) -> bool {
    exists|from: int, to: int| #[trigger]
        is_component(path, from, to) && is_ignore_name(path.subrange(from, to))
}

/// `path` starts at the root of the file system.
pub open spec fn is_absolute(path: Seq<char>) -> bool {
    path.len() > 0 && path[0] == '/'
}

/// `root` with a separator at its end.
pub open spec fn as_directory(root: Seq<char>) -> Seq<char> {
    if root.len() > 0 && root.last() == '/' {
        root
    } else {
        root.push('/')
    }
}

/// The form under which `path` is stored: an absolute path at or below the
/// absolute `root` becomes `./` and what follows the root; any other path
/// stays as it is.
pub open spec fn normalized(path: Seq<char>, root: Seq<char>) -> Seq<char> {
    let dir = as_directory(root);
    if !is_absolute(path) || !is_absolute(root) {
        path
    } else if dir.is_prefix_of(path) {
        seq!['.', '/'] + path.skip(dir.len() as int)
    } else if path.push('/') == dir {
        seq!['.', '/']
    } else {
        path
    }
}

/// An ignore name has at least four characters, and no separator among them.
pub proof fn lemma_ignore_name_shape(name: Seq<char>)
    requires
        is_ignore_name(name),
    ensures
        name.len() >= 4,
        !name.contains('/'),
{
    reveal_strlit("target");
    reveal_strlit(".git");
    reveal_strlit("node_modules");
    reveal_strlit(".cache");
    reveal_strlit(".file_watcher_cache.json");
    reveal_strlit("README.md");
    assert forall|k: int| 0 <= k < name.len() implies name[k] != '/' by {}
}

/// Two components that end at the same place are the same component.
pub proof fn lemma_component_by_end(path: Seq<char>, from: int, other: int, to: int)
    requires
        is_component(path, from, to),
        is_component(path, other, to),
    ensures
        from == other,
{
    if from < other {
        assert(path[other - 1] == '/');
    } else if other < from {
        assert(path[from - 1] == '/');
    }
}

/// Whatever lies below an excluded directory is excluded.
pub proof fn lemma_ignored_below(dir: Seq<char>, rest: Seq<char>)
    requires
        ignored(dir),
    ensures
        ignored(dir + seq!['/'] + rest),
{
    let (from, to) = choose|from: int, to: int| #[trigger]
        is_component(dir, from, to) && is_ignore_name(dir.subrange(from, to));
    let full = dir + seq!['/'] + rest;
    assert(full.subrange(from, to) == dir.subrange(from, to));
    assert(is_component(full, from, to)) by {
        assert forall|k: int| from <= k < to implies full[k] != '/' by {
            assert(full[k] == dir[k]);
        }
        if from > 0 {
            assert(full[from - 1] == dir[from - 1]);
        }
        if to < dir.len() {
            assert(full[to] == dir[to]);
        } else {
            assert(full[to] == '/');
        }
    }
}

/// An entry with an ignore name is excluded, alone and in whatever
/// directory.
pub proof fn lemma_ignored_by_name(dir: Seq<char>, name: Seq<char>)
    requires
        is_ignore_name(name),
    ensures
        ignored(name),
        ignored(dir + seq!['/'] + name),
{
    lemma_ignore_name_shape(name);
    assert(ignored(name)) by {
        assert(name.subrange(0, name.len() as int) == name);
        assert(is_component(name, 0, name.len() as int)) by {
            assert forall|k: int| 0 <= k < name.len() implies name[k] != '/' by {
                assert(name.contains(name[k]));
            }
        }
    }
    let full = dir + seq!['/'] + name;
    let from: int = dir.len() as int + 1;
    let to: int = full.len() as int;
    assert(full.subrange(from, to) == name);
    assert(is_component(full, from, to)) by {
        assert(full[from - 1] == '/');
        assert forall|k: int| from <= k < to implies full[k] != '/' by {
            assert(full[k] == name[k - from]);
            assert(name.contains(name[k - from]));
        }
    }
}

/// A path that is not excluded is not excluded in its stored form either.
pub proof fn lemma_normalized_stays_eligible(path: Seq<char>, root: Seq<char>)
    requires
        !ignored(path),
    ensures
        !ignored(normalized(path, root)),
{
    let stored = normalized(path, root);
    if stored != path {
        let dir = as_directory(root);
        let shift = dir.len() as int - 2;
        assert forall|from: int, to: int| #[trigger]
            is_component(stored, from, to) implies !is_ignore_name(stored.subrange(from, to)) by {
            let name = stored.subrange(from, to);
            if is_ignore_name(name) {
                lemma_ignore_name_shape(name);
                assert(stored[0] == '.');
                assert(stored[1] == '/');
                if from < 2 {
                    if from == 0 {
                        assert(to <= 1);
                    }
                    assert(false);
                } else {
                    assert(dir.is_prefix_of(path));
                    assert(path[dir.len() - 1] == dir[dir.len() - 1]);
                    assert(path.subrange(from + shift, to + shift) == name);
                    assert(is_component(path, from + shift, to + shift)) by {
                        assert forall|k: int| from + shift <= k < to + shift implies path[k]
                            != '/' by {
                            assert(path[k] == stored[k - shift]);
                        }
                        if to < stored.len() {
                            assert(path[to + shift] == stored[to]);
                        }
                        if from > 2 {
                            assert(path[from + shift - 1] == stored[from - 1]);
                        }
                    }
                    assert(false);
                }
            }
        }
    }
}

/// True when `chars[from..to]` is `name`.
fn is_name(chars: &Vec<char>, from: usize, to: usize, name: &str) -> (same: bool)
    requires
        from <= to <= chars.len(),
    ensures
        same == (chars@.subrange(from as int, to as int) == name@),
{
    let expected = chars_of(name);
    if expected.len() != to - from {
        return false;
    }
    let mut k: usize = 0;
    while k < expected.len()
        invariant
            from <= to <= chars.len(),
            expected.len() == to - from,
            expected@ == name@,
            k <= expected.len(),
            forall|j: int| 0 <= j < k ==> chars[from + j] == expected[j],
        decreases expected.len() - k,
    {
        if chars[from + k] != expected[k] {
            proof {
                assert(chars@.subrange(from as int, to as int)[k as int] == chars[from + k]);
            }
            return false;
        }
        k += 1;
    }
    proof {
        assert(chars@.subrange(from as int, to as int) =~= expected@);
    }
    true
}

/// True when `chars[from..to]` is one of the ignore names.
fn is_ignored_name(chars: &Vec<char>, from: usize, to: usize) -> (found: bool)
    requires
        from <= to <= chars.len(),
    ensures
        found == is_ignore_name(chars@.subrange(from as int, to as int)),
{
    is_name(chars, from, to, "target") || is_name(chars, from, to, ".git") || is_name(
        chars,
        from,
        to,
        "node_modules",
    ) || is_name(chars, from, to, ".cache") || is_name(chars, from, to, CACHE_FILE) || is_name(
        chars,
        from,
        to,
        CHANGELOG_FILE,
    )
}

/// True when `path` is excluded from tracking: one of its components is an
/// ignore name.
pub fn should_ignore(path: &str) -> (ignore: bool)
    ensures
        ignore == ignored(path@),
{
    let chars = chars_of(path);
    let mut start: usize = 0;
    let mut i: usize = 0;
    loop
        invariant
            chars@ == path@,
            start <= i <= chars.len(),
            start == 0 || chars[start - 1] == '/',
            forall|k: int| start <= k < i ==> chars[k] != '/',
            forall|from: int, to: int| #[trigger]
                is_component(chars@, from, to) && to < start ==> !is_ignore_name(
                    chars@.subrange(from, to),
                ),
        decreases chars.len() - i,
    {
        if i == chars.len() || chars[i] == '/' {
            proof {
                assert(is_component(chars@, start as int, i as int));
            }
            if is_ignored_name(&chars, start, i) {
                return true;
            }
            proof {
                assert forall|from: int, to: int| #[trigger]
                    is_component(chars@, from, to) && to <= i implies !is_ignore_name(
                    chars@.subrange(from, to),
                ) by {
                    if to >= start {
                        if to < i {
                            assert(chars[to] != '/');
                        } else {
                            lemma_component_by_end(chars@, from, start as int, to);
                        }
                    }
                }
            }
            if i == chars.len() {
                return false;
            }
            start = i + 1;
        }
        i += 1;
    }
}

/// The form under which `path` is stored, for the watched directory `root`:
/// an absolute path at or below the absolute `root` becomes `./` and what
/// follows the root; any other path is returned as it is.
pub fn normalize_path(path: &str, root: &str) -> (stored: String)
    ensures
        stored@ == normalized(path@, root@),
{
    let p = chars_of(path);
    let r = chars_of(root);
    if p.len() == 0 || p[0] != '/' || r.len() == 0 || r[0] != '/' {
        return path.to_owned();
    }
    let n = r.len();
    let ghost dir = as_directory(root@);
    let mut stored = String::new();
    stored.push('.');
    stored.push('/');
    proof {
        assert(stored@ == seq!['.', '/']);
    }
    if r[n - 1] == '/' {
        if n <= p.len() && same_start(&p, &r, n) {
            proof {
                assert(r@.take(n as int) == r@);
                assert(p@.subrange(0, dir.len() as int) == p@.take(n as int));
                assert(p@.subrange(n as int, p.len() as int) == p@.skip(n as int));
            }
            append_chars(&mut stored, &p, n, p.len());
            return stored;
        }
        proof {
            if dir.is_prefix_of(p@) {
                assert(p@.subrange(0, dir.len() as int) == p@.take(n as int));
                assert(r@.take(n as int) == r@);
            }
        }
        if p.len() == n - 1 && same_start(&p, &r, n - 1) {
            proof {
                assert(p@.take(n - 1) == p@);
                assert(p@.push('/') =~= r@);
            }
            return stored;
        }
        proof {
            if p@.push('/') == dir {
                assert(p@.take(n - 1) == p@);
                assert(r@.take(n - 1) =~= p@);
            }
        }
        path.to_owned()
    } else {
        if n < p.len() && p[n] == '/' && same_start(&p, &r, n) {
            proof {
                assert(r@.take(n as int) == r@);
                assert(p@.subrange(0, dir.len() as int) =~= dir);
                assert(p@.subrange(n + 1, p.len() as int) == p@.skip(n + 1));
            }
            append_chars(&mut stored, &p, n + 1, p.len());
            return stored;
        }
        proof {
            if dir.is_prefix_of(p@) {
                assert(p@.subrange(0, dir.len() as int) == dir);
                assert(p@[n as int] == dir[n as int]);
                assert(p@.take(n as int) =~= r@.take(n as int)) by {
                    assert forall|k: int| 0 <= k < n implies p@[k] == r@[k] by {
                        assert(p@[k] == dir[k]);
                    }
                }
            }
        }
        if p.len() == n && same_start(&p, &r, n) {
            proof {
                assert(p@.take(n as int) == p@);
                assert(r@.take(n as int) == r@);
            }
            return stored;
        }
        proof {
            if p@.push('/') == dir {
                assert(p@.len() == n);
                assert(p@ =~= r@) by {
                    assert forall|k: int| 0 <= k < n implies p@[k] == r@[k] by {
                        assert(p@.push('/')[k] == dir[k]);
                    }
                }
                assert(p@.take(n as int) == p@);
                assert(r@.take(n as int) == r@);
            }
        }
        path.to_owned()
    }
}

} // verus!
