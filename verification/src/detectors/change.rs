//! File-level changes between two revisions.
use vstd::prelude::*;
use vstd::string::StringExecFns;
use crate::ir::file::FileAnalysis;
use crate::order::{insert_unique, strictly_sorted, strings_of};
use crate::text::str_eq;

verus! {

/// A file that changed, by its path.
#[derive(Debug, PartialEq, Eq)]
pub struct FileChange {
    pub path: String,
}

impl Clone for FileChange {
    fn clone(&self) -> (res: Self)
        ensures
            res == *self,
    {
        FileChange { path: self.path.clone() }
    }
}

/// The files added, removed and modified between two revisions, each list
/// in path order.
#[derive(Debug, PartialEq, Eq)]
pub struct ChangeSet {
    pub added: Vec<FileChange>,
    pub removed: Vec<FileChange>,
    pub modified: Vec<FileChange>,
}

/// The paths of a list of file changes.
pub open spec fn change_paths(v: Seq<FileChange>) -> Seq<Seq<char>> {
    v.map_values(|c: FileChange| c.path@)
}

/// Some file of `files` has path `p`.
pub open spec fn has_path(files: Seq<FileAnalysis>, p: Seq<char>) -> bool {
    exists|i: int| 0 <= i < files.len() && (#[trigger] files[i]).path@ == p
}

/// The index of the last of the first `n` files with path `p`, or -1.
pub open spec fn last_with_path(files: Seq<FileAnalysis>, p: Seq<char>, n: int) -> int
    decreases n,
{
    if n <= 0 {
        -1
    } else if files[n - 1].path@ == p {
        n - 1
    } else {
        last_with_path(files, p, n - 1)
    }
}

/// The file that stands for path `p` when files are looked up by path: the
/// last one with that path.
pub open spec fn file_at(files: Seq<FileAnalysis>, p: Seq<char>) -> FileAnalysis {
    files[last_with_path(files, p, files.len() as int)]
}

/// Two analyses have the same lexical, token and syntax fingerprints.
pub open spec fn same_content_spec(left: FileAnalysis, right: FileAnalysis) -> bool {
    &&& left.lexical_hash == right.lexical_hash
    &&& left.token_hash == right.token_hash
    &&& left.ast_hash == right.ast_hash
}

/// Path `p` is in the head revision and not in the base.
pub open spec fn is_added(base: Seq<FileAnalysis>, head: Seq<FileAnalysis>, p: Seq<char>) -> bool {
    has_path(head, p) && !has_path(base, p)
}

/// Path `p` is in the base revision and not in the head.
pub open spec fn is_removed(base: Seq<FileAnalysis>, head: Seq<FileAnalysis>, p: Seq<char>) -> bool {
    has_path(base, p) && !has_path(head, p)
}

/// Path `p` is in both revisions, with different fingerprints.
pub open spec fn is_modified(base: Seq<FileAnalysis>, head: Seq<FileAnalysis>, p: Seq<char>) -> bool {
    &&& has_path(head, p)
    &&& has_path(base, p)
    &&& !same_content_spec(file_at(base, p), file_at(head, p))
}

/// The bounds of `last_with_path`: -1 exactly when no file has the path.
pub proof fn lemma_last_with_path(files: Seq<FileAnalysis>, p: Seq<char>, n: int)
    requires
        0 <= n <= files.len(),
    ensures
        -1 <= last_with_path(files, p, n) < n,
        last_with_path(files, p, n) >= 0 ==> files[last_with_path(files, p, n)].path@ == p,
        last_with_path(files, p, n) == -1 <==> forall|i: int| 0 <= i < n ==> (#[trigger] files[i]).path@ != p,
    decreases n,
{
    if n > 0 {
        lemma_last_with_path(files, p, n - 1);
    }
}

/// The index of the last file with path `p`, if any.
pub fn find_path(files: &[FileAnalysis], p: &str) -> (res: Option<usize>)
    ensures
        match res {
            Some(i) => i as int == last_with_path(files@, p@, files.len() as int) && has_path(files@, p@)
                && i < files.len(),
            None => !has_path(files@, p@),
        },
{
    let mut i: usize = files.len();
    while i > 0
        invariant
            i <= files.len(),
            last_with_path(files@, p@, files.len() as int) == last_with_path(files@, p@, i as int),
        decreases i,
    {
        if str_eq(files[i - 1].path.as_str(), p) {
            assert(files@[i - 1].path@ == p@);
            return Some(i - 1);
        }
        i = i - 1;
    }
    proof { lemma_last_with_path(files@, p@, files.len() as int); }
    None
}

fn opt_u64_eq(a: Option<u64>, b: Option<u64>) -> (res: bool)
    ensures
        res == (a == b),
{
    match (a, b) {
        (Some(x), Some(y)) => x == y,
        (None, None) => true,
        _ => false,
    }
}

/// Whether two analyses have the same lexical, token and syntax fingerprints.
pub fn same_content(left: &FileAnalysis, right: &FileAnalysis) -> (res: bool)
    ensures
        res == same_content_spec(*left, *right),
{
    opt_u64_eq(left.lexical_hash, right.lexical_hash) && opt_u64_eq(left.token_hash, right.token_hash)
        && opt_u64_eq(left.ast_hash, right.ast_hash)
}

/// File changes for the given paths.
pub fn changes_of(paths: Vec<String>) -> (res: Vec<FileChange>)
    ensures
        change_paths(res@) == strings_of(paths@),
{
    let mut res: Vec<FileChange> = Vec::new();
    let ghost all = strings_of(paths@);
    let mut i: usize = 0;
    let n = paths.len();
    while i < n
        invariant
            n == paths.len(),
            i <= n,
            all == strings_of(paths@),
            res.len() == i,
            change_paths(res@) == all.take(i as int),
        decreases n - i,
    {
        let path = paths[i].clone();
        assert(all[i as int] == paths@[i as int]@);
        let ghost before = res@;
        res.push(FileChange { path });
        assert(res@[i as int].path@ == all[i as int]);
        assert(res@ == before.push(res@[i as int]));
        assert(change_paths(res@).len() == i + 1);
        assert forall|k: int| 0 <= k < i + 1 implies change_paths(res@)[k] == all.take(i + 1)[k] by {
            if k < i {
                assert(change_paths(before)[k] == all.take(i as int)[k]);
            }
        }
        assert(change_paths(res@) =~= all.take(i + 1));
        i = i + 1;
    }
    assert(all.take(n as int) =~= all);
    res
}

/// Some file among the first `n` has path `q`.
pub open spec fn path_among(files: Seq<FileAnalysis>, n: int, q: Seq<char>) -> bool {
    exists|j: int| 0 <= j < n && (#[trigger] files[j]).path@ == q
}

proof fn lemma_path_among_step(files: Seq<FileAnalysis>, n: int)
    requires
        0 <= n < files.len(),
    ensures
        forall|q: Seq<char>| #[trigger] path_among(files, n + 1, q) <==> (path_among(files, n, q) || files[n].path@ == q),
{
    assert forall|q: Seq<char>| #[trigger] path_among(files, n + 1, q) <==> (path_among(files, n, q) || files[n].path@ == q) by {
        if path_among(files, n + 1, q) {
            let j = choose|j: int| 0 <= j < n + 1 && (#[trigger] files[j]).path@ == q;
            if j < n {
                assert(path_among(files, n, q));
            }
        }
        if files[n].path@ == q {
            assert(files[n].path@ == q);
        }
    }
}

/// The files added, removed and modified from `base` to `head`, each list in
/// path order with each path once. A path stands for the last file that has
/// it; a file is modified when its lexical, token or syntax fingerprint
/// differs.
pub fn diff_files(base: &[FileAnalysis], head: &[FileAnalysis]) -> (res: ChangeSet)
    ensures
        strictly_sorted(change_paths(res.added@)),
        strictly_sorted(change_paths(res.removed@)),
        strictly_sorted(change_paths(res.modified@)),
        forall|p: Seq<char>| change_paths(res.added@).contains(p) <==> is_added(base@, head@, p),
        forall|p: Seq<char>| change_paths(res.removed@).contains(p) <==> is_removed(base@, head@, p),
        forall|p: Seq<char>| change_paths(res.modified@).contains(p) <==> is_modified(base@, head@, p),
{
    let mut added: Vec<String> = Vec::new();
    let mut modified: Vec<String> = Vec::new();
    let mut i: usize = 0;
    while i < head.len()
        invariant
            i <= head.len(),
            strictly_sorted(strings_of(added@)),
            strictly_sorted(strings_of(modified@)),
            forall|q: Seq<char>| #[trigger] strings_of(added@).contains(q) <==>
                path_among(head@, i as int, q) && !has_path(base@, q),
            forall|q: Seq<char>| #[trigger] strings_of(modified@).contains(q) <==>
                path_among(head@, i as int, q) && has_path(base@, q)
                    && !same_content_spec(file_at(base@, q), file_at(head@, q)),
        decreases head.len() - i,
    {
        let p = head[i].path.as_str();
        let ghost pv = p@;
        let ghost old_added = strings_of(added@);
        let ghost old_modified = strings_of(modified@);
        proof { lemma_path_among_step(head@, i as int); }
        assert(head@[i as int].path@ == pv);
        match find_path(base, p) {
            None => {
                insert_unique(&mut added, String::from_str(p));
                assert forall|q: Seq<char>| strings_of(added@).contains(q) <==>
                    path_among(head@, i + 1, q) && !has_path(base@, q) by {
                    assert(strings_of(added@).contains(q) <==> (old_added.contains(q) || q == pv));
                    assert(path_among(head@, i + 1, q) <==> (path_among(head@, i as int, q) || q == pv));
                    assert(old_added.contains(q) <==> (path_among(head@, i as int, q) && !has_path(base@, q)));
                    assert(q == pv ==> !has_path(base@, q));
                }
                assert forall|q: Seq<char>| strings_of(modified@).contains(q) <==>
                    path_among(head@, i + 1, q) && has_path(base@, q)
                        && !same_content_spec(file_at(base@, q), file_at(head@, q)) by {
                    assert(path_among(head@, i + 1, q) <==> (path_among(head@, i as int, q) || q == pv));
                }
            },
            Some(b) => {
                assert(has_path(head@, pv));
                let h = find_path(head, p).unwrap();
                let changed = !same_content(&base[b], &head[h]);
                if changed {
                    insert_unique(&mut modified, String::from_str(p));
                }
                assert forall|q: Seq<char>| strings_of(added@).contains(q) <==>
                    path_among(head@, i + 1, q) && !has_path(base@, q) by {
                    assert(path_among(head@, i + 1, q) <==> (path_among(head@, i as int, q) || q == pv));
                }
                assert forall|q: Seq<char>| strings_of(modified@).contains(q) <==>
                    path_among(head@, i + 1, q) && has_path(base@, q)
                        && !same_content_spec(file_at(base@, q), file_at(head@, q)) by {
                    assert(path_among(head@, i + 1, q) <==> (path_among(head@, i as int, q) || q == pv));
                    if changed {
                        assert(strings_of(modified@).contains(q) <==> (old_modified.contains(q) || q == pv));
                    }
                }
            },
        }
        i = i + 1;
    }
    let mut removed: Vec<String> = Vec::new();
    let mut i: usize = 0;
    while i < base.len()
        invariant
            i <= base.len(),
            strictly_sorted(strings_of(removed@)),
            forall|q: Seq<char>| #[trigger] strings_of(removed@).contains(q) <==>
                path_among(base@, i as int, q) && !has_path(head@, q),
        decreases base.len() - i,
    {
        let p = base[i].path.as_str();
        let ghost pv = p@;
        let ghost old_removed = strings_of(removed@);
        proof { lemma_path_among_step(base@, i as int); }
        assert(base@[i as int].path@ == pv);
        let missing = find_path(head, p).is_none();
        if missing {
            insert_unique(&mut removed, String::from_str(p));
        }
        assert forall|q: Seq<char>| strings_of(removed@).contains(q) <==>
            path_among(base@, i + 1, q) && !has_path(head@, q) by {
            assert(path_among(base@, i + 1, q) <==> (path_among(base@, i as int, q) || q == pv));
            if missing {
                assert(strings_of(removed@).contains(q) <==> (old_removed.contains(q) || q == pv));
            }
        }
        i = i + 1;
    }
    assert(forall|q: Seq<char>| path_among(head@, head.len() as int, q) <==> has_path(head@, q));
    assert(forall|q: Seq<char>| path_among(base@, base.len() as int, q) <==> has_path(base@, q));
    ChangeSet { added: changes_of(added), removed: changes_of(removed), modified: changes_of(modified) }
}

/// Diffing a revision with itself finds no added, removed or modified file.
pub proof fn lemma_diff_files_of_same(files: Seq<FileAnalysis>)
    ensures
        forall|p: Seq<char>| !is_added(files, files, p) && !is_removed(files, files, p) && !is_modified(files, files, p),
{
}

/// Diffing the other way round swaps the added and the removed paths and
/// keeps the modified ones.
pub proof fn lemma_diff_files_swapped(base: Seq<FileAnalysis>, head: Seq<FileAnalysis>)
    ensures
        forall|p: Seq<char>| #[trigger] is_added(base, head, p) <==> is_removed(head, base, p),
        forall|p: Seq<char>| #[trigger] is_removed(base, head, p) <==> is_added(head, base, p),
        forall|p: Seq<char>| #[trigger] is_modified(base, head, p) <==> is_modified(head, base, p),
{
}

/// No two files share a path.
pub open spec fn unique_paths(files: Seq<FileAnalysis>) -> bool {
    forall|i: int, j: int| 0 <= i < j < files.len() ==> (#[trigger] files[i]).path@ != (#[trigger] files[j]).path@
}

/// With unique paths, a file is the one that stands for its path.
pub proof fn lemma_file_at_unique(files: Seq<FileAnalysis>, i: int, n: int)
    requires
        unique_paths(files),
        0 <= i < n <= files.len(),
    ensures
        last_with_path(files, files[i].path@, n) == i,
    decreases n,
{
    if n - 1 > i {
        assert(files[i].path@ != files[n - 1].path@);
        lemma_file_at_unique(files, i, n - 1);
    }
}

} // verus!
