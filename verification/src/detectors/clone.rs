//! Clone groups (files with the same fingerprint) and clone drift (groups
//! whose members no longer agree in the head revision).
use vstd::prelude::*;
use crate::detectors::change::{find_path, has_path, last_with_path, lemma_file_at_unique, lemma_last_with_path, unique_paths};
use crate::ir::file::FileAnalysis;
use crate::order::{increasing, insert_unique_u64, strings_of};

verus! {

/// Files that share a fingerprint, by path, in input order.
#[derive(Debug, PartialEq, Eq)]
pub struct CloneGroup {
    pub fingerprint: u64,
    pub members: Vec<String>,
}

/// A clone group of the base revision whose members changed unevenly.
#[derive(Debug, PartialEq, Eq)]
pub struct CloneDrift {
    pub fingerprint: u64,
    pub members: Vec<String>,
    pub changed_members: Vec<String>,
}

/// The fingerprint that groups files: the token fingerprint, or the lexical
/// one for exact clones.
pub open spec fn grouping_hash(f: FileAnalysis, lexical: bool) -> Option<u64> {
    if lexical {
        f.lexical_hash
    } else {
        f.token_hash
    }
}

/// The paths of the first `n` files whose grouping fingerprint is `fp`, in order.
pub open spec fn members_with(files: Seq<FileAnalysis>, fp: u64, lexical: bool, n: int) -> Seq<Seq<char>>
    decreases n,
{
    if n <= 0 {
        Seq::empty()
    } else {
        members_with(files, fp, lexical, n - 1)
            + (if grouping_hash(files[n - 1], lexical) == Some(fp) { seq![files[n - 1].path@] } else { Seq::empty() })
    }
}

/// Some group has fingerprint `fp`.
pub open spec fn has_group(groups: Seq<CloneGroup>, fp: u64) -> bool {
    exists|k: int| 0 <= k < groups.len() && (#[trigger] groups[k]).fingerprint == fp
}

/// `groups` are the clone groups of `files`: one group for each fingerprint
/// that two or more files share, in increasing fingerprint order, each with
/// the paths of those files in input order.
pub open spec fn clone_groups_of(groups: Seq<CloneGroup>, files: Seq<FileAnalysis>, lexical: bool) -> bool {
    &&& forall|a: int, b: int| 0 <= a < b < groups.len() ==> (#[trigger] groups[a]).fingerprint < (#[trigger] groups[b]).fingerprint
    &&& forall|k: int| 0 <= k < groups.len() ==> strings_of((#[trigger] groups[k]).members@)
        == members_with(files, groups[k].fingerprint, lexical, files.len() as int)
    &&& forall|fp: u64| #[trigger] has_group(groups, fp) <==> members_with(files, fp, lexical, files.len() as int).len() > 1
}

/// A file among the first `n` has grouping fingerprint `fp`.
pub open spec fn hash_among(files: Seq<FileAnalysis>, fp: u64, lexical: bool, n: int) -> bool {
    exists|i: int| 0 <= i < n && grouping_hash(#[trigger] files[i], lexical) == Some(fp)
}

proof fn lemma_members_nonempty(files: Seq<FileAnalysis>, fp: u64, lexical: bool, n: int)
    requires
        0 <= n <= files.len(),
        members_with(files, fp, lexical, n).len() > 0,
    ensures
        hash_among(files, fp, lexical, n),
    decreases n,
{
    if n > 0 {
        if grouping_hash(files[n - 1], lexical) != Some(fp) {
            lemma_members_nonempty(files, fp, lexical, n - 1);
            let i = choose|i: int| 0 <= i < n - 1 && grouping_hash(#[trigger] files[i], lexical) == Some(fp);
            assert(0 <= i < n && grouping_hash(files[i], lexical) == Some(fp));
        } else {
            assert(grouping_hash(files[n - 1], lexical) == Some(fp));
        }
    }
}

fn grouping_hash_of(f: &FileAnalysis, lexical: bool) -> (res: Option<u64>)
    ensures
        res == grouping_hash(*f, lexical),
{
    if lexical {
        f.lexical_hash
    } else {
        f.token_hash
    }
}

/// The distinct grouping fingerprints of `files`, increasing.
fn fingerprints_of(files: &[FileAnalysis], lexical: bool) -> (res: Vec<u64>)
    ensures
        increasing(res@),
        forall|y: u64| #[trigger] res@.contains(y) <==> hash_among(files@, y, lexical, files.len() as int),
{
    let mut res: Vec<u64> = Vec::new();
    let mut i: usize = 0;
    while i < files.len()
        invariant
            i <= files.len(),
            increasing(res@),
            forall|y: u64| #[trigger] res@.contains(y) <==> hash_among(files@, y, lexical, i as int),
        decreases files.len() - i,
    {
        let ghost old_res = res@;
        let h = grouping_hash_of(&files[i], lexical);
        if let Some(fp) = h {
            insert_unique_u64(&mut res, fp);
        }
        assert forall|y: u64| #[trigger] res@.contains(y) <==> hash_among(files@, y, lexical, i + 1) by {
            if hash_among(files@, y, lexical, i + 1) {
                let j = choose|j: int| 0 <= j < i + 1 && grouping_hash(#[trigger] files@[j], lexical) == Some(y);
                if j < i {
                    assert(hash_among(files@, y, lexical, i as int));
                }
            }
            if hash_among(files@, y, lexical, i as int) {
                let j = choose|j: int| 0 <= j < i && grouping_hash(#[trigger] files@[j], lexical) == Some(y);
                assert(0 <= j < i + 1 && grouping_hash(files@[j], lexical) == Some(y));
            }
            if h == Some(y) {
                assert(grouping_hash(files@[i as int], lexical) == Some(y));
            }
            assert(old_res.contains(y) <==> hash_among(files@, y, lexical, i as int));
        }
        i = i + 1;
    }
    res
}

/// The paths of the files whose grouping fingerprint is `fp`, in order.
fn members_of(files: &[FileAnalysis], fp: u64, lexical: bool) -> (res: Vec<String>)
    ensures
        strings_of(res@) == members_with(files@, fp, lexical, files.len() as int),
{
    let mut res: Vec<String> = Vec::new();
    let mut i: usize = 0;
    while i < files.len()
        invariant
            i <= files.len(),
            strings_of(res@) == members_with(files@, fp, lexical, i as int),
        decreases files.len() - i,
    {
        let ghost before = res@;
        if grouping_hash_of(&files[i], lexical) == Some(fp) {
            res.push(files[i].path.clone());
            assert(strings_of(res@) =~= strings_of(before) + seq![files@[i as int].path@]);
        } else {
            assert(strings_of(res@) =~= strings_of(before) + Seq::<Seq<char>>::empty());
        }
        i = i + 1;
    }
    res
}

/// The clone groups of `files` by the chosen fingerprint.
fn clone_groups_by(files: &[FileAnalysis], lexical: bool) -> (res: Vec<CloneGroup>)
    ensures
        clone_groups_of(res@, files@, lexical),
{
    let fps = fingerprints_of(files, lexical);
    let mut groups: Vec<CloneGroup> = Vec::new();
    let mut k: usize = 0;
    while k < fps.len()
        invariant
            k <= fps.len(),
            increasing(fps@),
            forall|y: u64| #[trigger] fps@.contains(y) <==> hash_among(files@, y, lexical, files.len() as int),
            forall|a: int, b: int| 0 <= a < b < groups.len() ==> (#[trigger] groups@[a]).fingerprint < (#[trigger] groups@[b]).fingerprint,
            k < fps.len() ==> forall|a: int| 0 <= a < groups.len() ==> (#[trigger] groups@[a]).fingerprint < fps@[k as int],
            forall|a: int| 0 <= a < groups.len() ==> strings_of((#[trigger] groups@[a]).members@)
                == members_with(files@, groups@[a].fingerprint, lexical, files.len() as int),
            forall|fp: u64| #[trigger] has_group(groups@, fp) <==> (exists|j: int| 0 <= j < k && fps@[j] == fp)
                && members_with(files@, fp, lexical, files.len() as int).len() > 1,
        decreases fps.len() - k,
    {
        let fp = fps[k];
        let members = members_of(files, fp, lexical);
        let ghost old_groups = groups@;
        if members.len() > 1 {
            groups.push(CloneGroup { fingerprint: fp, members });
        }
        assert forall|g: u64| #[trigger] has_group(groups@, g) <==> (exists|j: int| 0 <= j < k + 1 && fps@[j] == g)
            && members_with(files@, g, lexical, files.len() as int).len() > 1 by {
            if has_group(groups@, g) {
                let a = choose|a: int| 0 <= a < groups.len() && (#[trigger] groups@[a]).fingerprint == g;
                if a < old_groups.len() {
                    assert(old_groups[a] == groups@[a]);
                    assert(has_group(old_groups, g));
                    let j = choose|j: int| 0 <= j < k && fps@[j] == g;
                    assert(0 <= j < k + 1 && fps@[j] == g);
                } else {
                    assert(fps@[k as int] == g);
                }
            }
            if exists|j: int| 0 <= j < k + 1 && fps@[j] == g {
                let j = choose|j: int| 0 <= j < k + 1 && fps@[j] == g;
                if members_with(files@, g, lexical, files.len() as int).len() > 1 {
                    if j < k {
                        assert(exists|j: int| 0 <= j < k && fps@[j] == g);
                        assert(has_group(old_groups, g));
                        let a = choose|a: int| 0 <= a < old_groups.len() && (#[trigger] old_groups[a]).fingerprint == g;
                        assert(groups@[a] == old_groups[a]);
                    } else {
                        assert(groups@[groups.len() - 1].fingerprint == g);
                    }
                }
            }
        }
        k = k + 1;
    }
    assert forall|fp: u64| #[trigger] has_group(groups@, fp) <==> members_with(files@, fp, lexical, files.len() as int).len() > 1 by {
        if members_with(files@, fp, lexical, files.len() as int).len() > 1 {
            lemma_members_nonempty(files@, fp, lexical, files.len() as int);
            assert(fps@.contains(fp));
        }
    }
    groups
}

/// Groups of files that share a token fingerprint (identifiers and
/// literals abstracted), in increasing fingerprint order; files without a
/// fingerprint are left out.
pub fn detect_clone_groups(files: &[FileAnalysis]) -> (res: Vec<CloneGroup>)
    ensures
        clone_groups_of(res@, files@, false),
{
    clone_groups_by(files, false)
}

/// Groups of files that share a lexical fingerprint (the same source text
/// apart from comments), in increasing fingerprint order.
pub fn detect_exact_clone_groups(files: &[FileAnalysis]) -> (res: Vec<CloneGroup>)
    ensures
        clone_groups_of(res@, files@, true),
{
    clone_groups_by(files, true)
}

/// The token fingerprint that `head` has for `path`: that of the last file
/// with the path, or none.
pub open spec fn head_hash(head: Seq<FileAnalysis>, path: Seq<char>) -> Option<u64> {
    let l = last_with_path(head, path, head.len() as int);
    if l >= 0 {
        head[l].token_hash
    } else {
        None
    }
}

/// The first `n` members whose head fingerprint is no longer `fp`, in order.
pub open spec fn changed_members_of(head: Seq<FileAnalysis>, fp: u64, members: Seq<Seq<char>>, n: int) -> Seq<Seq<char>>
    decreases n,
{
    if n <= 0 {
        Seq::empty()
    } else {
        changed_members_of(head, fp, members, n - 1)
            + (if head_hash(head, members[n - 1]) != Some(fp) { seq![members[n - 1]] } else { Seq::empty() })
    }
}

/// The members do not all have the same head fingerprint.
pub open spec fn drifted(head: Seq<FileAnalysis>, members: Seq<Seq<char>>) -> bool {
    exists|a: int, b: int| 0 <= a < members.len() && 0 <= b < members.len()
        && head_hash(head, #[trigger] members[a]) != head_hash(head, #[trigger] members[b])
}

/// A clone drift as plain values: fingerprint, members, changed members.
pub open spec fn drift_view(d: CloneDrift) -> (u64, Seq<Seq<char>>, Seq<Seq<char>>) {
    (d.fingerprint, strings_of(d.members@), strings_of(d.changed_members@))
}

/// The views of a list of clone drifts.
pub open spec fn drifts_view(v: Seq<CloneDrift>) -> Seq<(u64, Seq<Seq<char>>, Seq<Seq<char>>)> {
    v.map_values(|d: CloneDrift| drift_view(d))
}

/// The drifts of the first `n` base clone groups against `head`: a group
/// drifts when its members' head fingerprints differ and some member no
/// longer has the group's fingerprint.
pub open spec fn drifts_of(head: Seq<FileAnalysis>, groups: Seq<CloneGroup>, n: int)
    -> Seq<(u64, Seq<Seq<char>>, Seq<Seq<char>>)>
    decreases n,
{
    if n <= 0 {
        Seq::empty()
    } else {
        let g = groups[n - 1];
        let members = strings_of(g.members@);
        let changed = changed_members_of(head, g.fingerprint, members, members.len() as int);
        drifts_of(head, groups, n - 1)
            + (if drifted(head, members) && changed.len() > 0 {
                seq![(g.fingerprint, members, changed)]
            } else {
                Seq::empty()
            })
    }
}

fn head_hash_of(head: &[FileAnalysis], path: &str) -> (res: Option<u64>)
    ensures
        res == head_hash(head@, path@),
{
    proof { lemma_last_with_path(head@, path@, head.len() as int); }
    match find_path(head, path) {
        Some(i) => head[i].token_hash,
        None => {
            assert(last_with_path(head@, path@, head.len() as int) == -1) by {
                if last_with_path(head@, path@, head.len() as int) >= 0 {
                    assert(has_path(head@, path@));
                }
            }
            None
        },
    }
}

/// The drift of one base clone group against `head`, if it drifted.
fn drift_of(group: CloneGroup, head: &[FileAnalysis]) -> (res: Option<CloneDrift>)
    ensures
        ({
            let members = strings_of(group.members@);
            let changed = changed_members_of(head@, group.fingerprint, members, members.len() as int);
            match res {
                Some(d) => drifted(head@, members) && changed.len() > 0
                    && drift_view(d) == (group.fingerprint, members, changed),
                None => !(drifted(head@, members) && changed.len() > 0),
            }
        }),
{
    let ghost members = strings_of(group.members@);
    let mut hashes: Vec<Option<u64>> = Vec::new();
    let mut m: usize = 0;
    while m < group.members.len()
        invariant
            m <= group.members.len(),
            members == strings_of(group.members@),
            hashes.len() == m,
            forall|k: int| 0 <= k < m ==> #[trigger] hashes@[k] == head_hash(head@, members[k]),
        decreases group.members.len() - m,
    {
        assert(members[m as int] == group.members@[m as int]@);
        hashes.push(head_hash_of(head, group.members[m].as_str()));
        m = m + 1;
    }
    let mut uneven = false;
    let mut m: usize = 1;
    while m < hashes.len()
        invariant
            1 <= m,
            hashes.len() == members.len(),
            forall|k: int| 0 <= k < hashes.len() ==> #[trigger] hashes@[k] == head_hash(head@, members[k]),
            uneven == (exists|k: int| 1 <= k < m && k < hashes.len() && #[trigger] hashes@[k] != hashes@[0]),
        decreases hashes.len() - m,
    {
        if hashes[m] != hashes[0] {
            uneven = true;
        }
        m = m + 1;
    }
    assert(uneven == drifted(head@, members)) by {
        if uneven {
            let k = choose|k: int| 1 <= k < m && k < hashes.len() && #[trigger] hashes@[k] != hashes@[0];
            assert(head_hash(head@, members[k]) != head_hash(head@, members[0]));
        }
        if drifted(head@, members) {
            let (a, b) = choose|a: int, b: int| 0 <= a < members.len() && 0 <= b < members.len()
                && head_hash(head@, #[trigger] members[a]) != head_hash(head@, #[trigger] members[b]);
            assert(hashes@[a] != hashes@[b]);
            if hashes@[a] != hashes@[0] {
                assert(a != 0);
            } else {
                assert(hashes@[b] != hashes@[0]);
            }
        }
    }
    let mut changed: Vec<String> = Vec::new();
    let mut m: usize = 0;
    while m < group.members.len()
        invariant
            m <= group.members.len(),
            members == strings_of(group.members@),
            hashes.len() == members.len(),
            forall|k: int| 0 <= k < hashes.len() ==> #[trigger] hashes@[k] == head_hash(head@, members[k]),
            strings_of(changed@) == changed_members_of(head@, group.fingerprint, members, m as int),
        decreases group.members.len() - m,
    {
        let ghost before = changed@;
        assert(members[m as int] == group.members@[m as int]@);
        if hashes[m] != Some(group.fingerprint) {
            changed.push(group.members[m].clone());
            assert(strings_of(changed@) =~= strings_of(before) + seq![members[m as int]]);
        } else {
            assert(strings_of(changed@) =~= strings_of(before) + Seq::<Seq<char>>::empty());
        }
        m = m + 1;
    }
    if uneven && changed.len() > 0 {
        Some(CloneDrift { fingerprint: group.fingerprint, members: group.members, changed_members: changed })
    } else {
        None
    }
}

/// The clone groups of `base` (by token fingerprint) whose members no longer
/// agree in `head`: their head fingerprints differ, and some member no longer
/// has the group's fingerprint (it changed, lost its fingerprint or is gone).
/// In the order of the base groups.
pub fn detect_clone_drifts(base: &[FileAnalysis], head: &[FileAnalysis]) -> (res: Vec<CloneDrift>)
    ensures
        exists|groups: Seq<CloneGroup>| {
            &&& clone_groups_of(groups, base@, false)
            &&& drifts_view(res@) == drifts_of(head@, groups, groups.len() as int)
        },
{
    let groups = detect_clone_groups(base);
    let ghost all = groups@;
    let mut res: Vec<CloneDrift> = Vec::new();
    let mut rest = groups;
    let mut k: usize = 0;
    let n = rest.len();
    // Take the groups from the back, then restore their order.
    let mut taken: Vec<CloneGroup> = Vec::new();
    while rest.len() > 0
        invariant
            all.len() == n,
            rest.len() + taken.len() == n,
            forall|j: int| 0 <= j < rest.len() ==> #[trigger] rest@[j] == all[j],
            forall|j: int| 0 <= j < taken.len() ==> #[trigger] taken@[j] == all[n - 1 - j],
        decreases rest.len(),
    {
        let g = rest.pop().unwrap();
        taken.push(g);
    }
    while k < n
        invariant
            k <= n,
            all.len() == n,
            taken.len() == n - k,
            forall|j: int| 0 <= j < taken.len() ==> #[trigger] taken@[j] == all[n - 1 - j],
            drifts_view(res@) == drifts_of(head@, all, k as int),
        decreases n - k,
    {
        let g = taken.pop().unwrap();
        assert(g == all[k as int]);
        let ghost before = res@;
        match drift_of(g, head) {
            Some(d) => {
                res.push(d);
                assert(drifts_view(res@) =~= drifts_view(before).push(drift_view(d)));
            },
            None => {
                assert(drifts_view(res@) =~= drifts_view(before) + Seq::<(u64, Seq<Seq<char>>, Seq<Seq<char>>)>::empty());
            },
        }
        k = k + 1;
    }
    res
}

/// Each member of a group is the path of a file with the group's fingerprint.
proof fn lemma_members_have_fingerprint(files: Seq<FileAnalysis>, fp: u64, lexical: bool, n: int)
    requires
        0 <= n <= files.len(),
    ensures
        forall|k: int| 0 <= k < members_with(files, fp, lexical, n).len() ==> exists|i: int| 0 <= i < n
            && (#[trigger] files[i]).path@ == #[trigger] members_with(files, fp, lexical, n)[k]
            && grouping_hash(files[i], lexical) == Some(fp),
    decreases n,
{
    if n > 0 {
        lemma_members_have_fingerprint(files, fp, lexical, n - 1);
        let prev = members_with(files, fp, lexical, n - 1);
        let cur = members_with(files, fp, lexical, n);
        assert forall|k: int| 0 <= k < cur.len() implies exists|i: int| 0 <= i < n
            && (#[trigger] files[i]).path@ == #[trigger] cur[k] && grouping_hash(files[i], lexical) == Some(fp) by {
            if k < prev.len() {
                assert(cur[k] == prev[k]);
                let i = choose|i: int| 0 <= i < n - 1 && (#[trigger] files[i]).path@ == prev[k]
                    && grouping_hash(files[i], lexical) == Some(fp);
                assert(0 <= i < n && files[i].path@ == cur[k]);
            } else {
                assert(cur[k] == files[n - 1].path@);
            }
        }
    }
}

proof fn lemma_changed_empty(head: Seq<FileAnalysis>, fp: u64, members: Seq<Seq<char>>, n: int)
    requires
        0 <= n <= members.len(),
        forall|k: int| 0 <= k < members.len() ==> head_hash(head, #[trigger] members[k]) == Some(fp),
    ensures
        changed_members_of(head, fp, members, n) == Seq::<Seq<char>>::empty(),
    decreases n,
{
    if n > 0 {
        lemma_changed_empty(head, fp, members, n - 1);
        assert(head_hash(head, members[n - 1]) == Some(fp));
        assert(changed_members_of(head, fp, members, n) =~= Seq::<Seq<char>>::empty());
    }
}

proof fn lemma_drifts_of_same(files: Seq<FileAnalysis>, groups: Seq<CloneGroup>, n: int)
    requires
        unique_paths(files),
        clone_groups_of(groups, files, false),
        0 <= n <= groups.len(),
    ensures
        drifts_of(files, groups, n) == Seq::<(u64, Seq<Seq<char>>, Seq<Seq<char>>)>::empty(),
    decreases n,
{
    if n > 0 {
        lemma_drifts_of_same(files, groups, n - 1);
        let g = groups[n - 1];
        let members = strings_of(g.members@);
        assert(members == members_with(files, g.fingerprint, false, files.len() as int));
        lemma_members_have_fingerprint(files, g.fingerprint, false, files.len() as int);
        assert forall|k: int| 0 <= k < members.len() implies head_hash(files, #[trigger] members[k]) == Some(g.fingerprint) by {
            let i = choose|i: int| 0 <= i < files.len() && (#[trigger] files[i]).path@ == members[k]
                && grouping_hash(files[i], false) == Some(g.fingerprint);
            lemma_file_at_unique(files, i, files.len() as int);
        }
        lemma_changed_empty(files, g.fingerprint, members, members.len() as int);
        assert(drifts_of(files, groups, n) =~= Seq::<(u64, Seq<Seq<char>>, Seq<Seq<char>>)>::empty());
    }
}

/// Against itself, a revision whose paths are distinct shows no clone drift.
pub proof fn lemma_no_drift_against_itself(files: Seq<FileAnalysis>, groups: Seq<CloneGroup>)
    requires
        unique_paths(files),
        clone_groups_of(groups, files, false),
    ensures
        drifts_of(files, groups, groups.len() as int) == Seq::<(u64, Seq<Seq<char>>, Seq<Seq<char>>)>::empty(),
{
    lemma_drifts_of_same(files, groups, groups.len() as int);
}

/// Some file has path `path` and grouping fingerprint `fp`.
pub open spec fn member_of(files: Seq<FileAnalysis>, path: Seq<char>, fp: u64, lexical: bool) -> bool {
    exists|i: int| 0 <= i < files.len() && (#[trigger] files[i]).path@ == path
        && grouping_hash(files[i], lexical) == Some(fp)
}

/// Every clone group has two or more members, all with the group's fingerprint.
pub proof fn lemma_clone_groups_members(groups: Seq<CloneGroup>, files: Seq<FileAnalysis>, lexical: bool)
    requires
        clone_groups_of(groups, files, lexical),
    ensures
        forall|k: int| 0 <= k < groups.len() ==> (#[trigger] groups[k]).members.len() >= 2,
        forall|k: int, m: int| 0 <= k < groups.len() && 0 <= m < groups[k].members.len()
            ==> member_of(files, (#[trigger] groups[k].members@[m])@, groups[k].fingerprint, lexical),
{
    assert forall|k: int| 0 <= k < groups.len() implies (#[trigger] groups[k]).members.len() >= 2 by {
        assert(has_group(groups, groups[k].fingerprint));
        assert(strings_of(groups[k].members@).len() == groups[k].members.len());
    }
    assert forall|k: int, m: int| 0 <= k < groups.len() && 0 <= m < groups[k].members.len()
        implies member_of(files, (#[trigger] groups[k].members@[m])@, groups[k].fingerprint, lexical) by {
        let fp = groups[k].fingerprint;
        let mw = members_with(files, fp, lexical, files.len() as int);
        lemma_members_have_fingerprint(files, fp, lexical, files.len() as int);
        assert(strings_of(groups[k].members@) == mw);
        assert(strings_of(groups[k].members@).len() == groups[k].members.len());
        assert(mw[m] == groups[k].members@[m]@);
        let i = choose|i: int| 0 <= i < files.len() && (#[trigger] files[i]).path@ == mw[m]
            && grouping_hash(files[i], lexical) == Some(fp);
        assert(files[i].path@ == groups[k].members@[m]@);
    }
}

#[verifier::spinoff_prover]
proof fn lemma_increasing_unique(a: Seq<u64>, b: Seq<u64>)
    requires
        forall|i: int, j: int| 0 <= i < j < a.len() ==> #[trigger] a[i] < #[trigger] a[j],
        forall|i: int, j: int| 0 <= i < j < b.len() ==> #[trigger] b[i] < #[trigger] b[j],
        forall|x: u64| #![trigger a.contains(x)] #![trigger b.contains(x)] a.contains(x) <==> b.contains(x),
    ensures
        a == b,
    decreases a.len(),
{
    if a.len() == 0 {
        if b.len() > 0 {
            assert(b.contains(b[0]));
        }
        assert(a =~= b);
    } else {
        assert(a.contains(a[0]));
        assert(b.contains(b[0]));
        let k = choose|k: int| 0 <= k < b.len() && b[k] == a[0];
        let m = choose|m: int| 0 <= m < a.len() && a[m] == b[0];
        if k > 0 {
            assert(b[0] < b[k]);
            if m > 0 {
                assert(a[0] < a[m]);
            }
        }
        assert(a[0] == b[0]);
        let a1 = a.drop_first();
        let b1 = b.drop_first();
        assert forall|x: u64| #![trigger a1.contains(x)] #![trigger b1.contains(x)] a1.contains(x) <==> b1.contains(x) by {
            if a1.contains(x) {
                let i = choose|i: int| 0 <= i < a1.len() && a1[i] == x;
                assert(a[i + 1] == x && a[0] < a[i + 1]);
                assert(a.contains(x));
                let j = choose|j: int| 0 <= j < b.len() && b[j] == x;
                if j == 0 {
                    assert(false);
                }
                assert(b1[j - 1] == x);
            }
            if b1.contains(x) {
                let i = choose|i: int| 0 <= i < b1.len() && b1[i] == x;
                assert(b[i + 1] == x && b[0] < b[i + 1]);
                assert(b.contains(x));
                let j = choose|j: int| 0 <= j < a.len() && a[j] == x;
                if j == 0 {
                    assert(false);
                }
                assert(a1[j - 1] == x);
            }
        }
        lemma_increasing_unique(a1, b1);
        assert(a =~= seq![a[0]] + a1);
        assert(b =~= seq![b[0]] + b1);
    }
}

/// Two lists of clone groups of the same files agree: the same fingerprints
/// in the same order, each with the same members.
#[verifier::spinoff_prover]
pub proof fn lemma_clone_groups_unique(a: Seq<CloneGroup>, b: Seq<CloneGroup>, files: Seq<FileAnalysis>, lexical: bool)
    requires
        clone_groups_of(a, files, lexical),
        clone_groups_of(b, files, lexical),
    ensures
        a.len() == b.len(),
        forall|k: int| 0 <= k < a.len() ==> (#[trigger] a[k]).fingerprint == b[k].fingerprint
            && strings_of(a[k].members@) == strings_of(b[k].members@),
{
    let fa = a.map_values(|g: CloneGroup| g.fingerprint);
    let fb = b.map_values(|g: CloneGroup| g.fingerprint);
    assert forall|i: int, j: int| 0 <= i < j < fa.len() implies #[trigger] fa[i] < #[trigger] fa[j] by {
        assert(a[i].fingerprint < a[j].fingerprint);
    }
    assert forall|i: int, j: int| 0 <= i < j < fb.len() implies #[trigger] fb[i] < #[trigger] fb[j] by {
        assert(b[i].fingerprint < b[j].fingerprint);
    }
    assert forall|x: u64| #![trigger fa.contains(x)] #![trigger fb.contains(x)] fa.contains(x) <==> fb.contains(x) by {
        if fa.contains(x) {
            let i = choose|i: int| 0 <= i < fa.len() && fa[i] == x;
            assert(has_group(a, x)) by { assert(a[i].fingerprint == x); }
            assert(has_group(b, x));
            let j = choose|j: int| 0 <= j < b.len() && (#[trigger] b[j]).fingerprint == x;
            assert(fb[j] == x);
        }
        if fb.contains(x) {
            let i = choose|i: int| 0 <= i < fb.len() && fb[i] == x;
            assert(has_group(b, x)) by { assert(b[i].fingerprint == x); }
            assert(has_group(a, x));
            let j = choose|j: int| 0 <= j < a.len() && (#[trigger] a[j]).fingerprint == x;
            assert(fa[j] == x);
        }
    }
    lemma_increasing_unique(fa, fb);
    assert(fa.len() == a.len());
    assert(fb.len() == b.len());
    assert(a.len() == b.len());
    assert forall|k: int| 0 <= k < a.len() implies (#[trigger] a[k]).fingerprint == b[k].fingerprint
        && strings_of(a[k].members@) == strings_of(b[k].members@) by {
        assert(fa[k] == a[k].fingerprint && fb[k] == b[k].fingerprint);
    }
}


proof fn lemma_drifts_agree(head: Seq<FileAnalysis>, a: Seq<CloneGroup>, b: Seq<CloneGroup>, n: int)
    requires
        0 <= n <= a.len(),
        n <= b.len(),
        forall|k: int| 0 <= k < n ==> (#[trigger] a[k]).fingerprint == b[k].fingerprint
            && strings_of(a[k].members@) == strings_of(b[k].members@),
    ensures
        drifts_of(head, a, n) == drifts_of(head, b, n),
    decreases n,
{
    if n > 0 {
        lemma_drifts_agree(head, a, b, n - 1);
        assert(a[n - 1].fingerprint == b[n - 1].fingerprint);
    }
}

/// The drifts are determined by the two revisions: any list of clone groups
/// of the base gives the same drifts against a head.
pub proof fn lemma_drifts_determined(base: Seq<FileAnalysis>, head: Seq<FileAnalysis>, a: Seq<CloneGroup>, b: Seq<CloneGroup>)
    requires
        clone_groups_of(a, base, false),
        clone_groups_of(b, base, false),
    ensures
        drifts_of(head, a, a.len() as int) == drifts_of(head, b, b.len() as int),
{
    lemma_clone_groups_unique(a, b, base, false);
    lemma_drifts_agree(head, a, b, a.len() as int);
}

proof fn lemma_members_with_lexical_as_token(files: Seq<FileAnalysis>, files2: Seq<FileAnalysis>, fp: u64, n: int)
    requires
        files2.len() == files.len(),
        0 <= n <= files.len(),
        forall|i: int| 0 <= i < files.len() ==> (#[trigger] files2[i]).path@ == files[i].path@
            && files2[i].token_hash == files[i].lexical_hash,
    ensures
        members_with(files, fp, true, n) == members_with(files2, fp, false, n),
    decreases n,
{
    if n > 0 {
        lemma_members_with_lexical_as_token(files, files2, fp, n - 1);
        assert(files2[n - 1].path@ == files[n - 1].path@);
    }
}

/// The exact clone groups (by lexical fingerprint) are the clone groups by
/// token fingerprint of the same files with each token fingerprint replaced
/// by the file's lexical one.
pub proof fn lemma_exact_groups_are_token_groups_of_lexical(groups: Seq<CloneGroup>, files: Seq<FileAnalysis>, files2: Seq<FileAnalysis>)
    requires
        files2.len() == files.len(),
        forall|i: int| 0 <= i < files.len() ==> (#[trigger] files2[i]).path@ == files[i].path@
            && files2[i].token_hash == files[i].lexical_hash,
    ensures
        clone_groups_of(groups, files, true) <==> clone_groups_of(groups, files2, false),
{
    assert forall|fp: u64| #[trigger] members_with(files, fp, true, files.len() as int)
        == members_with(files2, fp, false, files2.len() as int) by {
        lemma_members_with_lexical_as_token(files, files2, fp, files.len() as int);
    }
}

proof fn lemma_changed_member(head: Seq<FileAnalysis>, fp: u64, members: Seq<Seq<char>>, n: int, j: int)
    requires
        0 <= j < n <= members.len(),
        head_hash(head, members[j]) != Some(fp),
    ensures
        changed_members_of(head, fp, members, n).len() > 0,
    decreases n,
{
    if j < n - 1 {
        lemma_changed_member(head, fp, members, n - 1, j);
    }
}

/// A base clone group drifts exactly when its members' head fingerprints
/// are not all the same: then some member no longer has the group's
/// fingerprint, so the changed members are never empty.
pub proof fn lemma_drifted_has_changes(head: Seq<FileAnalysis>, fp: u64, members: Seq<Seq<char>>)
    ensures
        drifted(head, members) ==> changed_members_of(head, fp, members, members.len() as int).len() > 0,
{
    if drifted(head, members) {
        let (a, b) = choose|a: int, b: int| 0 <= a < members.len() && 0 <= b < members.len()
            && head_hash(head, #[trigger] members[a]) != head_hash(head, #[trigger] members[b]);
        if head_hash(head, members[a]) != Some(fp) {
            lemma_changed_member(head, fp, members, members.len() as int, a);
        } else {
            lemma_changed_member(head, fp, members, members.len() as int, b);
        }
    }
}

} // verus!
