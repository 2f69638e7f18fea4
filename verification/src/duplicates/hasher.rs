//! Exact clones: entities whose normalised sources are identical.
use vstd::prelude::*;
use vstd::string::StringSliceAdditionalSpecFns;
use vstd::utf8::encode_utf8;
use sha2::Digest;
use crate::duplicates::normalizer::{normalize, normalized};
use crate::parser::types::CodeEntity;
use crate::text::str_eq;

verus! {

/// The lower-case hexadecimal SHA-256 digest of `data`, as `sha2` computes it.
pub uninterp spec fn sha256_hex(data: Seq<u8>) -> Seq<char>;

/// `sha2::Sha256::digest` of `data`, written as lower-case hexadecimal
/// (`{:x}`). The contract names the result; it states nothing more of it.
#[verifier::external_body]
pub(crate) fn sha256_hex_of(data: &[u8]) -> (res: String)
    ensures
        res@ == sha256_hex(data@),
{
    format!("{:x}", sha2::Sha256::digest(data))
}

/// The digest that identifies an entity's normalised source.
pub open spec fn entity_hash(source: Seq<char>) -> Seq<char> {
    sha256_hex(encode_utf8(normalized(source)))
}

pub(crate) fn hash_entity(e: &CodeEntity) -> (res: String)
    ensures
        res@ == entity_hash(e.source@),
{
    let normalized_source = normalize(e.source.as_str());
    sha256_hex_of(normalized_source.as_str().as_bytes())
}

/// No earlier key equals key `i`.
pub open spec fn first_of_key<K>(keys: Seq<K>, i: int) -> bool {
    forall|j: int| 0 <= j < i ==> keys[j] != keys[i]
}

/// The indices below `n` whose key is `k`, in order.
pub open spec fn indices_with<K>(keys: Seq<K>, k: K, n: int) -> Seq<int>
    decreases n,
{
    if n <= 0 {
        Seq::empty()
    } else {
        indices_with(keys, k, n - 1) + (if keys[n - 1] == k { seq![n - 1] } else { Seq::empty() })
    }
}

/// The groups of indices that share a key, for the keys that first occur
/// below `n`, in order of first occurrence, keeping the groups that `keep`.
pub open spec fn key_groups<K>(keys: Seq<K>, n: int, keep: spec_fn(Seq<int>) -> bool) -> Seq<Seq<int>>
    decreases n,
{
    if n <= 0 {
        Seq::empty()
    } else {
        let g = indices_with(keys, keys[n - 1], keys.len() as int);
        key_groups(keys, n - 1, keep) + (if first_of_key(keys, n - 1) && keep(g) { seq![g] } else { Seq::empty() })
    }
}

/// Groups of two or more.
pub open spec fn at_least_two(g: Seq<int>) -> bool {
    g.len() >= 2
}

/// `groups` holds, for each group of indices, the entities at those indices.
pub open spec fn groups_hold<'a>(groups: Seq<Vec<&'a CodeEntity>>, index_groups: Seq<Seq<int>>, entities: Seq<CodeEntity>) -> bool {
    &&& groups.len() == index_groups.len()
    &&& forall|g: int| 0 <= g < groups.len() ==> {
        &&& #[trigger] groups[g].len() == index_groups[g].len()
        &&& forall|m: int| 0 <= m < groups[g].len() ==> {
            &&& 0 <= #[trigger] index_groups[g][m] < entities.len()
            &&& *groups[g]@[m] == entities[index_groups[g][m]]
        }
    }
}

/// The keys of an index range, as characters.
pub open spec fn keys_view(v: Seq<String>) -> Seq<Seq<char>> {
    v.map_values(|s: String| s@)
}

fn first_key(keys: &Vec<String>, i: usize) -> (res: bool)
    requires
        i < keys.len(),
    ensures
        res == first_of_key(keys_view(keys@), i as int),
{
    let mut j: usize = 0;
    while j < i
        invariant
            i < keys.len(),
            j <= i,
            forall|m: int| 0 <= m < j ==> keys_view(keys@)[m] != keys_view(keys@)[i as int],
        decreases i - j,
    {
        assert(keys_view(keys@)[j as int] == keys@[j as int]@);
        assert(keys_view(keys@)[i as int] == keys@[i as int]@);
        if str_eq(keys[j].as_str(), keys[i].as_str()) {
            return false;
        }
        j = j + 1;
    }
    true
}

/// The entities at the indices whose key equals key `i`, and those indices.
pub(crate) fn members_with_key<'a>(entities: &'a [CodeEntity], keys: &Vec<String>, i: usize)
    -> (res: (Vec<&'a CodeEntity>, Ghost<Seq<int>>))
    requires
        keys.len() == entities.len(),
        i < keys.len(),
    ensures
        res.1@ == indices_with(keys_view(keys@), keys_view(keys@)[i as int], keys.len() as int),
        res.0.len() == res.1@.len(),
        forall|m: int| 0 <= m < res.0.len() ==> 0 <= #[trigger] res.1@[m] < entities.len()
            && *res.0@[m] == entities@[res.1@[m]],
{
    let ghost ks = keys_view(keys@);
    let mut out: Vec<&'a CodeEntity> = Vec::new();
    let ghost mut idx: Seq<int> = Seq::empty();
    let mut j: usize = 0;
    while j < keys.len()
        invariant
            keys.len() == entities.len(),
            i < keys.len(),
            ks == keys_view(keys@),
            j <= keys.len(),
            idx == indices_with(ks, ks[i as int], j as int),
            out.len() == idx.len(),
            forall|m: int| 0 <= m < out.len() ==> 0 <= #[trigger] idx[m] < j && *out@[m] == entities@[idx[m]],
        decreases keys.len() - j,
    {
        if str_eq(keys[j].as_str(), keys[i].as_str()) {
            out.push(&entities[j]);
            proof { idx = idx.push(j as int); }
        }
        j = j + 1;
    }
    (out, Ghost(idx))
}

/// Groups of two or more entities whose normalised sources are identical:
/// one group for each such source, in order of its first entity, the
/// entities of a group in input order.
pub fn find_exact_clones<'a>(entities: &'a [CodeEntity]) -> (res: Vec<Vec<&'a CodeEntity>>)
    ensures
        groups_hold(res@, key_groups(entities@.map_values(|e: CodeEntity| entity_hash(e.source@)),
            entities.len() as int, |g: Seq<int>| at_least_two(g)), entities@),
{
    let mut hashes: Vec<String> = Vec::new();
    let mut i: usize = 0;
    while i < entities.len()
        invariant
            i <= entities.len(),
            hashes.len() == i,
            forall|j: int| 0 <= j < i ==> #[trigger] hashes@[j]@ == entity_hash(entities@[j].source@),
        decreases entities.len() - i,
    {
        hashes.push(hash_entity(&entities[i]));
        i = i + 1;
    }
    let ghost ks = keys_view(hashes@);
    assert(ks =~= entities@.map_values(|e: CodeEntity| entity_hash(e.source@)));
    let ghost keep: spec_fn(Seq<int>) -> bool = |g: Seq<int>| at_least_two(g);
    let mut groups: Vec<Vec<&'a CodeEntity>> = Vec::new();
    let ghost mut idx: Seq<Seq<int>> = Seq::empty();
    let mut i: usize = 0;
    while i < entities.len()
        invariant
            i <= entities.len(),
            hashes.len() == entities.len(),
            ks == keys_view(hashes@),
            keep == (|g: Seq<int>| at_least_two(g)),
            idx == key_groups(ks, i as int, keep),
            groups_hold(groups@, idx, entities@),
        decreases entities.len() - i,
    {
        proof {
            let gi = indices_with(ks, ks[i as int], ks.len() as int);
            assert(key_groups(ks, i + 1, keep) == key_groups(ks, i as int, keep)
                + (if first_of_key(ks, i as int) && keep(gi) { seq![gi] } else { Seq::empty() }));
        }
        if first_key(&hashes, i) {
            let (members, Ghost(g)) = members_with_key(entities, &hashes, i);
            assert(keep(g) == (members.len() >= 2));
            if members.len() >= 2 {
                let ghost old_groups = groups@;
                groups.push(members);
                proof {
                    let old_idx = idx;
                    idx = idx.push(g);
                    assert(idx =~= key_groups(ks, i + 1, keep));
                    assert forall|gi: int| 0 <= gi < groups.len() implies {
                        &&& #[trigger] groups@[gi].len() == idx[gi].len()
                        &&& forall|m: int| 0 <= m < groups@[gi].len() ==> {
                            &&& 0 <= #[trigger] idx[gi][m] < entities@.len()
                            &&& *groups@[gi]@[m] == entities@[idx[gi][m]]
                        }
                    } by {
                        if gi < old_idx.len() {
                            assert(groups@[gi] == old_groups[gi]);
                        }
                    }
                }
            } else {
                assert(idx =~= key_groups(ks, i + 1, keep));
            }
        } else {
            assert(idx =~= key_groups(ks, i + 1, keep));
        }
        i = i + 1;
    }
    groups
}

/// The hashes of the entities' normalised sources, in order.
pub open spec fn exact_keys(entities: Seq<CodeEntity>) -> Seq<Seq<char>> {
    entities.map_values(|e: CodeEntity| entity_hash(e.source@))
}

/// The exact clone groups of the entities, as index groups.
pub open spec fn exact_groups(entities: Seq<CodeEntity>) -> Seq<Seq<int>> {
    key_groups(exact_keys(entities), entities.len() as int, |g: Seq<int>| at_least_two(g))
}

/// Each group that `key_groups` reports is the group of some key that first
/// occurs below `n`, and passes `keep`.
pub proof fn lemma_key_groups_origin<K>(keys: Seq<K>, n: int, keep: spec_fn(Seq<int>) -> bool)
    requires
        0 <= n <= keys.len(),
    ensures
        forall|a: int| 0 <= a < key_groups(keys, n, keep).len() ==> exists|i: int| 0 <= i < n
            && #[trigger] key_groups(keys, n, keep)[a] == indices_with(keys, keys[i], keys.len() as int)
            && keep(key_groups(keys, n, keep)[a]),
    decreases n,
{
    if n > 0 {
        lemma_key_groups_origin(keys, n - 1, keep);
        let prev = key_groups(keys, n - 1, keep);
        let cur = key_groups(keys, n, keep);
        assert forall|a: int| 0 <= a < cur.len() implies exists|i: int| 0 <= i < n
            && #[trigger] cur[a] == indices_with(keys, keys[i], keys.len() as int) && keep(cur[a]) by {
            if a < prev.len() {
                assert(cur[a] == prev[a]);
                let i = choose|i: int| 0 <= i < n - 1 && #[trigger] prev[a] == indices_with(keys, keys[i], keys.len() as int) && keep(prev[a]);
                assert(0 <= i < n && cur[a] == indices_with(keys, keys[i], keys.len() as int));
            } else {
                assert(cur[a] == indices_with(keys, keys[n - 1], keys.len() as int));
            }
        }
    }
}

/// Every group of exact clones holds two or more entities, and all of them
/// have the same digest of their normalised source.
pub proof fn lemma_exact_clones_share_source(entities: Seq<CodeEntity>)
    ensures
        forall|a: int| 0 <= a < exact_groups(entities).len() ==> {
            let g = #[trigger] exact_groups(entities)[a];
            &&& g.len() >= 2
            &&& forall|m: int| 0 <= m < g.len() ==> 0 <= #[trigger] g[m] < entities.len()
                && entity_hash(entities[g[m]].source@) == entity_hash(entities[g[0]].source@)
        },
{
    let keys = exact_keys(entities);
    let keep = |g: Seq<int>| at_least_two(g);
    lemma_key_groups_origin(keys, entities.len() as int, keep);
    assert forall|a: int| 0 <= a < exact_groups(entities).len() implies {
        let g = #[trigger] exact_groups(entities)[a];
        &&& g.len() >= 2
        &&& forall|m: int| 0 <= m < g.len() ==> 0 <= #[trigger] g[m] < entities.len()
            && entity_hash(entities[g[m]].source@) == entity_hash(entities[g[0]].source@)
    } by {
        let g = exact_groups(entities)[a];
        let i = choose|i: int| 0 <= i < entities.len()
            && #[trigger] key_groups(keys, entities.len() as int, keep)[a] == indices_with(keys, keys[i], keys.len() as int)
            && keep(key_groups(keys, entities.len() as int, keep)[a]);
        crate::duplicates::fingerprint::lemma_indices_with(keys, keys[i], keys.len() as int);
        assert forall|m: int| 0 <= m < g.len() implies 0 <= #[trigger] g[m] < entities.len()
            && entity_hash(entities[g[m]].source@) == entity_hash(entities[g[0]].source@) by {
            assert(keys[g[m]] == keys[i]);
            assert(keys[g[0]] == keys[i]);
        }
    }
}

/// The key of each group that `key_groups` reports, in the same order.
pub open spec fn key_group_keys<K>(keys: Seq<K>, n: int, keep: spec_fn(Seq<int>) -> bool) -> Seq<K>
    decreases n,
{
    if n <= 0 {
        Seq::empty()
    } else {
        let g = indices_with(keys, keys[n - 1], keys.len() as int);
        key_group_keys(keys, n - 1, keep) + (if first_of_key(keys, n - 1) && keep(g) { seq![keys[n - 1]] } else { Seq::empty() })
    }
}

/// The index group of key `k` below `n` runs in increasing order and holds
/// every index below `n` whose key is `k`.
pub proof fn lemma_indices_with_complete<K>(keys: Seq<K>, k: K, n: int)
    requires
        0 <= n <= keys.len(),
    ensures
        forall|m1: int, m2: int| 0 <= m1 < m2 < indices_with(keys, k, n).len()
            ==> #[trigger] indices_with(keys, k, n)[m1] < #[trigger] indices_with(keys, k, n)[m2],
        forall|j: int| 0 <= j < n && #[trigger] keys[j] == k ==> indices_with(keys, k, n).contains(j),
    decreases n,
{
    if n > 0 {
        lemma_indices_with_complete(keys, k, n - 1);
        crate::duplicates::fingerprint::lemma_indices_with(keys, k, n - 1);
        let prev = indices_with(keys, k, n - 1);
        let cur = indices_with(keys, k, n);
        assert forall|m1: int, m2: int| 0 <= m1 < m2 < cur.len() implies #[trigger] cur[m1] < #[trigger] cur[m2] by {
            assert(cur[m1] == prev[m1]);
            if m2 < prev.len() {
                assert(cur[m2] == prev[m2]);
            } else {
                assert(cur[m2] == n - 1);
            }
        }
        assert forall|j: int| 0 <= j < n && #[trigger] keys[j] == k implies cur.contains(j) by {
            if j < n - 1 {
                let m = choose|m: int| 0 <= m < prev.len() && prev[m] == j;
                assert(cur[m] == prev[m]);
            } else {
                assert(cur[prev.len() as int] == n - 1);
            }
        }
    }
}

/// The groups below `n`, with their keys: each group is the index group of
/// its key, which occurs below `n` and passes `keep`; the keys of different
/// groups differ; and every key below `n` whose group passes `keep` has a
/// group.
pub proof fn lemma_key_groups_keys<K>(keys: Seq<K>, n: int, keep: spec_fn(Seq<int>) -> bool)
    requires
        0 <= n <= keys.len(),
    ensures
        key_group_keys(keys, n, keep).len() == key_groups(keys, n, keep).len(),
        forall|a: int| 0 <= a < key_groups(keys, n, keep).len() ==> {
            &&& #[trigger] key_groups(keys, n, keep)[a] == indices_with(keys, key_group_keys(keys, n, keep)[a], keys.len() as int)
            &&& keep(key_groups(keys, n, keep)[a])
            &&& exists|i: int| 0 <= i < n && keys[i] == key_group_keys(keys, n, keep)[a]
        },
        forall|a: int, b: int| 0 <= a < b < key_group_keys(keys, n, keep).len()
            ==> #[trigger] key_group_keys(keys, n, keep)[a] != #[trigger] key_group_keys(keys, n, keep)[b],
        forall|i: int| 0 <= i < n && keep(indices_with(keys, #[trigger] keys[i], keys.len() as int))
            ==> key_group_keys(keys, n, keep).contains(keys[i]),
    decreases n,
{
    if n > 0 {
        lemma_key_groups_keys(keys, n - 1, keep);
        let pg = key_groups(keys, n - 1, keep);
        let pk = key_group_keys(keys, n - 1, keep);
        let cg = key_groups(keys, n, keep);
        let ck = key_group_keys(keys, n, keep);
        let g = indices_with(keys, keys[n - 1], keys.len() as int);
        let added = first_of_key(keys, n - 1) && keep(g);
        assert forall|a: int| 0 <= a < cg.len() implies {
            &&& #[trigger] cg[a] == indices_with(keys, ck[a], keys.len() as int)
            &&& keep(cg[a])
            &&& exists|i: int| 0 <= i < n && keys[i] == ck[a]
        } by {
            if a < pg.len() {
                assert(cg[a] == pg[a] && ck[a] == pk[a]);
                let i = choose|i: int| 0 <= i < n - 1 && keys[i] == pk[a];
                assert(0 <= i < n && keys[i] == ck[a]);
            } else {
                assert(cg[a] == g && ck[a] == keys[n - 1]);
                assert(keys[n - 1] == ck[a]);
            }
        }
        assert forall|a: int, b: int| 0 <= a < b < ck.len() implies #[trigger] ck[a] != #[trigger] ck[b] by {
            assert(ck[a] == pk[a]);
            if b < pk.len() {
                assert(ck[b] == pk[b]);
            } else {
                assert(ck[b] == keys[n - 1]);
                assert(added);
                assert(pg[a] == indices_with(keys, pk[a], keys.len() as int));
                let i = choose|i: int| 0 <= i < n - 1 && keys[i] == pk[a];
                assert(keys[i] != keys[n - 1]);
            }
        }
        assert forall|i: int| 0 <= i < n && keep(indices_with(keys, #[trigger] keys[i], keys.len() as int))
            implies ck.contains(keys[i]) by {
            if i < n - 1 {
                let a = choose|a: int| 0 <= a < pk.len() && pk[a] == keys[i];
                assert(ck[a] == pk[a]);
            } else if added {
                assert(ck[pk.len() as int] == keys[n - 1]);
            } else {
                let j = choose|j: int| 0 <= j < n - 1 && #[trigger] keys[j] == keys[n - 1];
                assert(keep(indices_with(keys, keys[j], keys.len() as int)));
                let a = choose|a: int| 0 <= a < pk.len() && pk[a] == keys[j];
                assert(ck[a] == pk[a]);
            }
        }
    }
}

/// The exact clone groups part the entities that have an exact clone: the
/// indices of a group run in input order, no entity lies in two groups, the
/// groups' digests differ, and an entity whose digest another entity
/// shares lies in a group.
pub proof fn lemma_exact_groups_partition(entities: Seq<CodeEntity>)
    ensures
        forall|a: int, m1: int, m2: int| 0 <= a < exact_groups(entities).len() && 0 <= m1 < m2 < exact_groups(entities)[a].len()
            ==> #[trigger] exact_groups(entities)[a][m1] < #[trigger] exact_groups(entities)[a][m2],
        forall|a: int, b: int, m1: int, m2: int| 0 <= a < b < exact_groups(entities).len()
            && 0 <= m1 < exact_groups(entities)[a].len() && 0 <= m2 < exact_groups(entities)[b].len()
            ==> #[trigger] exact_groups(entities)[a][m1] != #[trigger] exact_groups(entities)[b][m2],
        forall|p: int, q: int| 0 <= p < entities.len() && 0 <= q < entities.len() && p != q
            && #[trigger] exact_keys(entities)[p] == #[trigger] exact_keys(entities)[q]
            ==> exists|a: int| 0 <= a < exact_groups(entities).len() && (#[trigger] exact_groups(entities)[a]).contains(p),
{
    let keys = exact_keys(entities);
    let len = entities.len() as int;
    let keep = |g: Seq<int>| at_least_two(g);
    let gs = exact_groups(entities);
    let gk = key_group_keys(keys, len, keep);
    lemma_key_groups_keys(keys, len, keep);
    assert forall|a: int, m1: int, m2: int| 0 <= a < gs.len() && 0 <= m1 < m2 < gs[a].len()
        implies #[trigger] gs[a][m1] < #[trigger] gs[a][m2] by {
        assert(gs[a] == indices_with(keys, gk[a], len));
        lemma_indices_with_complete(keys, gk[a], len);
    }
    assert forall|a: int, b: int, m1: int, m2: int| 0 <= a < b < gs.len()
        && 0 <= m1 < gs[a].len() && 0 <= m2 < gs[b].len() implies #[trigger] gs[a][m1] != #[trigger] gs[b][m2] by {
        assert(gs[a] == indices_with(keys, gk[a], len));
        assert(gs[b] == indices_with(keys, gk[b], len));
        crate::duplicates::fingerprint::lemma_indices_with(keys, gk[a], len);
        crate::duplicates::fingerprint::lemma_indices_with(keys, gk[b], len);
        assert(gk[a] != gk[b]);
        assert(keys[gs[a][m1]] == gk[a]);
        assert(keys[gs[b][m2]] == gk[b]);
    }
    assert forall|p: int, q: int| 0 <= p < entities.len() && 0 <= q < entities.len() && p != q
        && #[trigger] keys[p] == #[trigger] keys[q]
        implies exists|a: int| 0 <= a < gs.len() && (#[trigger] gs[a]).contains(p) by {
        let g = indices_with(keys, keys[p], len);
        lemma_indices_with_complete(keys, keys[p], len);
        assert(g.contains(p));
        assert(g.contains(q));
        let mp = choose|m: int| 0 <= m < g.len() && g[m] == p;
        let mq = choose|m: int| 0 <= m < g.len() && g[m] == q;
        assert(mp != mq);
        assert(g.len() >= 2);
        assert(keep(g));
        assert(gk.contains(keys[p]));
        let a = choose|a: int| 0 <= a < gk.len() && gk[a] == keys[p];
        assert(gs[a] == g);
    }
}

/// An entity whose normalised source another entity shares lies in an exact
/// clone group, and every member of a group has the digest of that group's
/// normalised source.
pub proof fn lemma_exact_groups_by_source(entities: Seq<CodeEntity>)
    ensures
        forall|p: int, q: int| 0 <= p < entities.len() && 0 <= q < entities.len() && p != q
            && normalized((#[trigger] entities[p]).source@) == normalized((#[trigger] entities[q]).source@)
            ==> exists|a: int| 0 <= a < exact_groups(entities).len() && (#[trigger] exact_groups(entities)[a]).contains(p),
{
    lemma_exact_groups_partition(entities);
    let keys = exact_keys(entities);
    assert forall|p: int, q: int| 0 <= p < entities.len() && 0 <= q < entities.len() && p != q
        && normalized((#[trigger] entities[p]).source@) == normalized((#[trigger] entities[q]).source@)
        implies exists|a: int| 0 <= a < exact_groups(entities).len() && (#[trigger] exact_groups(entities)[a]).contains(p) by {
        assert(keys[p] == entity_hash(entities[p].source@));
        assert(keys[q] == entity_hash(entities[q].source@));
        assert(keys[p] == keys[q]);
    }
}

} // verus!
