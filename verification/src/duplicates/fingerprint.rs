//! Structural clones: entities whose syntax trees have the same shape once
//! identifiers are abstracted away.
use vstd::prelude::*;
use vstd::string::StringExecFns;
use vstd::string::StringSliceAdditionalSpecFns;
use vstd::utf8::encode_utf8;
use crate::duplicates::hasher::{
    entity_hash, first_of_key, groups_hold, hash_entity, indices_with, key_groups, keys_view,
    sha256_hex, sha256_hex_of,
};
use crate::duplicates::normalizer::join_words;
use crate::parser::types::CodeEntity;
use crate::syntax::{Grammar, SyntaxNode, parse_syntax, syntax_of, subtree_end, subtree_end_of};
use crate::text::{concat, ends_with, opt_chars, push_char, str_ends_with, str_eq, str_is};

verus! {

/// Node kinds that name something; the fingerprint abstracts them to `ID`.
pub open spec fn is_identifier_kind(k: Seq<char>) -> bool {
    ||| k == "identifier"@
    ||| k == "property_identifier"@
    ||| k == "type_identifier"@
    ||| k == "field_identifier"@
    ||| k == "shorthand_property_identifier"@
    ||| k == "shorthand_property_identifier_pattern"@
}

fn identifier_kind(k: &str) -> (res: bool)
    ensures
        res == is_identifier_kind(k@),
{
    str_is(k, "identifier") || str_is(k, "property_identifier") || str_is(k, "type_identifier")
        || str_is(k, "field_identifier") || str_is(k, "shorthand_property_identifier")
        || str_is(k, "shorthand_property_identifier_pattern")
}

/// The token that opens an inner node of kind `k`: `<k>`.
pub open spec fn open_tag(k: Seq<char>) -> Seq<char> {
    "<"@ + k + ">"@
}

/// The token that closes an inner node of kind `k`: `</k>`.
pub open spec fn close_tag(k: Seq<char>) -> Seq<char> {
    "</"@ + k + ">"@
}

/// The abstract tokens of the subtree of node `i`: `ID` for an identifier,
/// the kind of any other leaf, and for an inner node its open tag, the
/// tokens of its children and its close tag.
pub open spec fn abstract_tokens(t: Seq<SyntaxNode>, i: int, limit: int) -> Seq<Seq<char>>
    decreases limit - i, 0int,
{
    if i < 0 || i >= limit || limit > t.len() {
        Seq::empty()
    } else if is_identifier_kind(t[i].kind@) {
        seq!["ID"@]
    } else if t[i].child_count == 0 {
        seq![t[i].kind@]
    } else {
        seq![open_tag(t[i].kind@)]
            + abstract_tokens_children(t, i + 1, subtree_end(t, i, limit))
            + seq![close_tag(t[i].kind@)]
    }
}

/// The abstract tokens of the sibling subtrees from `c` up to `e`.
pub open spec fn abstract_tokens_children(t: Seq<SyntaxNode>, c: int, e: int) -> Seq<Seq<char>>
    decreases e - c, 1int,
{
    if c < 0 || c >= e || e > t.len() {
        Seq::empty()
    } else {
        abstract_tokens(t, c, e) + abstract_tokens_children(t, subtree_end(t, c, e), e)
    }
}

proof fn lemma_push_token(v: Seq<String>, s: String)
    ensures
        keys_view(v.push(s)) == keys_view(v) + seq![s@],
{
    assert(keys_view(v.push(s)) =~= keys_view(v) + seq![s@]);
}

fn push_abstract_tokens(t: &Vec<SyntaxNode>, i: usize, limit: usize, out: &mut Vec<String>)
    requires
        i < limit <= t.len(),
    ensures
        keys_view(final(out)@) == keys_view(old(out)@) + abstract_tokens(t@, i as int, limit as int),
    decreases limit - i, 0int,
{
    let kind = t[i].kind.as_str();
    if identifier_kind(kind) {
        let token = String::from_str("ID");
        proof { lemma_push_token(out@, token); }
        out.push(token);
    } else if t[i].child_count == 0 {
        let token = String::from_str(kind);
        proof { lemma_push_token(out@, token); }
        out.push(token);
    } else {
        let e = subtree_end_of(t, i, limit);
        let ghost start = keys_view(out@);
        let open = concat(concat("<", kind).as_str(), ">");
        proof { lemma_push_token(out@, open); }
        out.push(open);
        let ghost mid = keys_view(out@);
        push_abstract_tokens_children(t, i + 1, e, out);
        let close = concat(concat("</", kind).as_str(), ">");
        proof { lemma_push_token(out@, close); }
        out.push(close);
        assert(keys_view(out@) =~= start + abstract_tokens(t@, i as int, limit as int));
    }
}

fn push_abstract_tokens_children(t: &Vec<SyntaxNode>, c0: usize, e: usize, out: &mut Vec<String>)
    requires
        c0 <= e <= t.len(),
    ensures
        keys_view(final(out)@) == keys_view(old(out)@) + abstract_tokens_children(t@, c0 as int, e as int),
    decreases e - c0, 1int,
{
    let mut c = c0;
    while c < e
        invariant
            c0 <= c <= e <= t.len(),
            keys_view(out@) + abstract_tokens_children(t@, c as int, e as int)
                == keys_view(old(out)@) + abstract_tokens_children(t@, c0 as int, e as int),
        decreases e - c,
    {
        let next = subtree_end_of(t, c, e);
        let ghost before = keys_view(out@);
        push_abstract_tokens(t, c, e, out);
        assert(before + abstract_tokens_children(t@, c as int, e as int)
            =~= keys_view(out@) + abstract_tokens_children(t@, next as int, e as int));
        c = next;
    }
    assert(abstract_tokens_children(t@, c as int, e as int) =~= Seq::<Seq<char>>::empty());
    assert(keys_view(out@) =~= keys_view(out@) + Seq::<Seq<char>>::empty());
}

/// The tokens joined by single spaces.
fn join_tokens(tokens: &Vec<String>) -> (res: String)
    ensures
        res@ == join_words(keys_view(tokens@)),
{
    let ghost w = keys_view(tokens@);
    let mut out = String::new();
    let mut i: usize = 0;
    while i < tokens.len()
        invariant
            i <= tokens.len(),
            w == keys_view(tokens@),
            out@ == join_words(w.take(i as int)),
        decreases tokens.len() - i,
    {
        let ghost before = out@;
        if i > 0 {
            push_char(&mut out, ' ');
        }
        out.append(tokens[i].as_str());
        proof {
            let taken = w.take(i + 1);
            assert(taken.drop_last() =~= w.take(i as int));
            assert(taken.last() == tokens@[i as int]@);
            if i == 0 {
                assert(before =~= Seq::<char>::empty());
                assert(out@ =~= taken[0]);
            } else {
                assert(out@ =~= join_words(taken.drop_last()) + seq![' '] + taken.last());
            }
        }
        i = i + 1;
    }
    assert(w.take(tokens.len() as int) =~= w);
    out
}

/// Entities with fewer abstract tokens than this are not fingerprinted: small
/// functions (getters, empty stubs) share their shape with too many others.
pub const MIN_TOKENS: usize = 15;

/// The structural fingerprint of a syntax tree: the SHA-256 digest of its
/// abstract tokens joined by spaces, or nothing when there are fewer than
/// `MIN_TOKENS` of them.
pub open spec fn fingerprint_of(t: Seq<SyntaxNode>) -> Option<Seq<char>> {
    let tokens = abstract_tokens(t, 0, t.len() as int);
    if tokens.len() < MIN_TOKENS {
        None
    } else {
        Some(sha256_hex(encode_utf8(join_words(tokens))))
    }
}

/// The structural fingerprint of a parsed syntax tree.
pub fn fingerprint_of_syntax(nodes: &Vec<SyntaxNode>) -> (res: Option<String>)
    ensures
        opt_chars(res) == fingerprint_of(nodes@),
{
    let mut tokens: Vec<String> = Vec::new();
    if nodes.len() > 0 {
        push_abstract_tokens(nodes, 0, nodes.len(), &mut tokens);
    }
    assert(keys_view(tokens@) =~= abstract_tokens(nodes@, 0, nodes.len() as int));
    if tokens.len() < MIN_TOKENS {
        return None;
    }
    let joined = join_tokens(&tokens);
    Some(sha256_hex_of(joined.as_str().as_bytes()))
}

/// The grammar a file is parsed with: C# for `.cs` files, else TypeScript.
pub open spec fn grammar_for(path: Seq<char>) -> Grammar {
    if ends_with(path, ".cs"@) {
        Grammar::CSharp
    } else {
        Grammar::TypeScript
    }
}

fn language_for(file_path: &str) -> (res: Grammar)
    ensures
        res == grammar_for(file_path@),
{
    if str_ends_with(file_path, ".cs") {
        Grammar::CSharp
    } else {
        Grammar::TypeScript
    }
}

/// The structural fingerprint of an entity: that of the syntax tree that
/// tree-sitter builds from its source with the grammar of its file.
pub open spec fn entity_fingerprint(e: CodeEntity) -> Option<Seq<char>> {
    let g = grammar_for(e.file_path@);
    fingerprint_of(syntax_of(g, encode_utf8(e.source@)))
}

/// The structural fingerprints of a list of entities.
pub open spec fn entity_fingerprints(entities: Seq<CodeEntity>) -> Seq<Option<Seq<char>>> {
    entities.map_values(|e: CodeEntity| entity_fingerprint(e))
}

/// The structural fingerprint of an entity's source, parsed with the grammar
/// of its file. Nothing when the source has fewer than `MIN_TOKENS` abstract
/// tokens.
pub fn structural_fingerprint(entity: &CodeEntity) -> (res: Option<String>)
    ensures
        opt_chars(res) == entity_fingerprint(*entity),
{
    let grammar = language_for(entity.file_path.as_str());
    match parse_syntax(grammar, entity.source.as_str()) {
        Ok(nodes) => fingerprint_of_syntax(&nodes),
        Err(_) => None,
    }
}

/// The fingerprints of a list of entities, as characters.
pub open spec fn opt_keys(v: Seq<Option<String>>) -> Seq<Option<Seq<char>>> {
    v.map_values(|o: Option<String>| opt_chars(o))
}

/// Some other entry has the same key as entry `j`.
pub open spec fn has_twin<K>(keys: Seq<K>, j: int) -> bool {
    exists|k: int| 0 <= k < keys.len() && k != j && keys[k] == keys[j]
}

/// A structural group is reported when it has two or more members, they have
/// a fingerprint, and not every member has an exact clone (a twin among the
/// exact hashes).
pub open spec fn keep_structural(fps: Seq<Option<Seq<char>>>, hashes: Seq<Seq<char>>, g: Seq<int>) -> bool {
    &&& g.len() >= 2
    &&& forall|m: int| 0 <= m < g.len() ==> (#[trigger] fps[g[m]]) is Some
    &&& !(forall|m: int| 0 <= m < g.len() ==> has_twin(hashes, #[trigger] g[m]))
}

/// The exact hashes of the entities.
pub open spec fn exact_hashes(entities: Seq<CodeEntity>) -> Seq<Seq<char>> {
    entities.map_values(|e: CodeEntity| entity_hash(e.source@))
}

/// The structural clone groups, as index groups, for the given fingerprints:
/// the groups of equal fingerprints in order of their first entity, keeping
/// those that `keep_structural` accepts.
pub open spec fn structural_groups(entities: Seq<CodeEntity>, fps: Seq<Option<Seq<char>>>) -> Seq<Seq<int>> {
    key_groups(fps, fps.len() as int, |g: Seq<int>| keep_structural(fps, exact_hashes(entities), g))
}

/// Every member of the index group of key `k` below `n` is an index below `n` whose key is `k`.
pub proof fn lemma_indices_with<K>(keys: Seq<K>, k: K, n: int)
    requires
        n <= keys.len(),
    ensures
        forall|m: int| 0 <= m < indices_with(keys, k, n).len() ==> {
            &&& 0 <= #[trigger] indices_with(keys, k, n)[m] < n
            &&& keys[indices_with(keys, k, n)[m]] == k
        },
    decreases n,
{
    if n > 0 {
        lemma_indices_with(keys, k, n - 1);
        let prev = indices_with(keys, k, n - 1);
        let cur = indices_with(keys, k, n);
        assert forall|m: int| 0 <= m < cur.len() implies {
            &&& 0 <= #[trigger] cur[m] < n
            &&& keys[cur[m]] == k
        } by {
            if m < prev.len() {
                assert(cur[m] == prev[m]);
            }
        }
    }
}

fn opt_str_eq(a: &Option<String>, b: &Option<String>) -> (res: bool)
    ensures
        res == (opt_chars(*a) == opt_chars(*b)),
{
    match (a, b) {
        (Some(x), Some(y)) => str_eq(x.as_str(), y.as_str()),
        (None, None) => true,
        _ => false,
    }
}

fn first_fingerprint(fps: &Vec<Option<String>>, i: usize) -> (res: bool)
    requires
        i < fps.len(),
    ensures
        res == first_of_key(opt_keys(fps@), i as int),
{
    let ghost ks = opt_keys(fps@);
    let mut j: usize = 0;
    while j < i
        invariant
            i < fps.len(),
            j <= i,
            ks == opt_keys(fps@),
            forall|m: int| 0 <= m < j ==> ks[m] != ks[i as int],
        decreases i - j,
    {
        assert(ks[j as int] == opt_chars(fps@[j as int]) && ks[i as int] == opt_chars(fps@[i as int]));
        if opt_str_eq(&fps[j], &fps[i]) {
            return false;
        }
        j = j + 1;
    }
    true
}

/// The indices whose fingerprint equals fingerprint `i`, in order.
fn fingerprint_members(fps: &Vec<Option<String>>, i: usize) -> (res: Vec<usize>)
    requires
        i < fps.len(),
    ensures
        res.len() == indices_with(opt_keys(fps@), opt_keys(fps@)[i as int], fps.len() as int).len(),
        forall|m: int| 0 <= m < res.len() ==> #[trigger] res@[m] as int
            == indices_with(opt_keys(fps@), opt_keys(fps@)[i as int], fps.len() as int)[m],
{
    let ghost ks = opt_keys(fps@);
    let mut out: Vec<usize> = Vec::new();
    let mut j: usize = 0;
    while j < fps.len()
        invariant
            i < fps.len(),
            j <= fps.len(),
            ks == opt_keys(fps@),
            out.len() == indices_with(ks, ks[i as int], j as int).len(),
            forall|m: int| 0 <= m < out.len() ==> #[trigger] out@[m] as int
                == indices_with(ks, ks[i as int], j as int)[m],
        decreases fps.len() - j,
    {
        assert(ks[j as int] == opt_chars(fps@[j as int]) && ks[i as int] == opt_chars(fps@[i as int]));
        if opt_str_eq(&fps[j], &fps[i]) {
            out.push(j);
        }
        j = j + 1;
    }
    out
}

fn twin_at(keys: &Vec<String>, j: usize) -> (res: bool)
    requires
        j < keys.len(),
    ensures
        res == has_twin(keys_view(keys@), j as int),
{
    let ghost ks = keys_view(keys@);
    let mut k: usize = 0;
    while k < keys.len()
        invariant
            j < keys.len(),
            k <= keys.len(),
            ks == keys_view(keys@),
            forall|m: int| 0 <= m < k ==> !(m != j && #[trigger] ks[m] == ks[j as int]),
        decreases keys.len() - k,
    {
        if k != j && str_eq(keys[k].as_str(), keys[j].as_str()) {
            assert(ks[k as int] == ks[j as int]);
            return true;
        }
        k = k + 1;
    }
    false
}

/// Groups of two or more entities that share a structural fingerprint, given
/// the fingerprint of each entity (`fingerprints[i]` for `entities[i]`):
/// one group for each fingerprint, in order of its first entity, the entities
/// of a group in input order. A group is left out when each of its members
/// has an exact clone among the entities (exact clones are reported apart).
pub fn structural_clone_groups<'a>(entities: &'a [CodeEntity], fingerprints: &Vec<Option<String>>)
    -> (res: Vec<Vec<&'a CodeEntity>>)
    requires
        fingerprints.len() == entities.len(),
    ensures
        groups_hold(res@, structural_groups(entities@, opt_keys(fingerprints@)), entities@),
{
    let mut hashes: Vec<String> = Vec::new();
    let mut i: usize = 0;
    while i < entities.len()
        invariant
            i <= entities.len(),
            hashes.len() == i,
            forall|j: int| 0 <= j < i ==> #[trigger] hashes@[j]@ == entity_hash(entities@[j].source@),
        decreases entities.len() - i,
    {
        hashes.push(hash_entity(&entities[i]));
        i = i + 1;
    }
    let ghost hks = keys_view(hashes@);
    assert(hks =~= exact_hashes(entities@));
    let mut twins: Vec<bool> = Vec::new();
    let mut i: usize = 0;
    while i < entities.len()
        invariant
            i <= entities.len(),
            hashes.len() == entities.len(),
            hks == keys_view(hashes@),
            twins.len() == i,
            forall|j: int| 0 <= j < i ==> #[trigger] twins@[j] == has_twin(hks, j),
        decreases entities.len() - i,
    {
        twins.push(twin_at(&hashes, i));
        i = i + 1;
    }
    let ghost fks = opt_keys(fingerprints@);
    let ghost keep: spec_fn(Seq<int>) -> bool = |g: Seq<int>| keep_structural(fks, hks, g);
    let mut groups: Vec<Vec<&'a CodeEntity>> = Vec::new();
    let ghost mut idx: Seq<Seq<int>> = Seq::empty();
    let mut i: usize = 0;
    while i < entities.len()
        invariant
            i <= entities.len(),
            fingerprints.len() == entities.len(),
            twins.len() == entities.len(),
            fks == opt_keys(fingerprints@),
            forall|j: int| 0 <= j < entities.len() ==> #[trigger] twins@[j] == has_twin(hks, j),
            keep == (|g: Seq<int>| keep_structural(fks, hks, g)),
            idx == key_groups(fks, i as int, keep),
            groups_hold(groups@, idx, entities@),
        decreases entities.len() - i,
    {
        if first_fingerprint(fingerprints, i) {
            let members = fingerprint_members(fingerprints, i);
            let ghost g = indices_with(fks, fks[i as int], fks.len() as int);
            proof { lemma_indices_with(fks, fks[i as int], fks.len() as int); }
            let mut all_twins = true;
            let mut m: usize = 0;
            while m < members.len()
                invariant
                    m <= members.len(),
                    members.len() == g.len(),
                    twins.len() == entities.len(),
                    fks.len() == entities.len(),
                    forall|k: int| 0 <= k < members.len() ==> #[trigger] members@[k] as int == g[k],
                    forall|k: int| 0 <= k < g.len() ==> 0 <= #[trigger] g[k] < fks.len(),
                    forall|j: int| 0 <= j < entities.len() ==> #[trigger] twins@[j] == has_twin(hks, j),
                    all_twins == (forall|k: int| 0 <= k < m ==> has_twin(hks, #[trigger] g[k])),
                decreases members.len() - m,
            {
                assert(members@[m as int] as int == g[m as int]);
                if !twins[members[m]] {
                    all_twins = false;
                }
                m = m + 1;
            }
            let kept = members.len() >= 2 && fingerprints[i].is_some() && !all_twins;
            proof {
                if g.len() >= 2 {
                    if fingerprints@[i as int] is Some {
                        assert forall|k: int| 0 <= k < g.len() implies (#[trigger] fks[g[k]]) is Some by {
                            assert(fks[g[k]] == fks[i as int]);
                        }
                    } else {
                        assert(fks[g[0]] == fks[i as int]);
                    }
                }
                assert(keep(g) == kept);
            }
            if kept {
                let mut group: Vec<&'a CodeEntity> = Vec::new();
                let mut m: usize = 0;
                while m < members.len()
                    invariant
                        m <= members.len(),
                        members.len() == g.len(),
                        fks.len() == entities.len(),
                        forall|k: int| 0 <= k < members.len() ==> #[trigger] members@[k] as int == g[k],
                        forall|k: int| 0 <= k < g.len() ==> 0 <= #[trigger] g[k] < fks.len(),
                        group.len() == m,
                        forall|k: int| 0 <= k < m ==> *(#[trigger] group@[k]) == entities@[g[k]],
                    decreases members.len() - m,
                {
                    assert(members@[m as int] as int == g[m as int]);
                    group.push(&entities[members[m]]);
                    m = m + 1;
                }
                let ghost old_groups = groups@;
                groups.push(group);
                proof {
                    let old_idx = idx;
                    idx = idx.push(g);
                    assert(idx =~= key_groups(fks, i + 1, keep));
                    assert forall|gi: int| 0 <= gi < groups.len() implies {
                        &&& #[trigger] groups@[gi].len() == idx[gi].len()
                        &&& forall|m: int| 0 <= m < groups@[gi].len() ==> {
                            &&& 0 <= #[trigger] idx[gi][m] < entities@.len()
                            &&& *groups@[gi]@[m] == entities@[idx[gi][m]]
                        }
                    } by {
                        if gi < old_idx.len() {
                            assert(groups@[gi] == old_groups[gi]);
                        }
                    }
                }
            } else {
                assert(idx =~= key_groups(fks, i + 1, keep));
            }
        } else {
            assert(idx =~= key_groups(fks, i + 1, keep));
        }
        i = i + 1;
    }
    groups
}

/// Groups of two or more entities with the same syntax shape once
/// identifiers are abstracted (see `structural_fingerprint`), one group per
/// fingerprint in order of its first entity; groups whose members all have
/// exact clones are left to the exact-clone detector.
pub fn find_structural_clones<'a>(entities: &'a [CodeEntity]) -> (res: Vec<Vec<&'a CodeEntity>>)
    ensures
        groups_hold(res@, structural_groups(entities@, entity_fingerprints(entities@)), entities@),
{
    let mut fingerprints: Vec<Option<String>> = Vec::new();
    let mut i: usize = 0;
    while i < entities.len()
        invariant
            i <= entities.len(),
            fingerprints.len() == i,
            forall|j: int| 0 <= j < i ==> #[trigger] opt_chars(fingerprints@[j]) == entity_fingerprint(entities@[j]),
        decreases entities.len() - i,
    {
        fingerprints.push(structural_fingerprint(&entities[i]));
        i = i + 1;
    }
    let res = structural_clone_groups(entities, &fingerprints);
    assert(opt_keys(fingerprints@) =~= entity_fingerprints(entities@)) by {
        assert forall|j: int| 0 <= j < entities.len() implies
            #[trigger] opt_keys(fingerprints@)[j] == entity_fingerprints(entities@)[j] by {
            assert(opt_chars(fingerprints@[j]) == entity_fingerprint(entities@[j]));
        }
    }
    res
}

/// Every structural clone group holds two or more entities, all with the
/// same structural fingerprint, and not every one of them has an exact clone.
pub proof fn lemma_structural_groups_sound(entities: Seq<CodeEntity>, fps: Seq<Option<Seq<char>>>)
    requires
        fps.len() == entities.len(),
    ensures
        forall|a: int| 0 <= a < structural_groups(entities, fps).len() ==> {
            let g = #[trigger] structural_groups(entities, fps)[a];
            &&& g.len() >= 2
            &&& forall|m: int| 0 <= m < g.len() ==> 0 <= #[trigger] g[m] < entities.len() && fps[g[m]] == fps[g[0]] && fps[g[m]] is Some
            &&& exists|m: int| 0 <= m < g.len() && !has_twin(exact_hashes(entities), #[trigger] g[m])
        },
{
    let keep = |g: Seq<int>| keep_structural(fps, exact_hashes(entities), g);
    crate::duplicates::hasher::lemma_key_groups_origin(fps, fps.len() as int, keep);
    assert forall|a: int| 0 <= a < structural_groups(entities, fps).len() implies {
        let g = #[trigger] structural_groups(entities, fps)[a];
        &&& g.len() >= 2
        &&& forall|m: int| 0 <= m < g.len() ==> 0 <= #[trigger] g[m] < entities.len() && fps[g[m]] == fps[g[0]] && fps[g[m]] is Some
        &&& exists|m: int| 0 <= m < g.len() && !has_twin(exact_hashes(entities), #[trigger] g[m])
    } by {
        let g = structural_groups(entities, fps)[a];
        let i = choose|i: int| 0 <= i < fps.len()
            && #[trigger] key_groups(fps, fps.len() as int, keep)[a] == indices_with(fps, fps[i], fps.len() as int)
            && keep(key_groups(fps, fps.len() as int, keep)[a]);
        lemma_indices_with(fps, fps[i], fps.len() as int);
        assert(keep_structural(fps, exact_hashes(entities), g));
        assert forall|m: int| 0 <= m < g.len() implies 0 <= #[trigger] g[m] < entities.len() && fps[g[m]] == fps[g[0]] && fps[g[m]] is Some by {
            assert(fps[g[m]] == fps[i]);
            assert(fps[g[0]] == fps[i]);
        }
    }
}

/// The structural clone groups part the entities with a fingerprint: each
/// group is the list, in input order, of all entities with one fingerprint;
/// no entity lies in two groups; and the entities sharing a fingerprint form
/// a group exactly when `keep_structural` accepts them (two or more, not all
/// exact clones).
pub proof fn lemma_structural_groups_partition(entities: Seq<CodeEntity>, fps: Seq<Option<Seq<char>>>)
    requires
        fps.len() == entities.len(),
    ensures
        forall|a: int| 0 <= a < structural_groups(entities, fps).len() ==> exists|p: int| 0 <= p < fps.len()
            && (#[trigger] structural_groups(entities, fps)[a]) == indices_with(fps, fps[p], fps.len() as int),
        forall|a: int, m1: int, m2: int| 0 <= a < structural_groups(entities, fps).len() && 0 <= m1 < m2 < structural_groups(entities, fps)[a].len()
            ==> #[trigger] structural_groups(entities, fps)[a][m1] < #[trigger] structural_groups(entities, fps)[a][m2],
        forall|a: int, b: int, m1: int, m2: int| 0 <= a < b < structural_groups(entities, fps).len()
            && 0 <= m1 < structural_groups(entities, fps)[a].len() && 0 <= m2 < structural_groups(entities, fps)[b].len()
            ==> #[trigger] structural_groups(entities, fps)[a][m1] != #[trigger] structural_groups(entities, fps)[b][m2],
        forall|p: int| 0 <= p < fps.len() ==> (
            keep_structural(fps, exact_hashes(entities), indices_with(fps, #[trigger] fps[p], fps.len() as int))
            <==> exists|a: int| 0 <= a < structural_groups(entities, fps).len()
                && (#[trigger] structural_groups(entities, fps)[a]) == indices_with(fps, fps[p], fps.len() as int)),
{
    let len = fps.len() as int;
    let keep = |g: Seq<int>| keep_structural(fps, exact_hashes(entities), g);
    let gs = structural_groups(entities, fps);
    let gk = crate::duplicates::hasher::key_group_keys(fps, len, keep);
    crate::duplicates::hasher::lemma_key_groups_keys(fps, len, keep);
    assert forall|a: int| 0 <= a < gs.len() implies exists|p: int| 0 <= p < fps.len()
        && (#[trigger] gs[a]) == indices_with(fps, fps[p], len) by {
        assert(gs[a] == indices_with(fps, gk[a], len));
        let i = choose|i: int| 0 <= i < len && fps[i] == gk[a];
        assert(gs[a] == indices_with(fps, fps[i], len));
    }
    assert forall|a: int, m1: int, m2: int| 0 <= a < gs.len() && 0 <= m1 < m2 < gs[a].len()
        implies #[trigger] gs[a][m1] < #[trigger] gs[a][m2] by {
        assert(gs[a] == indices_with(fps, gk[a], len));
        crate::duplicates::hasher::lemma_indices_with_complete(fps, gk[a], len);
    }
    assert forall|a: int, b: int, m1: int, m2: int| 0 <= a < b < gs.len()
        && 0 <= m1 < gs[a].len() && 0 <= m2 < gs[b].len() implies #[trigger] gs[a][m1] != #[trigger] gs[b][m2] by {
        assert(gs[a] == indices_with(fps, gk[a], len));
        assert(gs[b] == indices_with(fps, gk[b], len));
        lemma_indices_with(fps, gk[a], len);
        lemma_indices_with(fps, gk[b], len);
        assert(gk[a] != gk[b]);
        assert(fps[gs[a][m1]] == gk[a]);
        assert(fps[gs[b][m2]] == gk[b]);
    }
    assert forall|p: int| 0 <= p < fps.len() implies (
        keep_structural(fps, exact_hashes(entities), indices_with(fps, #[trigger] fps[p], len))
        <==> exists|a: int| 0 <= a < gs.len() && (#[trigger] gs[a]) == indices_with(fps, fps[p], len)) by {
        let g = indices_with(fps, fps[p], len);
        if keep(g) {
            assert(gk.contains(fps[p]));
            let a = choose|a: int| 0 <= a < gk.len() && gk[a] == fps[p];
            assert(gs[a] == g);
        }
        if exists|a: int| 0 <= a < gs.len() && (#[trigger] gs[a]) == g {
            let a = choose|a: int| 0 <= a < gs.len() && (#[trigger] gs[a]) == g;
            assert(keep(gs[a]));
        }
    }
}

} // verus!
