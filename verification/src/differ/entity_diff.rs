//! Matching entities of two revisions by identity and reporting what was
//! added, removed, modified or moved.
use vstd::prelude::*;
use crate::text::opt_chars;
use vstd::string::StringExecFns;
use crate::manifest::schema::{ChangeKind, EntityChange, EntityChangeView, changes_view};
use crate::parser::types::{
    CodeEntity, CodeEntityView, EntityKind, entities_view, entity_kind_name,
    parent_or_empty, strings_view, unique_key_of,
};
use crate::text::str_eq;

verus! {

/// `kind::parent::name`: what identifies an entity across revisions,
/// whatever file holds it.
pub open spec fn identity_key_of(e: CodeEntityView) -> Seq<char> {
    entity_kind_name(e.kind) + "::"@ + parent_or_empty(e.parent) + "::"@ + e.name
}

/// No later entity of `s` has the identity of entity `i`.
pub open spec fn is_last_of_key(s: Seq<CodeEntityView>, i: int) -> bool {
    forall|j: int| i < j < s.len() ==> identity_key_of(s[j]) != identity_key_of(s[i])
}

/// The index of the last entity of `s` with identity `k`.
pub open spec fn last_with_key(s: Seq<CodeEntityView>, k: Seq<char>) -> Option<int>
    decreases s.len(),
{
    if s.len() == 0 {
        None
    } else if identity_key_of(s.last()) == k {
        Some(s.len() - 1)
    } else {
        last_with_key(s.drop_last(), k)
    }
}

/// Entities with identity `k` stand in more than one file of `s`.
pub open spec fn key_in_many_files(s: Seq<CodeEntityView>, k: Seq<char>) -> bool {
    exists|i: int, j: int|
        0 <= i < s.len() && 0 <= j < s.len() && identity_key_of(s[i]) == k && identity_key_of(s[j]) == k
            && s[i].file_path != s[j].file_path
}

/// The change reporting entity `a` as new.
pub open spec fn added_change(a: CodeEntityView) -> EntityChangeView {
    EntityChangeView {
        kind: ChangeKind::Added,
        entity_key: unique_key_of(a),
        name: a.name,
        file_path: a.file_path,
        entity_kind: entity_kind_name(a.kind),
        before_signature: None,
        after_signature: Some(a.signature),
        before_source: None,
        after_source: Some(a.source),
        old_file_path: None,
        old_name: None,
    }
}

/// The change reporting entity `b` as gone.
pub open spec fn removed_change(b: CodeEntityView) -> EntityChangeView {
    EntityChangeView {
        kind: ChangeKind::Removed,
        entity_key: unique_key_of(b),
        name: b.name,
        file_path: b.file_path,
        entity_kind: entity_kind_name(b.kind),
        before_signature: Some(b.signature),
        after_signature: None,
        before_source: Some(b.source),
        after_source: None,
        old_file_path: None,
        old_name: None,
    }
}

/// The change from `b` to `a`: moved (from `b`'s file) or modified.
pub open spec fn matched_change(kind: ChangeKind, b: CodeEntityView, a: CodeEntityView) -> EntityChangeView {
    EntityChangeView {
        kind,
        entity_key: unique_key_of(a),
        name: a.name,
        file_path: a.file_path,
        entity_kind: entity_kind_name(a.kind),
        before_signature: Some(b.signature),
        after_signature: Some(a.signature),
        before_source: Some(b.source),
        after_source: Some(a.source),
        old_file_path: if kind == ChangeKind::Moved { Some(b.file_path) } else { None },
        old_name: None,
    }
}

/// What entity `i` of `after` reports: added when no entity of `before` has
/// its identity; moved when the last such entity stands in another file and
/// the identity stands in one file only in each revision; modified when the
/// signature or the source differ; else nothing.
pub open spec fn after_change(before: Seq<CodeEntityView>, after: Seq<CodeEntityView>, i: int) -> Option<EntityChangeView> {
    let a = after[i];
    let k = identity_key_of(a);
    match last_with_key(before, k) {
        Some(b) => {
            let be = before[b];
            if be.file_path != a.file_path && !(key_in_many_files(before, k) || key_in_many_files(after, k)) {
                Some(matched_change(ChangeKind::Moved, be, a))
            } else if be.signature != a.signature || be.source != a.source {
                Some(matched_change(ChangeKind::Modified, be, a))
            } else {
                None
            }
        },
        None => Some(added_change(a)),
    }
}

/// A change as a sequence of zero or one changes.
pub open spec fn opt_change(c: Option<EntityChangeView>) -> Seq<EntityChangeView> {
    match c {
        Some(x) => seq![x],
        None => Seq::empty(),
    }
}

/// The changes reported for the first `n` entities of `after`, counting
/// each identity once, at its last entity.
pub open spec fn after_changes(before: Seq<CodeEntityView>, after: Seq<CodeEntityView>, n: int) -> Seq<EntityChangeView>
    decreases n,
{
    if n <= 0 {
        Seq::empty()
    } else {
        after_changes(before, after, n - 1)
            + (if is_last_of_key(after, n - 1) { opt_change(after_change(before, after, n - 1)) } else { Seq::empty() })
    }
}

/// The removals among the first `n` entities of `before`: identities that
/// no entity of `after` has, each once, at its last entity.
pub open spec fn removed_changes(before: Seq<CodeEntityView>, after: Seq<CodeEntityView>, n: int) -> Seq<EntityChangeView>
    decreases n,
{
    if n <= 0 {
        Seq::empty()
    } else {
        removed_changes(before, after, n - 1)
            + (if is_last_of_key(before, n - 1) && last_with_key(after, identity_key_of(before[n - 1])) is None {
                seq![removed_change(before[n - 1])]
            } else {
                Seq::empty()
            })
    }
}

/// All changes from `before` to `after`: those of `after`'s entities in
/// order, then the removals in `before`'s order.
pub open spec fn entity_diff(before: Seq<CodeEntityView>, after: Seq<CodeEntityView>) -> Seq<EntityChangeView> {
    after_changes(before, after, after.len() as int) + removed_changes(before, after, before.len() as int)
}

proof fn lemma_last_with_key_of_last(s: Seq<CodeEntityView>, i: int)
    requires
        0 <= i < s.len(),
        is_last_of_key(s, i),
    ensures
        last_with_key(s, identity_key_of(s[i])) == Some(i),
{
    lemma_last_with_key(s, identity_key_of(s[i]));
}

/// Diffing a list of entities against itself reports no change.
pub proof fn lemma_diff_of_same_is_empty(s: Seq<CodeEntityView>)
    ensures
        entity_diff(s, s) == Seq::<EntityChangeView>::empty(),
{
    lemma_after_changes_same(s, s.len() as int);
    lemma_removed_changes_same(s, s.len() as int);
    assert(entity_diff(s, s) =~= Seq::<EntityChangeView>::empty());
}

proof fn lemma_after_changes_same(s: Seq<CodeEntityView>, n: int)
    requires
        0 <= n <= s.len(),
    ensures
        after_changes(s, s, n) == Seq::<EntityChangeView>::empty(),
    decreases n,
{
    if n > 0 {
        lemma_after_changes_same(s, n - 1);
        if is_last_of_key(s, n - 1) {
            lemma_last_with_key_of_last(s, n - 1);
            assert(after_change(s, s, n - 1) is None);
        }
        assert(after_changes(s, s, n) =~= Seq::<EntityChangeView>::empty());
    }
}

proof fn lemma_removed_changes_same(s: Seq<CodeEntityView>, n: int)
    requires
        0 <= n <= s.len(),
    ensures
        removed_changes(s, s, n) == Seq::<EntityChangeView>::empty(),
    decreases n,
{
    if n > 0 {
        lemma_removed_changes_same(s, n - 1);
        if is_last_of_key(s, n - 1) {
            lemma_last_with_key_of_last(s, n - 1);
        }
        assert(removed_changes(s, s, n) =~= Seq::<EntityChangeView>::empty());
    }
}

/// `kind::parent::name` of an entity.
fn identity_key(e: &CodeEntity) -> (res: String)
    ensures
        res@ == identity_key_of(e@),
{
    let mut res = String::from_str(e.kind.as_str());
    res.append("::");
    match &e.parent {
        Some(p) => res.append(p.as_str()),
        None => {},
    }
    res.append("::");
    res.append(e.name.as_str());
    proof {
        if e.parent is None {
            assert(parent_or_empty(opt_chars(e.parent)) == Seq::<char>::empty());
        }
    }
    res
}

fn keys_of(v: &[CodeEntity]) -> (res: Vec<String>)
    ensures
        res.len() == v.len(),
        forall|i: int| 0 <= i < v.len() ==> #[trigger] res@[i]@ == identity_key_of(v@[i]@),
{
    let mut res: Vec<String> = Vec::new();
    let mut i: usize = 0;
    while i < v.len()
        invariant
            i <= v.len(),
            res.len() == i,
            forall|j: int| 0 <= j < i ==> #[trigger] res@[j]@ == identity_key_of(v@[j]@),
        decreases v.len() - i,
    {
        res.push(identity_key(&v[i]));
        i = i + 1;
    }
    res
}

/// Keys agree with the entities' identities.
pub open spec fn keys_match(keys: Seq<String>, s: Seq<CodeEntityView>) -> bool {
    keys.len() == s.len() && forall|i: int| 0 <= i < s.len() ==> #[trigger] keys[i]@ == identity_key_of(s[i])
}

fn last_of_key(keys: &Vec<String>, i: usize, Ghost(s): Ghost<Seq<CodeEntityView>>) -> (res: bool)
    requires
        keys_match(keys@, s),
        i < keys.len(),
    ensures
        res == is_last_of_key(s, i as int),
{
    let mut j = i + 1;
    while j < keys.len()
        invariant
            keys_match(keys@, s),
            i < j <= keys.len(),
            forall|m: int| i < m < j ==> identity_key_of(s[m]) != identity_key_of(s[i as int]),
        decreases keys.len() - j,
    {
        if str_eq(keys[j].as_str(), keys[i].as_str()) {
            assert(keys@[j as int]@ == identity_key_of(s[j as int]));
            return false;
        }
        j = j + 1;
    }
    true
}

proof fn lemma_last_with_key(s: Seq<CodeEntityView>, k: Seq<char>)
    ensures
        match last_with_key(s, k) {
            Some(b) => 0 <= b < s.len() && identity_key_of(s[b]) == k
                && forall|j: int| b < j < s.len() ==> identity_key_of(s[j]) != k,
            None => forall|j: int| 0 <= j < s.len() ==> identity_key_of(s[j]) != k,
        },
    decreases s.len(),
{
    if s.len() > 0 && identity_key_of(s.last()) != k {
        lemma_last_with_key(s.drop_last(), k);
        assert forall|j: int| 0 <= j < s.len() - 1 implies s.drop_last()[j] == s[j] by {}
    }
}

fn find_last_key(keys: &Vec<String>, k: &str, Ghost(s): Ghost<Seq<CodeEntityView>>) -> (res: Option<usize>)
    requires
        keys_match(keys@, s),
    ensures
        res == (match last_with_key(s, k@) {
            Some(b) => Some(b as usize),
            None => None::<usize>,
        }),
{
    proof { lemma_last_with_key(s, k@); }
    let mut n = keys.len();
    while n > 0
        invariant
            keys_match(keys@, s),
            n <= keys.len(),
            forall|j: int| n <= j < s.len() ==> identity_key_of(s[j]) != k@,
        decreases n,
    {
        if str_eq(keys[n - 1].as_str(), k) {
            assert(identity_key_of(s[n - 1]) == k@);
            proof { lemma_last_with_key(s, k@); }
            return Some(n - 1);
        }
        n = n - 1;
    }
    proof { lemma_last_with_key(s, k@); }
    None
}

proof fn lemma_many_files(s: Seq<CodeEntityView>, k: Seq<char>, f: int)
    requires
        0 <= f < s.len(),
        identity_key_of(s[f]) == k,
    ensures
        key_in_many_files(s, k) <==> exists|j: int| 0 <= j < s.len() && identity_key_of(s[j]) == k && s[j].file_path != s[f].file_path,
{
    if key_in_many_files(s, k) {
        let (i, j) = choose|i: int, j: int|
            0 <= i < s.len() && 0 <= j < s.len() && identity_key_of(s[i]) == k && identity_key_of(s[j]) == k
                && s[i].file_path != s[j].file_path;
        if s[i].file_path != s[f].file_path {
            assert(0 <= i < s.len() && identity_key_of(s[i]) == k && s[i].file_path != s[f].file_path);
        } else {
            assert(0 <= j < s.len() && identity_key_of(s[j]) == k && s[j].file_path != s[f].file_path);
        }
    }
}

/// Whether entities with identity `k` stand in more than one file of `v`.
fn in_many_files(v: &[CodeEntity], keys: &Vec<String>, k: &str) -> (res: bool)
    requires
        keys_match(keys@, entities_view(v@)),
    ensures
        res == key_in_many_files(entities_view(v@), k@),
{
    let ghost s = entities_view(v@);
    let mut first: Option<usize> = None;
    let mut j: usize = 0;
    while j < v.len()
        invariant
            keys_match(keys@, s),
            s == entities_view(v@),
            j <= v.len(),
            match first {
                Some(f) => f < j && identity_key_of(s[f as int]) == k@
                    && forall|m: int| 0 <= m < j && identity_key_of(s[m]) == k@ ==> s[m].file_path == s[f as int].file_path,
                None => forall|m: int| 0 <= m < j ==> identity_key_of(s[m]) != k@,
            },
        decreases v.len() - j,
    {
        assert(keys@[j as int]@ == identity_key_of(s[j as int]));
        if str_eq(keys[j].as_str(), k) {
            match first {
                Some(f) => {
                    if !str_eq(v[j].file_path.as_str(), v[f].file_path.as_str()) {
                        proof { lemma_many_files(s, k@, f as int); }
                        return true;
                    }
                },
                None => {
                    first = Some(j);
                },
            }
        }
        j = j + 1;
    }
    proof {
        match first {
            Some(f) => { lemma_many_files(s, k@, f as int); },
            None => {},
        }
    }
    false
}

/// The identities that stand in more than one file of `entities`, each once
/// (at its last entity), in order.
pub open spec fn ambiguous_key_seq(s: Seq<CodeEntityView>, n: int) -> Seq<Seq<char>>
    decreases n,
{
    if n <= 0 {
        Seq::empty()
    } else {
        ambiguous_key_seq(s, n - 1)
            + (if is_last_of_key(s, n - 1) && key_in_many_files(s, identity_key_of(s[n - 1])) {
                seq![identity_key_of(s[n - 1])]
            } else {
                Seq::empty()
            })
    }
}

/// The identities of `entities` that stand in more than one file; moves
/// cannot be told apart for them.
fn ambiguous_keys(entities: &[CodeEntity]) -> (res: Vec<String>)
    ensures
        strings_view(res@) == ambiguous_key_seq(entities_view(entities@), entities.len() as int),
{
    let ghost s = entities_view(entities@);
    let keys = keys_of(entities);
    let mut res: Vec<String> = Vec::new();
    let mut i: usize = 0;
    while i < entities.len()
        invariant
            s == entities_view(entities@),
            keys_match(keys@, s),
            i <= entities.len(),
            strings_view(res@) == ambiguous_key_seq(s, i as int),
        decreases entities.len() - i,
    {
        if last_of_key(&keys, i, Ghost(s)) && in_many_files(entities, &keys, keys[i].as_str()) {
            let k = keys[i].clone();
            proof {
                assert(strings_view(res@.push(k)) =~= strings_view(res@).push(k@));
            }
            res.push(k);
        }
        i = i + 1;
    }
    res
}

proof fn lemma_ambiguous_seq_sound(s: Seq<CodeEntityView>, n: int, x: Seq<char>)
    requires
        0 <= n <= s.len(),
        ambiguous_key_seq(s, n).contains(x),
    ensures
        key_in_many_files(s, x),
    decreases n,
{
    if n > 0 {
        let prev = ambiguous_key_seq(s, n - 1);
        let extra = if is_last_of_key(s, n - 1) && key_in_many_files(s, identity_key_of(s[n - 1])) {
            seq![identity_key_of(s[n - 1])]
        } else {
            Seq::<Seq<char>>::empty()
        };
        assert(ambiguous_key_seq(s, n) == prev + extra);
        let k = choose|k: int| 0 <= k < (prev + extra).len() && (prev + extra)[k] == x;
        if k < prev.len() {
            assert(prev[k] == x);
            lemma_ambiguous_seq_sound(s, n - 1, x);
        } else {
            assert(extra[k - prev.len()] == x);
        }
    }
}

proof fn lemma_ambiguous_seq_prefix(s: Seq<CodeEntityView>, m: int, n: int, x: Seq<char>)
    requires
        0 <= m <= n <= s.len(),
        ambiguous_key_seq(s, m).contains(x),
    ensures
        ambiguous_key_seq(s, n).contains(x),
    decreases n - m,
{
    if m < n {
        lemma_ambiguous_seq_prefix(s, m, n - 1, x);
        let prev = ambiguous_key_seq(s, n - 1);
        let k = choose|k: int| 0 <= k < prev.len() && prev[k] == x;
        let extra = if is_last_of_key(s, n - 1) && key_in_many_files(s, identity_key_of(s[n - 1])) {
            seq![identity_key_of(s[n - 1])]
        } else {
            Seq::<Seq<char>>::empty()
        };
        assert((prev + extra)[k] == x);
    }
}

/// An identity is listed as ambiguous exactly when it stands in more than one file.
pub proof fn lemma_ambiguous_contains(s: Seq<CodeEntityView>, x: Seq<char>)
    ensures
        ambiguous_key_seq(s, s.len() as int).contains(x) <==> key_in_many_files(s, x),
{
    if ambiguous_key_seq(s, s.len() as int).contains(x) {
        lemma_ambiguous_seq_sound(s, s.len() as int, x);
    }
    if key_in_many_files(s, x) {
        let (i, j) = choose|i: int, j: int|
            0 <= i < s.len() && 0 <= j < s.len() && identity_key_of(s[i]) == x && identity_key_of(s[j]) == x
                && s[i].file_path != s[j].file_path;
        lemma_last_with_key(s, x);
        let b = last_with_key(s, x)->0;
        assert(is_last_of_key(s, b));
        assert(ambiguous_key_seq(s, b + 1) == ambiguous_key_seq(s, b) + seq![x]);
        assert((ambiguous_key_seq(s, b) + seq![x])[ambiguous_key_seq(s, b).len() as int] == x);
        lemma_ambiguous_seq_prefix(s, b + 1, s.len() as int, x);
    }
}

fn contains_string(v: &Vec<String>, k: &str) -> (res: bool)
    ensures
        res == strings_view(v@).contains(k@),
{
    let mut i: usize = 0;
    while i < v.len()
        invariant
            i <= v.len(),
            forall|j: int| 0 <= j < i ==> strings_view(v@)[j] != k@,
        decreases v.len() - i,
    {
        if str_eq(v[i].as_str(), k) {
            assert(strings_view(v@)[i as int] == k@);
            return true;
        }
        i = i + 1;
    }
    false
}

fn added_change_of(a: &CodeEntity) -> (res: EntityChange)
    ensures
        res@ == added_change(a@),
{
    EntityChange {
        kind: ChangeKind::Added,
        entity_key: a.unique_key(),
        name: a.name.clone(),
        file_path: a.file_path.clone(),
        entity_kind: String::from_str(a.kind.as_str()),
        before_signature: None,
        after_signature: Some(a.signature.clone()),
        before_source: None,
        after_source: Some(a.source.clone()),
        old_file_path: None,
        old_name: None,
    }
}

fn removed_change_of(b: &CodeEntity) -> (res: EntityChange)
    ensures
        res@ == removed_change(b@),
{
    EntityChange {
        kind: ChangeKind::Removed,
        entity_key: b.unique_key(),
        name: b.name.clone(),
        file_path: b.file_path.clone(),
        entity_kind: String::from_str(b.kind.as_str()),
        before_signature: Some(b.signature.clone()),
        after_signature: None,
        before_source: Some(b.source.clone()),
        after_source: None,
        old_file_path: None,
        old_name: None,
    }
}

fn matched_change_of(kind: ChangeKind, b: &CodeEntity, a: &CodeEntity) -> (res: EntityChange)
    requires
        kind == ChangeKind::Moved || kind == ChangeKind::Modified,
    ensures
        res@ == matched_change(kind, b@, a@),
{
    EntityChange {
        kind,
        entity_key: a.unique_key(),
        name: a.name.clone(),
        file_path: a.file_path.clone(),
        entity_kind: String::from_str(a.kind.as_str()),
        before_signature: Some(b.signature.clone()),
        after_signature: Some(a.signature.clone()),
        before_source: Some(b.source.clone()),
        after_source: Some(a.source.clone()),
        old_file_path: if kind == ChangeKind::Moved { Some(b.file_path.clone()) } else { None },
        old_name: None,
    }
}

proof fn lemma_push_change(v: Seq<EntityChange>, x: EntityChange)
    ensures
        changes_view(v.push(x)) == changes_view(v).push(x@),
{
    assert(changes_view(v.push(x)) =~= changes_view(v).push(x@));
}

/// The structural changes from the entities `before` to the entities
/// `after`, matched by identity (`kind::parent::name`): for each identity of
/// `after` (at its last entity, in order) an addition, a move or a
/// modification when there is one, then a removal for each identity of
/// `before` that `after` lacks.
pub fn diff_entities(before: &[CodeEntity], after: &[CodeEntity]) -> (res: Vec<EntityChange>)
    ensures
        changes_view(res@) == entity_diff(entities_view(before@), entities_view(after@)),
{
    let ghost bs = entities_view(before@);
    let ghost afs = entities_view(after@);
    let bk = keys_of(before);
    let ak = keys_of(after);
    let mut ambiguous = ambiguous_keys(before);
    let mut more = ambiguous_keys(after);
    let ghost amb_b = strings_view(ambiguous@);
    let ghost amb_a = strings_view(more@);
    ambiguous.append(&mut more);
    proof {
        assert(strings_view(ambiguous@) =~= amb_b + amb_a);
        assert forall|x: Seq<char>| strings_view(ambiguous@).contains(x) <==>
            (key_in_many_files(bs, x) || key_in_many_files(afs, x)) by {
            lemma_ambiguous_contains(bs, x);
            lemma_ambiguous_contains(afs, x);
            if (amb_b + amb_a).contains(x) {
                let k = choose|k: int| 0 <= k < (amb_b + amb_a).len() && (amb_b + amb_a)[k] == x;
                if k < amb_b.len() {
                    assert(amb_b[k] == x);
                } else {
                    assert(amb_a[k - amb_b.len()] == x);
                }
            }
            if amb_b.contains(x) {
                let k = choose|k: int| 0 <= k < amb_b.len() && amb_b[k] == x;
                assert((amb_b + amb_a)[k] == x);
            }
            if amb_a.contains(x) {
                let k = choose|k: int| 0 <= k < amb_a.len() && amb_a[k] == x;
                assert((amb_b + amb_a)[k + amb_b.len()] == x);
            }
        }
    }
    let mut changes: Vec<EntityChange> = Vec::new();
    let mut i: usize = 0;
    while i < after.len()
        invariant
            bs == entities_view(before@),
            afs == entities_view(after@),
            bs.len() == before.len(),
            afs.len() == after.len(),
            keys_match(bk@, bs),
            keys_match(ak@, afs),
            forall|x: Seq<char>| strings_view(ambiguous@).contains(x) <==>
                (key_in_many_files(bs, x) || key_in_many_files(afs, x)),
            i <= after.len(),
            changes_view(changes@) == after_changes(bs, afs, i as int),
        decreases after.len() - i,
    {
        let ghost prev = changes_view(changes@);
        if last_of_key(&ak, i, Ghost(afs)) {
            let a = &after[i];
            assert(ak@[i as int]@ == identity_key_of(afs[i as int]));
            match find_last_key(&bk, ak[i].as_str(), Ghost(bs)) {
                Some(b) => {
                    proof { lemma_last_with_key(bs, identity_key_of(afs[i as int])); }
                    let be = &before[b];
                    if !str_eq(be.file_path.as_str(), a.file_path.as_str())
                        && !contains_string(&ambiguous, ak[i].as_str())
                    {
                        let c = matched_change_of(ChangeKind::Moved, be, a);
                        proof { lemma_push_change(changes@, c); }
                        changes.push(c);
                    } else if !str_eq(be.signature.as_str(), a.signature.as_str())
                        || !str_eq(be.source.as_str(), a.source.as_str())
                    {
                        let c = matched_change_of(ChangeKind::Modified, be, a);
                        proof { lemma_push_change(changes@, c); }
                        changes.push(c);
                    } else {
                        assert(changes_view(changes@) =~= prev + Seq::<EntityChangeView>::empty());
                    }
                },
                None => {
                    let c = added_change_of(a);
                    proof { lemma_push_change(changes@, c); }
                    changes.push(c);
                },
            }
        } else {
            assert(changes_view(changes@) =~= prev + Seq::<EntityChangeView>::empty());
        }
        i = i + 1;
    }
    let ghost after_part = changes_view(changes@);
    let mut j: usize = 0;
    while j < before.len()
        invariant
            bs == entities_view(before@),
            afs == entities_view(after@),
            bs.len() == before.len(),
            afs.len() == after.len(),
            keys_match(bk@, bs),
            keys_match(ak@, afs),
            after_part == after_changes(bs, afs, afs.len() as int),
            j <= before.len(),
            changes_view(changes@) == after_part + removed_changes(bs, afs, j as int),
        decreases before.len() - j,
    {
        assert(bk@[j as int]@ == identity_key_of(bs[j as int]));
        if last_of_key(&bk, j, Ghost(bs)) && find_last_key(&ak, bk[j].as_str(), Ghost(afs)).is_none() {
            let c = removed_change_of(&before[j]);
            proof { lemma_push_change(changes@, c); }
            changes.push(c);
            assert(changes_view(changes@) =~= after_part + removed_changes(bs, afs, j + 1));
        } else {
            assert(changes_view(changes@) =~= after_part + removed_changes(bs, afs, j + 1));
        }
        j = j + 1;
    }
    changes
}

/// Some entity of `s` has identity `k`.
pub open spec fn has_key(s: Seq<CodeEntityView>, k: Seq<char>) -> bool {
    exists|i: int| 0 <= i < s.len() && identity_key_of(#[trigger] s[i]) == k
}

/// The identity of each change that `after_changes` reports, in order.
pub open spec fn after_change_keys(before: Seq<CodeEntityView>, after: Seq<CodeEntityView>, n: int) -> Seq<Seq<char>>
    decreases n,
{
    if n <= 0 {
        Seq::empty()
    } else {
        after_change_keys(before, after, n - 1)
            + (if is_last_of_key(after, n - 1) && after_change(before, after, n - 1) is Some {
                seq![identity_key_of(after[n - 1])]
            } else {
                Seq::empty()
            })
    }
}

/// The identity of each change that `removed_changes` reports, in order.
pub open spec fn removed_change_keys(before: Seq<CodeEntityView>, after: Seq<CodeEntityView>, n: int) -> Seq<Seq<char>>
    decreases n,
{
    if n <= 0 {
        Seq::empty()
    } else {
        removed_change_keys(before, after, n - 1)
            + (if is_last_of_key(before, n - 1) && last_with_key(after, identity_key_of(before[n - 1])) is None {
                seq![identity_key_of(before[n - 1])]
            } else {
                Seq::empty()
            })
    }
}

/// The identity of each change of `entity_diff`, in order.
pub open spec fn diff_keys(before: Seq<CodeEntityView>, after: Seq<CodeEntityView>) -> Seq<Seq<char>> {
    after_change_keys(before, after, after.len() as int) + removed_change_keys(before, after, before.len() as int)
}

/// Entity `i` of `after` is the last with identity `k` and reports change `c`.
pub open spec fn after_origin(before: Seq<CodeEntityView>, after: Seq<CodeEntityView>, i: int, k: Seq<char>, c: EntityChangeView) -> bool {
    &&& 0 <= i < after.len()
    &&& is_last_of_key(after, i)
    &&& identity_key_of(after[i]) == k
    &&& after_change(before, after, i) == Some(c)
}

/// Entity `i` of `before` is the last with identity `k`, which `after`
/// lacks, and `c` reports it removed.
pub open spec fn removed_origin(before: Seq<CodeEntityView>, after: Seq<CodeEntityView>, i: int, k: Seq<char>, c: EntityChangeView) -> bool {
    &&& 0 <= i < before.len()
    &&& is_last_of_key(before, i)
    &&& identity_key_of(before[i]) == k
    &&& last_with_key(after, k) is None
    &&& c == removed_change(before[i])
}

/// Change `m` of the first `n` entities of `after` has an origin.
pub open spec fn after_keyed(before: Seq<CodeEntityView>, after: Seq<CodeEntityView>, n: int, m: int) -> bool {
    exists|i: int| 0 <= i < n
        && #[trigger] after_origin(before, after, i, after_change_keys(before, after, n)[m], after_changes(before, after, n)[m])
}

/// Removal `m` of the first `n` entities of `before` has an origin.
pub open spec fn removed_keyed(before: Seq<CodeEntityView>, after: Seq<CodeEntityView>, n: int, m: int) -> bool {
    exists|i: int| 0 <= i < n
        && #[trigger] removed_origin(before, after, i, removed_change_keys(before, after, n)[m], removed_changes(before, after, n)[m])
}

proof fn lemma_after_change_keys(before: Seq<CodeEntityView>, after: Seq<CodeEntityView>, n: int)
    requires
        0 <= n <= after.len(),
    ensures
        after_change_keys(before, after, n).len() == after_changes(before, after, n).len(),
        forall|m: int| 0 <= m < after_changes(before, after, n).len() ==> #[trigger] after_keyed(before, after, n, m),
        forall|m1: int, m2: int| 0 <= m1 < m2 < after_change_keys(before, after, n).len()
            ==> #[trigger] after_change_keys(before, after, n)[m1] != #[trigger] after_change_keys(before, after, n)[m2],
    decreases n,
{
    if n > 0 {
        lemma_after_change_keys(before, after, n - 1);
        let pk = after_change_keys(before, after, n - 1);
        let pc = after_changes(before, after, n - 1);
        let ck = after_change_keys(before, after, n);
        let cc = after_changes(before, after, n);
        let added = is_last_of_key(after, n - 1) && after_change(before, after, n - 1) is Some;
        assert forall|m: int| 0 <= m < cc.len() implies #[trigger] after_keyed(before, after, n, m) by {
            if m < pc.len() {
                assert(ck[m] == pk[m] && cc[m] == pc[m]);
                assert(after_keyed(before, after, n - 1, m));
                let i = choose|i: int| 0 <= i < n - 1 && #[trigger] after_origin(before, after, i, pk[m], pc[m]);
                assert(after_origin(before, after, i, ck[m], cc[m]));
            } else {
                assert(ck[m] == identity_key_of(after[n - 1]));
                assert(cc[m] == after_change(before, after, n - 1)->0);
                assert(after_origin(before, after, n - 1, ck[m], cc[m]));
            }
        }
        assert forall|m1: int, m2: int| 0 <= m1 < m2 < ck.len() implies #[trigger] ck[m1] != #[trigger] ck[m2] by {
            assert(ck[m1] == pk[m1]);
            if m2 < pk.len() {
                assert(ck[m2] == pk[m2]);
            } else {
                assert(added);
                assert(after_keyed(before, after, n - 1, m1));
                let i = choose|i: int| 0 <= i < n - 1 && #[trigger] after_origin(before, after, i, pk[m1], pc[m1]);
                assert(identity_key_of(after[n - 1]) != identity_key_of(after[i]));
            }
        }
    }
}

proof fn lemma_removed_change_keys(before: Seq<CodeEntityView>, after: Seq<CodeEntityView>, n: int)
    requires
        0 <= n <= before.len(),
    ensures
        removed_change_keys(before, after, n).len() == removed_changes(before, after, n).len(),
        forall|m: int| 0 <= m < removed_changes(before, after, n).len() ==> #[trigger] removed_keyed(before, after, n, m),
        forall|m1: int, m2: int| 0 <= m1 < m2 < removed_change_keys(before, after, n).len()
            ==> #[trigger] removed_change_keys(before, after, n)[m1] != #[trigger] removed_change_keys(before, after, n)[m2],
    decreases n,
{
    if n > 0 {
        lemma_removed_change_keys(before, after, n - 1);
        let pk = removed_change_keys(before, after, n - 1);
        let pc = removed_changes(before, after, n - 1);
        let ck = removed_change_keys(before, after, n);
        let cc = removed_changes(before, after, n);
        let added = is_last_of_key(before, n - 1) && last_with_key(after, identity_key_of(before[n - 1])) is None;
        assert forall|m: int| 0 <= m < cc.len() implies #[trigger] removed_keyed(before, after, n, m) by {
            if m < pc.len() {
                assert(ck[m] == pk[m] && cc[m] == pc[m]);
                assert(removed_keyed(before, after, n - 1, m));
                let i = choose|i: int| 0 <= i < n - 1 && #[trigger] removed_origin(before, after, i, pk[m], pc[m]);
                assert(removed_origin(before, after, i, ck[m], cc[m]));
            } else {
                assert(ck[m] == identity_key_of(before[n - 1]));
                assert(cc[m] == removed_change(before[n - 1]));
                assert(removed_origin(before, after, n - 1, ck[m], cc[m]));
            }
        }
        assert forall|m1: int, m2: int| 0 <= m1 < m2 < ck.len() implies #[trigger] ck[m1] != #[trigger] ck[m2] by {
            assert(ck[m1] == pk[m1]);
            if m2 < pk.len() {
                assert(ck[m2] == pk[m2]);
            } else {
                assert(added);
                assert(removed_keyed(before, after, n - 1, m1));
                let i = choose|i: int| 0 <= i < n - 1 && #[trigger] removed_origin(before, after, i, pk[m1], pc[m1]);
                assert(identity_key_of(before[n - 1]) != identity_key_of(before[i]));
            }
        }
    }
}

proof fn lemma_after_keys_grow(before: Seq<CodeEntityView>, after: Seq<CodeEntityView>, m: int, n: int, k: Seq<char>)
    requires
        0 <= m <= n <= after.len(),
        after_change_keys(before, after, m).contains(k),
    ensures
        after_change_keys(before, after, n).contains(k),
    decreases n - m,
{
    if m < n {
        lemma_after_keys_grow(before, after, m, n - 1, k);
        let prev = after_change_keys(before, after, n - 1);
        let j = choose|j: int| 0 <= j < prev.len() && prev[j] == k;
        assert(after_change_keys(before, after, n)[j] == prev[j]);
    }
}

proof fn lemma_removed_keys_grow(before: Seq<CodeEntityView>, after: Seq<CodeEntityView>, m: int, n: int, k: Seq<char>)
    requires
        0 <= m <= n <= before.len(),
        removed_change_keys(before, after, m).contains(k),
    ensures
        removed_change_keys(before, after, n).contains(k),
    decreases n - m,
{
    if m < n {
        lemma_removed_keys_grow(before, after, m, n - 1, k);
        let prev = removed_change_keys(before, after, n - 1);
        let j = choose|j: int| 0 <= j < prev.len() && prev[j] == k;
        assert(removed_change_keys(before, after, n)[j] == prev[j]);
    }
}

/// The diff reports each identity (`kind::parent::name`) at most once. A
/// change is an addition exactly when its identity is new in `after`, a
/// removal exactly when its identity is gone from `after`, and a move or
/// modification only when both revisions have its identity; no change is a
/// rename or has an old name. Every new identity is reported as added, and
/// every gone identity as removed.
#[verifier::spinoff_prover]
pub proof fn lemma_diff_one_change_per_identity(before: Seq<CodeEntityView>, after: Seq<CodeEntityView>)
    ensures
        diff_keys(before, after).len() == entity_diff(before, after).len(),
        forall|m1: int, m2: int| 0 <= m1 < m2 < diff_keys(before, after).len()
            ==> #[trigger] diff_keys(before, after)[m1] != #[trigger] diff_keys(before, after)[m2],
        forall|m: int| 0 <= m < entity_diff(before, after).len() ==> {
            let c = #[trigger] entity_diff(before, after)[m];
            let k = diff_keys(before, after)[m];
            &&& (c.kind == ChangeKind::Added) == (has_key(after, k) && !has_key(before, k))
            &&& (c.kind == ChangeKind::Removed) == (has_key(before, k) && !has_key(after, k))
            &&& (c.kind == ChangeKind::Modified || c.kind == ChangeKind::Moved) ==> has_key(before, k) && has_key(after, k)
            &&& c.kind != ChangeKind::Renamed
            &&& c.old_name is None
        },
        forall|k: Seq<char>| has_key(after, k) && !has_key(before, k) ==> #[trigger] diff_keys(before, after).contains(k),
        forall|k: Seq<char>| has_key(before, k) && !has_key(after, k) ==> #[trigger] diff_keys(before, after).contains(k),
{
    let na = after.len() as int;
    let nb = before.len() as int;
    lemma_after_change_keys(before, after, na);
    lemma_removed_change_keys(before, after, nb);
    let ak = after_change_keys(before, after, na);
    let ac = after_changes(before, after, na);
    let rk = removed_change_keys(before, after, nb);
    let rc = removed_changes(before, after, nb);
    let dk = diff_keys(before, after);
    let d = entity_diff(before, after);
    assert(dk == ak + rk);
    assert(d == ac + rc);
    assert forall|m: int| 0 <= m < d.len() implies {
        let c = #[trigger] d[m];
        let k = dk[m];
        &&& (c.kind == ChangeKind::Added) == (has_key(after, k) && !has_key(before, k))
        &&& (c.kind == ChangeKind::Removed) == (has_key(before, k) && !has_key(after, k))
        &&& (c.kind == ChangeKind::Modified || c.kind == ChangeKind::Moved) ==> has_key(before, k) && has_key(after, k)
        &&& c.kind != ChangeKind::Renamed
        &&& c.old_name is None
    } by {
        if m < ac.len() {
            assert(d[m] == ac[m] && dk[m] == ak[m]);
            assert(after_keyed(before, after, na, m));
            let i = choose|i: int| 0 <= i < na && #[trigger] after_origin(before, after, i, ak[m], ac[m]);
            let k = ak[m];
            assert(has_key(after, k)) by { assert(identity_key_of(after[i]) == k); }
            lemma_last_with_key(before, k);
            match last_with_key(before, k) {
                Some(b) => {
                    assert(has_key(before, k)) by { assert(identity_key_of(before[b]) == k); }
                },
                None => {
                    if has_key(before, k) {
                        let j = choose|j: int| 0 <= j < before.len() && identity_key_of(#[trigger] before[j]) == k;
                        assert(false);
                    }
                },
            }
        } else {
            let m2 = m - ac.len();
            assert(d[m] == rc[m2] && dk[m] == rk[m2]);
            assert(removed_keyed(before, after, nb, m2));
            let i = choose|i: int| 0 <= i < nb && #[trigger] removed_origin(before, after, i, rk[m2], rc[m2]);
            let k = rk[m2];
            assert(has_key(before, k)) by { assert(identity_key_of(before[i]) == k); }
            lemma_last_with_key(after, k);
            if has_key(after, k) {
                let j = choose|j: int| 0 <= j < after.len() && identity_key_of(#[trigger] after[j]) == k;
                assert(false);
            }
        }
    }
    assert forall|m1: int, m2: int| 0 <= m1 < m2 < dk.len() implies #[trigger] dk[m1] != #[trigger] dk[m2] by {
        if m2 < ak.len() {
            assert(dk[m1] == ak[m1] && dk[m2] == ak[m2]);
        } else if m1 >= ak.len() {
            assert(dk[m1] == rk[m1 - ak.len()] && dk[m2] == rk[m2 - ak.len()]);
        } else {
            assert(dk[m1] == ak[m1] && dk[m2] == rk[m2 - ak.len()]);
            assert(after_keyed(before, after, na, m1));
            assert(removed_keyed(before, after, nb, m2 - ak.len()));
            let i = choose|i: int| 0 <= i < na && #[trigger] after_origin(before, after, i, ak[m1], ac[m1]);
            let j = choose|j: int| 0 <= j < nb && #[trigger] removed_origin(before, after, j, rk[m2 - ak.len()], rc[m2 - ak.len()]);
            lemma_last_with_key(after, identity_key_of(before[j]));
        }
    }
    assert forall|k: Seq<char>| has_key(after, k) && !has_key(before, k) implies #[trigger] dk.contains(k) by {
        lemma_last_with_key(after, k);
        lemma_last_with_key(before, k);
        let j0 = choose|j: int| 0 <= j < after.len() && identity_key_of(#[trigger] after[j]) == k;
        let j = last_with_key(after, k)->0;
        if last_with_key(before, k) is Some {
            let b = last_with_key(before, k)->0;
            assert(identity_key_of(before[b]) == k);
        }
        assert(is_last_of_key(after, j));
        assert(after_change_keys(before, after, j + 1) == after_change_keys(before, after, j) + seq![k]);
        assert(after_change_keys(before, after, j + 1)[after_change_keys(before, after, j).len() as int] == k);
        lemma_after_keys_grow(before, after, j + 1, na, k);
        let x = choose|x: int| 0 <= x < ak.len() && ak[x] == k;
        assert(dk[x] == ak[x]);
    }
    assert forall|k: Seq<char>| has_key(before, k) && !has_key(after, k) implies #[trigger] dk.contains(k) by {
        lemma_last_with_key(after, k);
        lemma_last_with_key(before, k);
        let j0 = choose|j: int| 0 <= j < before.len() && identity_key_of(#[trigger] before[j]) == k;
        let j = last_with_key(before, k)->0;
        if last_with_key(after, k) is Some {
            let b = last_with_key(after, k)->0;
            assert(identity_key_of(after[b]) == k);
        }
        assert(is_last_of_key(before, j));
        assert(removed_change_keys(before, after, j + 1) == removed_change_keys(before, after, j) + seq![k]);
        assert(removed_change_keys(before, after, j + 1)[removed_change_keys(before, after, j).len() as int] == k);
        lemma_removed_keys_grow(before, after, j + 1, nb, k);
        let x = choose|x: int| 0 <= x < rk.len() && rk[x] == k;
        assert(dk[ak.len() + x] == rk[x]);
    }
}

proof fn lemma_after_prefix(before: Seq<CodeEntityView>, after: Seq<CodeEntityView>, n: int, n2: int)
    requires
        0 <= n <= n2 <= after.len(),
    ensures
        after_change_keys(before, after, n).len() <= after_change_keys(before, after, n2).len(),
        after_changes(before, after, n).len() <= after_changes(before, after, n2).len(),
        forall|j: int| 0 <= j < after_change_keys(before, after, n).len()
            ==> after_change_keys(before, after, n2)[j] == #[trigger] after_change_keys(before, after, n)[j],
        forall|j: int| 0 <= j < after_changes(before, after, n).len()
            ==> after_changes(before, after, n2)[j] == #[trigger] after_changes(before, after, n)[j],
    decreases n2 - n,
{
    if n < n2 {
        lemma_after_prefix(before, after, n, n2 - 1);
        let k1 = after_change_keys(before, after, n2 - 1);
        let c1 = after_changes(before, after, n2 - 1);
        assert forall|j: int| 0 <= j < k1.len() implies after_change_keys(before, after, n2)[j] == k1[j] by {}
        assert forall|j: int| 0 <= j < c1.len() implies after_changes(before, after, n2)[j] == c1[j] by {}
    }
}

/// For an identity `k` that both revisions have, with `b` and `a` its last
/// entities in `before` and in `after`: the diff reports `k` as moved from
/// `b`'s file when the two files differ and neither revision has `k` in more
/// than one file; else as modified when the signatures or the sources
/// differ; and else not at all.
#[verifier::spinoff_prover]
pub proof fn lemma_diff_of_shared_identity(before: Seq<CodeEntityView>, after: Seq<CodeEntityView>, k: Seq<char>)
    requires
        has_key(before, k),
        has_key(after, k),
    ensures
        ({
            let b = before[last_with_key(before, k)->0];
            let a = after[last_with_key(after, k)->0];
            let moved = b.file_path != a.file_path && !(key_in_many_files(before, k) || key_in_many_files(after, k));
            let modified = b.signature != a.signature || b.source != a.source;
            &&& (moved || modified) ==> exists|m: int| 0 <= m < entity_diff(before, after).len()
                && #[trigger] diff_keys(before, after)[m] == k
                && entity_diff(before, after)[m] == matched_change(
                    if moved { ChangeKind::Moved } else { ChangeKind::Modified }, b, a)
            &&& !(moved || modified) ==> !diff_keys(before, after).contains(k)
        }),
{
    lemma_last_with_key(before, k);
    lemma_last_with_key(after, k);
    if last_with_key(before, k) is None {
        let j = choose|j: int| 0 <= j < before.len() && identity_key_of(#[trigger] before[j]) == k;
        assert(false);
    }
    if last_with_key(after, k) is None {
        let j = choose|j: int| 0 <= j < after.len() && identity_key_of(#[trigger] after[j]) == k;
        assert(false);
    }
    let bi = last_with_key(before, k)->0;
    let ai = last_with_key(after, k)->0;
    let b = before[bi];
    let a = after[ai];
    let moved = b.file_path != a.file_path && !(key_in_many_files(before, k) || key_in_many_files(after, k));
    let modified = b.signature != a.signature || b.source != a.source;
    assert(is_last_of_key(after, ai));
    assert(identity_key_of(after[ai]) == k);
    let na = after.len() as int;
    let nb = before.len() as int;
    lemma_after_change_keys(before, after, na);
    lemma_removed_change_keys(before, after, nb);
    let ak = after_change_keys(before, after, na);
    let ac = after_changes(before, after, na);
    let rk = removed_change_keys(before, after, nb);
    let dk = diff_keys(before, after);
    let d = entity_diff(before, after);
    assert(dk == ak + rk);
    assert(d == ac + removed_changes(before, after, nb));
    if moved || modified {
        let c = matched_change(if moved { ChangeKind::Moved } else { ChangeKind::Modified }, b, a);
        assert(after_change(before, after, ai) == Some(c));
        let pk = after_change_keys(before, after, ai);
        lemma_after_change_keys(before, after, ai);
        assert(after_change_keys(before, after, ai + 1) == pk + seq![k]);
        assert(after_changes(before, after, ai + 1) == after_changes(before, after, ai) + seq![c]);
        let m = pk.len() as int;
        assert(after_change_keys(before, after, ai + 1)[m] == k);
        assert(after_changes(before, after, ai + 1)[m] == c);
        lemma_after_prefix(before, after, ai + 1, na);
        assert(ak[m] == k);
        assert(ac[m] == c);
        assert(dk[m] == k && d[m] == c);
    } else {
        assert(after_change(before, after, ai) is None);
        if dk.contains(k) {
            let m = choose|m: int| 0 <= m < dk.len() && dk[m] == k;
            if m < ak.len() {
                assert(dk[m] == ak[m]);
                assert(after_keyed(before, after, na, m));
                let i = choose|i: int| 0 <= i < na && #[trigger] after_origin(before, after, i, ak[m], ac[m]);
                if i < ai {
                    assert(identity_key_of(after[ai]) != identity_key_of(after[i]));
                } else if i > ai {
                    assert(identity_key_of(after[i]) != k);
                }
                assert(i == ai);
            } else {
                let m2 = m - ak.len();
                assert(dk[m] == rk[m2]);
                assert(removed_keyed(before, after, nb, m2));
                let i = choose|i: int| 0 <= i < nb && #[trigger] removed_origin(before, after, i, rk[m2], removed_changes(before, after, nb)[m2]);
                assert(last_with_key(after, k) is None);
            }
        }
    }
}

/// No character of `s` is a colon.
pub open spec fn colon_free(s: Seq<char>) -> bool {
    forall|i: int| 0 <= i < s.len() ==> #[trigger] s[i] != ':'
}

#[verifier::spinoff_prover]
proof fn lemma_entity_kind_names()
    ensures
        forall|k: EntityKind| #[trigger] entity_kind_name(k).len() > 1,
        forall|k: EntityKind| colon_free(#[trigger] entity_kind_name(k)),
        forall|a: EntityKind, b: EntityKind| #[trigger] entity_kind_name(a) == #[trigger] entity_kind_name(b) ==> a == b,
{
    reveal_strlit("function");
    reveal_strlit("method");
    reveal_strlit("class");
    reveal_strlit("interface");
    reveal_strlit("enum");
    reveal_strlit("import");
    reveal_strlit("export");
    reveal_strlit("property");
    reveal_strlit("constructor");
    assert forall|k: EntityKind| colon_free(#[trigger] entity_kind_name(k)) by {
        match k {
            EntityKind::Function => {},
            EntityKind::Method => {},
            EntityKind::Class => {},
            EntityKind::Interface => {},
            EntityKind::Enum => {},
            EntityKind::Import => {},
            EntityKind::Export => {},
            EntityKind::Property => {},
            EntityKind::Constructor => {},
        }
    }
    assert forall|a: EntityKind, b: EntityKind| #[trigger] entity_kind_name(a) == #[trigger] entity_kind_name(b) implies a == b by {
        let x = entity_kind_name(a);
        let y = entity_kind_name(b);
        assert(x.len() == y.len() && x[0] == y[0]);
        match a {
            EntityKind::Function => { assert(b == EntityKind::Function); },
            EntityKind::Method => { assert(b == EntityKind::Method); },
            EntityKind::Class => { assert(b == EntityKind::Class); },
            EntityKind::Interface => { assert(b == EntityKind::Interface); },
            EntityKind::Enum => { assert(b == EntityKind::Enum); },
            EntityKind::Import => { assert(b == EntityKind::Import); },
            EntityKind::Export => { assert(b == EntityKind::Export); },
            EntityKind::Property => { assert(b == EntityKind::Property); },
            EntityKind::Constructor => { assert(b == EntityKind::Constructor); },
        }
    }
}

/// Two entities share an identity only when they have the same kind, the
/// same parent and the same name (parents, being identifiers, hold no colon).
#[verifier::spinoff_prover]
pub proof fn lemma_identity_key_injective(a: CodeEntityView, b: CodeEntityView)
    requires
        identity_key_of(a) == identity_key_of(b),
        colon_free(parent_or_empty(a.parent)),
        colon_free(parent_or_empty(b.parent)),
    ensures
        a.kind == b.kind,
        parent_or_empty(a.parent) == parent_or_empty(b.parent),
        a.name == b.name,
{
    lemma_entity_kind_names();
    reveal_strlit("::");
    let ka = entity_kind_name(a.kind);
    let kb = entity_kind_name(b.kind);
    let pa = parent_or_empty(a.parent);
    let pb = parent_or_empty(b.parent);
    let key = identity_key_of(a);
    assert(key == ka + "::"@ + pa + "::"@ + a.name);
    assert(key == kb + "::"@ + pb + "::"@ + b.name);
    if ka.len() < kb.len() {
        assert(key[ka.len() as int] == ':');
        assert(key[ka.len() as int] == kb[ka.len() as int]);
    } else if kb.len() < ka.len() {
        assert(key[kb.len() as int] == ':');
        assert(key[kb.len() as int] == ka[kb.len() as int]);
    }
    assert(ka =~= key.subrange(0, ka.len() as int));
    assert(kb =~= key.subrange(0, kb.len() as int));
    assert(a.kind == b.kind);
    let o: int = ka.len() + 2int;
    if pa.len() < pb.len() {
        assert(key[o + pa.len()] == ':');
        assert(key[o + pa.len()] == pb[pa.len() as int]);
    } else if pb.len() < pa.len() {
        assert(key[o + pb.len()] == ':');
        assert(key[o + pb.len()] == pa[pb.len() as int]);
    }
    assert(pa =~= key.subrange(o, o + pa.len()));
    assert(pb =~= key.subrange(o, o + pb.len()));
    assert(a.name =~= key.subrange(o + pa.len() + 2, key.len() as int));
    assert(b.name =~= key.subrange(o + pb.len() + 2, key.len() as int));
}

proof fn lemma_removed_prefix(before: Seq<CodeEntityView>, after: Seq<CodeEntityView>, n: int, n2: int)
    requires
        0 <= n <= n2 <= before.len(),
    ensures
        removed_changes(before, after, n).len() <= removed_changes(before, after, n2).len(),
        forall|j: int| 0 <= j < removed_changes(before, after, n).len()
            ==> removed_changes(before, after, n2)[j] == #[trigger] removed_changes(before, after, n)[j],
    decreases n2 - n,
{
    if n < n2 {
        lemma_removed_prefix(before, after, n, n2 - 1);
        let c1 = removed_changes(before, after, n2 - 1);
        assert forall|j: int| 0 <= j < c1.len() implies removed_changes(before, after, n2)[j] == c1[j] by {}
    }
}

/// Every entity of `before` whose kind, parent and name no entity of
/// `after` shares is reported removed, with its kind and name (parents, being
/// identifiers, hold no colon).
#[verifier::spinoff_prover]
pub proof fn lemma_diff_reports_removed(before: Seq<CodeEntityView>, after: Seq<CodeEntityView>, j: int)
    requires
        0 <= j < before.len(),
        forall|i: int| 0 <= i < before.len() ==> colon_free(parent_or_empty((#[trigger] before[i]).parent)),
        forall|i: int| 0 <= i < after.len() ==> colon_free(parent_or_empty((#[trigger] after[i]).parent)),
        forall|h: int| 0 <= h < after.len() ==> !((#[trigger] after[h]).kind == before[j].kind
            && parent_or_empty(after[h].parent) == parent_or_empty(before[j].parent) && after[h].name == before[j].name),
    ensures
        exists|m: int| 0 <= m < entity_diff(before, after).len()
            && (#[trigger] entity_diff(before, after)[m]).kind == ChangeKind::Removed
            && entity_diff(before, after)[m].name == before[j].name
            && entity_diff(before, after)[m].entity_kind == entity_kind_name(before[j].kind),
{
    let k = identity_key_of(before[j]);
    lemma_last_with_key(after, k);
    if last_with_key(after, k) is Some {
        let h = last_with_key(after, k)->0;
        lemma_identity_key_injective(after[h], before[j]);
        assert(false);
    }
    lemma_last_with_key(before, k);
    let bi = last_with_key(before, k)->0;
    lemma_identity_key_injective(before[bi], before[j]);
    assert(is_last_of_key(before, bi));
    let c = removed_change(before[bi]);
    let prev = removed_changes(before, after, bi);
    assert(removed_changes(before, after, bi + 1) == prev + seq![c]);
    let m0 = prev.len() as int;
    assert(removed_changes(before, after, bi + 1)[m0] == c);
    lemma_removed_prefix(before, after, bi + 1, before.len() as int);
    let rc = removed_changes(before, after, before.len() as int);
    let ac = after_changes(before, after, after.len() as int);
    assert(rc[m0] == c);
    assert(entity_diff(before, after)[ac.len() + m0] == c);
}

} // verus!
