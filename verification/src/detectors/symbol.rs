//! Symbol-level changes between two revisions.
use vstd::prelude::*;
use crate::text::opt_chars;
use vstd::string::StringExecFns;
use crate::detectors::change::{file_at, find_path, has_path, lemma_file_at_unique, unique_paths};
use crate::ir::file::FileAnalysis;
use crate::ir::model::{
    Symbol, SymbolChange, SymbolChangeView, SymbolView, added_view, change_key_of, modified_view,
    removed_view, symbol_changes_view, symbols_view, SymbolChangeKind, SymbolKind, qualified_name_of,
};
use crate::order::{insert_unique, lemma_sorted_set, sorted_set, strictly_sorted, strings_of};
use crate::text::str_eq;

verus! {

/// The change keys of a list of symbols.
pub open spec fn symbol_keys(syms: Seq<Symbol>) -> Seq<Seq<char>> {
    syms.map_values(|s: Symbol| change_key_of(s@))
}

/// The index of the last of the first `n` symbols with change key `k`, or -1.
pub open spec fn last_with_key(syms: Seq<Symbol>, k: Seq<char>, n: int) -> int
    decreases n,
{
    if n <= 0 {
        -1
    } else if change_key_of(syms[n - 1]@) == k {
        n - 1
    } else {
        last_with_key(syms, k, n - 1)
    }
}

/// The symbol that stands for key `k` when symbols are looked up by key:
/// the last one with that key.
pub open spec fn symbol_for(syms: Seq<Symbol>, k: Seq<char>) -> SymbolView {
    syms[last_with_key(syms, k, syms.len() as int)]@
}



/// The changes for the first `n` keys of `keys` (the head keys, in order):
/// a key only in the head is an added symbol, a key in both whose signature
/// differs is a modified one.
pub open spec fn head_key_changes(base: Seq<Symbol>, head: Seq<Symbol>, keys: Seq<Seq<char>>, n: int) -> Seq<SymbolChangeView>
    decreases n,
{
    if n <= 0 {
        Seq::empty()
    } else {
        let k = keys[n - 1];
        let h = symbol_for(head, k);
        head_key_changes(base, head, keys, n - 1) + (if symbol_keys(base).contains(k) {
            let b = symbol_for(base, k);
            if b.signature != h.signature { seq![modified_view(b, h)] } else { Seq::empty() }
        } else {
            seq![added_view(h)]
        })
    }
}

/// The changes for the first `n` keys of `keys` (the base keys, in order): a
/// key only in the base is a removed symbol.
pub open spec fn base_key_changes(base: Seq<Symbol>, head: Seq<Symbol>, keys: Seq<Seq<char>>, n: int) -> Seq<SymbolChangeView>
    decreases n,
{
    if n <= 0 {
        Seq::empty()
    } else {
        let k = keys[n - 1];
        base_key_changes(base, head, keys, n - 1) + (if !symbol_keys(head).contains(k) {
            seq![removed_view(symbol_for(base, k))]
        } else {
            Seq::empty()
        })
    }
}

/// The symbol changes from one file's symbols to another's, matched by
/// change key: added and modified symbols in head key order, then removed
/// symbols in base key order.
pub open spec fn symbol_diff(base: Seq<Symbol>, head: Seq<Symbol>) -> Seq<SymbolChangeView> {
    let hk = sorted_set(symbol_keys(head));
    let bk = sorted_set(symbol_keys(base));
    head_key_changes(base, head, hk, hk.len() as int) + base_key_changes(base, head, bk, bk.len() as int)
}

proof fn lemma_last_with_key(syms: Seq<Symbol>, k: Seq<char>, n: int)
    requires
        0 <= n <= syms.len(),
    ensures
        -1 <= last_with_key(syms, k, n) < n,
        last_with_key(syms, k, n) >= 0 ==> change_key_of(syms[last_with_key(syms, k, n)]@) == k,
        last_with_key(syms, k, n) == -1 ==> forall|i: int| 0 <= i < n ==> change_key_of((#[trigger] syms[i])@) != k,
    decreases n,
{
    if n > 0 {
        lemma_last_with_key(syms, k, n - 1);
    }
}

/// The index of the last symbol with change key `k`, if any.
fn find_key(syms: &Vec<Symbol>, k: &str) -> (res: Option<usize>)
    ensures
        match res {
            Some(i) => i as int == last_with_key(syms@, k@, syms.len() as int) && i < syms.len()
                && symbol_keys(syms@).contains(k@),
            None => !symbol_keys(syms@).contains(k@),
        },
{
    let mut i: usize = syms.len();
    while i > 0
        invariant
            i <= syms.len(),
            last_with_key(syms@, k@, syms.len() as int) == last_with_key(syms@, k@, i as int),
        decreases i,
    {
        let key = syms[i - 1].change_key();
        if str_eq(key.as_str(), k) {
            assert(symbol_keys(syms@)[i - 1] == k@);
            return Some(i - 1);
        }
        i = i - 1;
    }
    proof {
        lemma_last_with_key(syms@, k@, syms.len() as int);
        if symbol_keys(syms@).contains(k@) {
            let j = choose|j: int| 0 <= j < syms.len() && symbol_keys(syms@)[j] == k@;
            assert(change_key_of(syms@[j]@) == k@);
        }
    }
    None
}

pub proof fn lemma_contains_push<A>(s: Seq<A>, a: A, x: A)
    ensures
        s.push(a).contains(x) <==> (s.contains(x) || x == a),
{
    if s.push(a).contains(x) {
        let i = choose|i: int| 0 <= i < s.len() + 1 && s.push(a)[i] == x;
        if i < s.len() {
            assert(s[i] == x);
        }
    }
    if s.contains(x) {
        let i = choose|i: int| 0 <= i < s.len() && s[i] == x;
        assert(s.push(a)[i] == x);
    }
    if x == a {
        assert(s.push(a)[s.len() as int] == x);
    }
}

/// The change keys of `syms`, in order, each once.
fn sorted_keys(syms: &Vec<Symbol>) -> (res: Vec<String>)
    ensures
        strings_of(res@) == sorted_set(symbol_keys(syms@)),
        forall|x: Seq<char>| #[trigger] strings_of(res@).contains(x) <==> symbol_keys(syms@).contains(x),
{
    let ghost keys = symbol_keys(syms@);
    let mut res: Vec<String> = Vec::new();
    let mut i: usize = 0;
    while i < syms.len()
        invariant
            i <= syms.len(),
            keys == symbol_keys(syms@),
            strictly_sorted(strings_of(res@)),
            forall|x: Seq<char>| #[trigger] strings_of(res@).contains(x) <==> keys.take(i as int).contains(x),
        decreases syms.len() - i,
    {
        let ghost old_res = strings_of(res@);
        let key = syms[i].change_key();
        assert(keys[i as int] == key@);
        insert_unique(&mut res, key);
        assert forall|x: Seq<char>| #[trigger] strings_of(res@).contains(x) <==> keys.take(i + 1).contains(x) by {
            assert(keys.take(i + 1) =~= keys.take(i as int).push(keys[i as int]));
            assert(old_res.contains(x) <==> keys.take(i as int).contains(x));
            lemma_contains_push(keys.take(i as int), keys[i as int], x);
        }
        i = i + 1;
    }
    assert(keys.take(syms.len() as int) =~= keys);
    proof { lemma_sorted_set(keys, strings_of(res@)); }
    res
}

fn opt_str_differ(a: &Option<String>, b: &Option<String>) -> (res: bool)
    ensures
        res == (opt_chars(*a) != opt_chars(*b)),
{
    match (a, b) {
        (Some(x), Some(y)) => !str_eq(x.as_str(), y.as_str()),
        (None, None) => false,
        _ => true,
    }
}

/// Whether two symbols have different signatures.
fn signatures_differ(base: &Symbol, head: &Symbol) -> (res: bool)
    ensures
        res == (base@.signature != head@.signature),
{
    opt_str_differ(&base.signature, &head.signature)
}

/// The symbol changes from `base`'s symbols to `head`'s (see `symbol_diff`).
fn diff_symbols(base: &FileAnalysis, head: &FileAnalysis) -> (res: Vec<SymbolChange>)
    ensures
        symbol_changes_view(res@) == symbol_diff(base.symbols@, head.symbols@),
{
    let ghost bs = base.symbols@;
    let ghost hs = head.symbols@;
    let head_keys = sorted_keys(&head.symbols);
    let base_keys = sorted_keys(&base.symbols);
    assert(forall|x: Seq<char>| #[trigger] strings_of(head_keys@).contains(x) ==> symbol_keys(hs).contains(x));
    assert(forall|x: Seq<char>| #[trigger] strings_of(base_keys@).contains(x) ==> symbol_keys(bs).contains(x));
    let ghost hk = strings_of(head_keys@);
    let ghost bk = strings_of(base_keys@);
    let mut changes: Vec<SymbolChange> = Vec::new();
    let mut i: usize = 0;
    while i < head_keys.len()
        invariant
            i <= head_keys.len(),
            bs == base.symbols@,
            hs == head.symbols@,
            hk == strings_of(head_keys@),
            hk == sorted_set(symbol_keys(hs)),
            forall|x: Seq<char>| #[trigger] hk.contains(x) ==> symbol_keys(hs).contains(x),
            symbol_changes_view(changes@) == head_key_changes(bs, hs, hk, i as int),
        decreases head_keys.len() - i,
    {
        let ghost before = changes@;
        let k = head_keys[i].as_str();
        assert(hk[i as int] == k@);
        assert(symbol_keys(hs).contains(k@)) by {
            assert(hk[i as int] == k@);
            assert(hk.contains(k@));
        }
        let h = find_key(&head.symbols, k).unwrap();
        match find_key(&base.symbols, k) {
            Some(b) => {
                if signatures_differ(&base.symbols[b], &head.symbols[h]) {
                    changes.push(SymbolChange::modified(&base.symbols[b], &head.symbols[h]));
                    assert(symbol_changes_view(changes@) =~= symbol_changes_view(before).push(
                        modified_view(symbol_for(bs, k@), symbol_for(hs, k@))));
                } else {
                    assert(symbol_changes_view(changes@) =~= symbol_changes_view(before) + Seq::<SymbolChangeView>::empty());
                }
            },
            None => {
                changes.push(SymbolChange::added(&head.symbols[h]));
                assert(symbol_changes_view(changes@) =~= symbol_changes_view(before).push(added_view(symbol_for(hs, k@))));
            },
        }
        i = i + 1;
    }
    let ghost head_part = symbol_changes_view(changes@);
    let mut i: usize = 0;
    while i < base_keys.len()
        invariant
            i <= base_keys.len(),
            bs == base.symbols@,
            hs == head.symbols@,
            bk == strings_of(base_keys@),
            bk == sorted_set(symbol_keys(bs)),
            forall|x: Seq<char>| #[trigger] bk.contains(x) ==> symbol_keys(bs).contains(x),
            symbol_changes_view(changes@) == head_part + base_key_changes(bs, hs, bk, i as int),
        decreases base_keys.len() - i,
    {
        let ghost before = changes@;
        let k = base_keys[i].as_str();
        assert(bk[i as int] == k@);
        assert(symbol_keys(bs).contains(k@)) by {
            assert(bk[i as int] == k@);
            assert(bk.contains(k@));
        }
        let b = find_key(&base.symbols, k).unwrap();
        if find_key(&head.symbols, k).is_none() {
            changes.push(SymbolChange::removed(&base.symbols[b]));
            assert(symbol_changes_view(changes@) =~= symbol_changes_view(before).push(removed_view(symbol_for(bs, k@))));
        } else {
            assert(symbol_changes_view(changes@) =~= symbol_changes_view(before) + Seq::<SymbolChangeView>::empty());
        }
        i = i + 1;
    }
    changes
}

/// The path that a head path had in the base revision: the second path of
/// the last pair whose first path is `path`, or `path` itself.
pub open spec fn rename_source(renames: Seq<(Seq<char>, Seq<char>)>, path: Seq<char>) -> Seq<char>
    decreases renames.len(),
{
    if renames.len() == 0 {
        path
    } else if renames.last().0 == path {
        renames.last().1
    } else {
        rename_source(renames.drop_last(), path)
    }
}

/// Rename pairs as plain values.
pub open spec fn pairs_view(v: Seq<(&str, &str)>) -> Seq<(Seq<char>, Seq<char>)> {
    v.map_values(|p: (&str, &str)| (p.0@, p.1@))
}

/// One change per symbol, each made by `f`.
pub open spec fn each_symbol(syms: Seq<Symbol>, f: spec_fn(SymbolView) -> SymbolChangeView) -> Seq<SymbolChangeView> {
    symbols_view(syms).map_values(f)
}

/// The changes for the first `n` head files: against the base file of the
/// same path (or of the path it was renamed from), or every symbol added
/// when there is none.
pub open spec fn head_file_changes(
    base: Seq<FileAnalysis>,
    head: Seq<FileAnalysis>,
    renames: Seq<(Seq<char>, Seq<char>)>,
    n: int,
) -> Seq<SymbolChangeView>
    decreases n,
{
    if n <= 0 {
        Seq::empty()
    } else {
        let hf = head[n - 1];
        let source = rename_source(renames, hf.path@);
        head_file_changes(base, head, renames, n - 1) + (if has_path(base, source) {
            symbol_diff(file_at(base, source).symbols@, hf.symbols@)
        } else {
            each_symbol(hf.symbols@, |s: SymbolView| added_view(s))
        })
    }
}

/// Some head file was compared with the base file of path `p`.
pub open spec fn compared(head: Seq<FileAnalysis>, renames: Seq<(Seq<char>, Seq<char>)>, p: Seq<char>) -> bool {
    exists|i: int| 0 <= i < head.len() && rename_source(renames, (#[trigger] head[i]).path@) == p
}

/// The changes for the first `n` base files: every symbol removed when no
/// head file was compared with it and the head has no file of its path.
pub open spec fn base_file_changes(
    base: Seq<FileAnalysis>,
    head: Seq<FileAnalysis>,
    renames: Seq<(Seq<char>, Seq<char>)>,
    n: int,
) -> Seq<SymbolChangeView>
    decreases n,
{
    if n <= 0 {
        Seq::empty()
    } else {
        let bf = base[n - 1];
        base_file_changes(base, head, renames, n - 1) + (if compared(head, renames, bf.path@) || has_path(head, bf.path@) {
            Seq::empty()
        } else {
            each_symbol(bf.symbols@, |s: SymbolView| removed_view(s))
        })
    }
}

/// The symbol changes from `base` to `head`.
pub open spec fn symbol_changes_of(
    base: Seq<FileAnalysis>,
    head: Seq<FileAnalysis>,
    renames: Seq<(Seq<char>, Seq<char>)>,
) -> Seq<SymbolChangeView> {
    head_file_changes(base, head, renames, head.len() as int) + base_file_changes(base, head, renames, base.len() as int)
}

/// The path a head path had in the base revision, given rename pairs.
fn rename_source_of(renames: &[(&str, &str)], path: &str) -> (res: String)
    ensures
        res@ == rename_source(pairs_view(renames@), path@),
{
    let ghost pv = pairs_view(renames@);
    let mut i: usize = renames.len();
    assert(pv.take(i as int) =~= pv);
    while i > 0
        invariant
            i <= renames.len(),
            pv == pairs_view(renames@),
            rename_source(pv, path@) == rename_source(pv.take(i as int), path@),
        decreases i,
    {
        let ghost t = pv.take(i as int);
        assert(t.last() == (renames@[i - 1].0@, renames@[i - 1].1@));
        assert(t.drop_last() =~= pv.take(i - 1));
        if str_eq(renames[i - 1].0, path) {
            return String::from_str(renames[i - 1].1);
        }
        i = i - 1;
    }
    assert(pv.take(0) =~= Seq::<(Seq<char>, Seq<char>)>::empty());
    String::from_str(path)
}

/// Appends one change per symbol of `syms`: added ones, or removed ones.
fn push_each(changes: &mut Vec<SymbolChange>, syms: &Vec<Symbol>, added: bool)
    ensures
        symbol_changes_view(final(changes)@) == symbol_changes_view(old(changes)@) + (if added {
            each_symbol(syms@, |s: SymbolView| added_view(s))
        } else {
            each_symbol(syms@, |s: SymbolView| removed_view(s))
        }),
{
    let ghost start = symbol_changes_view(changes@);
    let ghost f: spec_fn(SymbolView) -> SymbolChangeView = if added {
        |s: SymbolView| added_view(s)
    } else {
        |s: SymbolView| removed_view(s)
    };
    let mut i: usize = 0;
    while i < syms.len()
        invariant
            i <= syms.len(),
            f == (if added { |s: SymbolView| added_view(s) } else { |s: SymbolView| removed_view(s) }),
            symbol_changes_view(changes@) == start + each_symbol(syms@, f).take(i as int),
        decreases syms.len() - i,
    {
        let ghost before = changes@;
        let c = if added { SymbolChange::added(&syms[i]) } else { SymbolChange::removed(&syms[i]) };
        assert(c@ == f(syms@[i as int]@));
        changes.push(c);
        assert(each_symbol(syms@, f).take(i + 1) =~= each_symbol(syms@, f).take(i as int).push(c@));
        assert(symbol_changes_view(changes@) =~= symbol_changes_view(before).push(c@));
        i = i + 1;
    }
    assert(each_symbol(syms@, f).take(syms.len() as int) =~= each_symbol(syms@, f));
}

/// Symbol changes from `base` to `head`, each head file compared with the
/// base file of its path, or of the path that `renames` maps it to (a pair
/// `(path, earlier path)`); see `symbol_changes_of`.
pub fn detect_symbol_changes_with_renames(
    base: &[FileAnalysis],
    head: &[FileAnalysis],
    renames: &[(&str, &str)],
) -> (res: Vec<SymbolChange>)
    ensures
        symbol_changes_view(res@) == symbol_changes_of(base@, head@, pairs_view(renames@)),
{
    let ghost rv = pairs_view(renames@);
    let mut changes: Vec<SymbolChange> = Vec::new();
    let mut sources: Vec<String> = Vec::new();
    let mut i: usize = 0;
    while i < head.len()
        invariant
            i <= head.len(),
            rv == pairs_view(renames@),
            sources.len() == i,
            forall|j: int| 0 <= j < i ==> (#[trigger] sources@[j])@ == rename_source(rv, head@[j].path@),
            symbol_changes_view(changes@) == head_file_changes(base@, head@, rv, i as int),
        decreases head.len() - i,
    {
        let ghost before = symbol_changes_view(changes@);
        let source = rename_source_of(renames, head[i].path.as_str());
        match find_path(base, source.as_str()) {
            Some(b) => {
                let mut diff = diff_symbols(&base[b], &head[i]);
                let ghost d = symbol_changes_view(diff@);
                changes.append(&mut diff);
                assert(symbol_changes_view(changes@) =~= before + d);
            },
            None => {
                push_each(&mut changes, &head[i].symbols, true);
            },
        }
        sources.push(source);
        i = i + 1;
    }
    let ghost head_part = symbol_changes_view(changes@);
    let mut j: usize = 0;
    while j < base.len()
        invariant
            j <= base.len(),
            rv == pairs_view(renames@),
            sources.len() == head.len(),
            forall|k: int| 0 <= k < head.len() ==> (#[trigger] sources@[k])@ == rename_source(rv, head@[k].path@),
            symbol_changes_view(changes@) == head_part + base_file_changes(base@, head@, rv, j as int),
        decreases base.len() - j,
    {
        let p = base[j].path.as_str();
        let mut seen = false;
        let mut k: usize = 0;
        while k < sources.len()
            invariant
                k <= sources.len(),
                sources.len() == head.len(),
                forall|m: int| 0 <= m < head.len() ==> (#[trigger] sources@[m])@ == rename_source(rv, head@[m].path@),
                seen == exists|m: int| 0 <= m < k && rename_source(rv, (#[trigger] head@[m]).path@) == p@,
            decreases sources.len() - k,
        {
            if str_eq(sources[k].as_str(), p) {
                assert(rename_source(rv, head@[k as int].path@) == p@);
                seen = true;
            }
            k = k + 1;
        }
        assert(seen == compared(head@, rv, p@));
        let ghost before = symbol_changes_view(changes@);
        if !seen && find_path(head, p).is_none() {
            push_each(&mut changes, &base[j].symbols, false);
        } else {
            assert(symbol_changes_view(changes@) =~= before + Seq::<SymbolChangeView>::empty());
        }
        j = j + 1;
    }
    changes
}

/// Symbol changes from `base` to `head`, files matched by path.
pub fn detect_symbol_changes(base: &[FileAnalysis], head: &[FileAnalysis]) -> (res: Vec<SymbolChange>)
    ensures
        symbol_changes_view(res@) == symbol_changes_of(base@, head@, Seq::empty()),
{
    let none: Vec<(&str, &str)> = Vec::new();
    let res = detect_symbol_changes_with_renames(base, head, none.as_slice());
    assert(pairs_view(none@) =~= Seq::<(Seq<char>, Seq<char>)>::empty());
    res
}

proof fn lemma_head_key_changes_same(syms: Seq<Symbol>, keys: Seq<Seq<char>>, n: int)
    requires
        0 <= n <= keys.len(),
        forall|k: int| 0 <= k < keys.len() ==> symbol_keys(syms).contains(#[trigger] keys[k]),
    ensures
        head_key_changes(syms, syms, keys, n) == Seq::<SymbolChangeView>::empty(),
    decreases n,
{
    if n > 0 {
        lemma_head_key_changes_same(syms, keys, n - 1);
        assert(symbol_keys(syms).contains(keys[n - 1]));
        assert(head_key_changes(syms, syms, keys, n) =~= Seq::<SymbolChangeView>::empty());
    }
}

proof fn lemma_base_key_changes_same(syms: Seq<Symbol>, keys: Seq<Seq<char>>, n: int)
    requires
        0 <= n <= keys.len(),
        forall|k: int| 0 <= k < keys.len() ==> symbol_keys(syms).contains(#[trigger] keys[k]),
    ensures
        base_key_changes(syms, syms, keys, n) == Seq::<SymbolChangeView>::empty(),
    decreases n,
{
    if n > 0 {
        lemma_base_key_changes_same(syms, keys, n - 1);
        assert(symbol_keys(syms).contains(keys[n - 1]));
        assert(base_key_changes(syms, syms, keys, n) =~= Seq::<SymbolChangeView>::empty());
    }
}

/// Comparing a file's symbols with themselves finds no change.
pub proof fn lemma_symbol_diff_of_same(syms: Seq<Symbol>)
    ensures
        symbol_diff(syms, syms) == Seq::<SymbolChangeView>::empty(),
{
    let keys = sorted_set(symbol_keys(syms));
    crate::order::lemma_sorted_set_exists(symbol_keys(syms));
    assert forall|k: int| 0 <= k < keys.len() implies symbol_keys(syms).contains(#[trigger] keys[k]) by {
        assert(keys.contains(keys[k]));
    }
    lemma_head_key_changes_same(syms, keys, keys.len() as int);
    lemma_base_key_changes_same(syms, keys, keys.len() as int);
    assert(symbol_diff(syms, syms) =~= Seq::<SymbolChangeView>::empty());
}

proof fn lemma_head_file_changes_same(files: Seq<FileAnalysis>, n: int)
    requires
        unique_paths(files),
        0 <= n <= files.len(),
    ensures
        head_file_changes(files, files, Seq::empty(), n) == Seq::<SymbolChangeView>::empty(),
    decreases n,
{
    if n > 0 {
        lemma_head_file_changes_same(files, n - 1);
        let p = files[n - 1].path@;
        assert(rename_source(Seq::empty(), p) == p);
        assert(has_path(files, p));
        lemma_file_at_unique(files, n - 1, files.len() as int);
        assert(file_at(files, p) == files[n - 1]);
        lemma_symbol_diff_of_same(files[n - 1].symbols@);
        assert(head_file_changes(files, files, Seq::empty(), n) =~= Seq::<SymbolChangeView>::empty());
    }
}

proof fn lemma_base_file_changes_same(files: Seq<FileAnalysis>, n: int)
    requires
        0 <= n <= files.len(),
    ensures
        base_file_changes(files, files, Seq::empty(), n) == Seq::<SymbolChangeView>::empty(),
    decreases n,
{
    if n > 0 {
        lemma_base_file_changes_same(files, n - 1);
        assert(has_path(files, files[n - 1].path@));
        assert(base_file_changes(files, files, Seq::empty(), n) =~= Seq::<SymbolChangeView>::empty());
    }
}

/// Comparing a revision whose paths are distinct with itself finds no
/// symbol change.
pub proof fn lemma_symbol_changes_of_same(files: Seq<FileAnalysis>)
    requires
        unique_paths(files),
    ensures
        symbol_changes_of(files, files, Seq::empty()) == Seq::<SymbolChangeView>::empty(),
{
    lemma_head_file_changes_same(files, files.len() as int);
    lemma_base_file_changes_same(files, files.len() as int);
    assert(symbol_changes_of(files, files, Seq::empty()) =~= Seq::<SymbolChangeView>::empty());
}

/// Some change of `changes` removes a symbol of kind `kind` named `qname`.
pub open spec fn reports_removed(changes: Seq<SymbolChangeView>, kind: SymbolKind, qname: Seq<char>) -> bool {
    exists|m: int| 0 <= m < changes.len() && (#[trigger] changes[m]).kind == SymbolChangeKind::Removed
        && changes[m].symbol_kind == kind && changes[m].qualified_name == qname
}

proof fn lemma_base_key_changes_grow(base: Seq<Symbol>, head: Seq<Symbol>, keys: Seq<Seq<char>>, n: int, n2: int, kind: SymbolKind, qname: Seq<char>)
    requires
        0 <= n <= n2 <= keys.len(),
        reports_removed(base_key_changes(base, head, keys, n), kind, qname),
    ensures
        reports_removed(base_key_changes(base, head, keys, n2), kind, qname),
    decreases n2 - n,
{
    if n < n2 {
        lemma_base_key_changes_grow(base, head, keys, n, n2 - 1, kind, qname);
        let prev = base_key_changes(base, head, keys, n2 - 1);
        let m = choose|m: int| 0 <= m < prev.len() && (#[trigger] prev[m]).kind == SymbolChangeKind::Removed
            && prev[m].symbol_kind == kind && prev[m].qualified_name == qname;
        assert(base_key_changes(base, head, keys, n2)[m] == prev[m]);
    }
}

/// A base symbol whose kind and qualified name no head symbol shares is
/// reported removed: the diff holds a removal of that kind and name.
#[verifier::spinoff_prover]
pub proof fn lemma_symbol_diff_reports_removed(base: Seq<Symbol>, head: Seq<Symbol>, j: int)
    requires
        0 <= j < base.len(),
        forall|h: int| 0 <= h < head.len() ==> !((#[trigger] head[h])@.kind == base[j]@.kind
            && qualified_name_of(head[h]@.container, head[h]@.name) == qualified_name_of(base[j]@.container, base[j]@.name)),
    ensures
        reports_removed(symbol_diff(base, head), base[j]@.kind, qualified_name_of(base[j]@.container, base[j]@.name)),
{
    let k = change_key_of(base[j]@);
    let kind = base[j]@.kind;
    let qname = qualified_name_of(base[j]@.container, base[j]@.name);
    if symbol_keys(head).contains(k) {
        let h = choose|h: int| 0 <= h < symbol_keys(head).len() && symbol_keys(head)[h] == k;
        crate::ir::model::lemma_change_key_injective(head[h]@, base[j]@);
        assert(false);
    }
    assert(symbol_keys(base)[j] == k);
    let bk = sorted_set(symbol_keys(base));
    crate::order::lemma_sorted_set_exists(symbol_keys(base));
    assert(bk.contains(k));
    let idx = choose|idx: int| 0 <= idx < bk.len() && bk[idx] == k;
    lemma_last_with_key(base, k, base.len() as int);
    let l = last_with_key(base, k, base.len() as int);
    assert(l >= 0);
    crate::ir::model::lemma_change_key_injective(base[l]@, base[j]@);
    let c = removed_view(symbol_for(base, k));
    let prev = base_key_changes(base, head, bk, idx);
    assert(base_key_changes(base, head, bk, idx + 1) == prev + seq![c]);
    assert(base_key_changes(base, head, bk, idx + 1)[prev.len() as int] == c);
    assert(reports_removed(base_key_changes(base, head, bk, idx + 1), kind, qname));
    lemma_base_key_changes_grow(base, head, bk, idx + 1, bk.len() as int, kind, qname);
    let hk = sorted_set(symbol_keys(head));
    let hc = head_key_changes(base, head, hk, hk.len() as int);
    let bc = base_key_changes(base, head, bk, bk.len() as int);
    let m = choose|m: int| 0 <= m < bc.len() && (#[trigger] bc[m]).kind == SymbolChangeKind::Removed
        && bc[m].symbol_kind == kind && bc[m].qualified_name == qname;
    assert(symbol_diff(base, head)[hc.len() + m] == bc[m]);
}

} // verus!
