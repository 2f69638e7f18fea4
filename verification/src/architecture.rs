//! Components: the parts of a repository that files belong to, told apart by
//! path conventions.
use vstd::prelude::*;
use vstd::string::StringExecFns;
use crate::ir::file::FileAnalysis;
use crate::order::{insert_sorted, insert_unique, lemma_sorted_set, sorted, sorted_set, strictly_sorted, strings_of};
use crate::text::{
    chars_is, chars_of, join_strings, join_with, lines_view, replace_char, replace_chars,
    split_char, split_seq, string_of, views_of,
};

verus! {

/// A component and the files of one revision that belong to it.
#[derive(Debug, PartialEq, Eq)]
pub struct ComponentSummary {
    pub id: String,
    pub label: String,
    pub file_count: usize,
    pub files: Vec<String>,
}

/// The pieces that are not empty, in order.
pub open spec fn non_empty(pieces: Seq<Seq<char>>) -> Seq<Seq<char>>
    decreases pieces.len(),
{
    if pieces.len() == 0 {
        Seq::empty()
    } else {
        non_empty(pieces.drop_last()) + (if pieces.last().len() > 0 { seq![pieces.last()] } else { Seq::empty() })
    }
}

/// The segments of a path: its `/`-separated pieces (a `\` counts as `/`),
/// empty pieces left out.
pub open spec fn segments_of(path: Seq<char>) -> Seq<Seq<char>> {
    non_empty(split_seq(replace_char(path, '\\', '/'), '/'))
}

/// The first `count` segments joined by `/` (all of them when there are fewer).
pub open spec fn prefix_of(segments: Seq<Seq<char>>, count: int) -> Seq<char> {
    join_with(segments.take(if count < segments.len() { count } else { segments.len() as int }), "/"@)
}

/// The index of the first segment equal to `name`, or -1.
pub open spec fn position_of(segments: Seq<Seq<char>>, name: Seq<char>, n: int) -> int
    decreases n,
{
    if n <= 0 {
        -1
    } else {
        let p = position_of(segments, name, n - 1);
        if p >= 0 { p } else if segments[n - 1] == name { n - 1 } else { -1 }
    }
}

/// The component of a path:
/// `framework/src/X/...` gives `framework/src/X`;
/// `npm/ng-packs/packages/X/...` gives its first four segments;
/// `templates/A/B/C/...` gives its first four segments;
/// `modules/.../projects/X/...` gives everything up to `X`, else
/// `modules/.../X/src/...` gives everything before `src`;
/// otherwise `src/...` gives `src`, `.../X/src/Y/...` gives everything up to
/// `Y`, `.../src` everything before `src`; else the first segment.
pub open spec fn component_id_of(path: Seq<char>) -> Seq<char> {
    let s = segments_of(path);
    let n = s.len() as int;
    let projects = position_of(s, "projects"@, n);
    let src = position_of(s, "src"@, n);
    if n == 0 {
        Seq::empty()
    } else if s[0] == "framework"@ && n > 1 && s[1] == "src"@ {
        prefix_of(s, 3)
    } else if s[0] == "npm"@ && n > 2 && s[1] == "ng-packs"@ && s[2] == "packages"@ && n >= 4 {
        prefix_of(s, 4)
    } else if s[0] == "templates"@ && n >= 4 {
        prefix_of(s, 4)
    } else if s[0] == "modules"@ && projects >= 0 && projects + 1 < n {
        prefix_of(s, projects + 2)
    } else if s[0] == "modules"@ && src >= 1 {
        prefix_of(s, src)
    } else if src == 0 {
        s[0]
    } else if src > 0 && src + 1 < n {
        prefix_of(s, src + 2)
    } else if src > 0 {
        prefix_of(s, src)
    } else {
        s[0]
    }
}

fn non_empty_pieces(pieces: &Vec<Vec<char>>) -> (res: Vec<String>)
    ensures
        views_of(res@) == non_empty(lines_view(pieces@)),
{
    let ghost all = lines_view(pieces@);
    let mut res: Vec<String> = Vec::new();
    let mut i: usize = 0;
    while i < pieces.len()
        invariant
            i <= pieces.len(),
            all == lines_view(pieces@),
            views_of(res@) == non_empty(all.take(i as int)),
        decreases pieces.len() - i,
    {
        let ghost before = views_of(res@);
        let ghost t = all.take(i + 1);
        assert(t.drop_last() =~= all.take(i as int));
        assert(t.last() == pieces@[i as int]@);
        if pieces[i].len() > 0 {
            res.push(string_of(pieces[i].as_slice()));
            assert(views_of(res@) =~= before + seq![t.last()]);
        } else {
            assert(views_of(res@) =~= before + Seq::<Seq<char>>::empty());
        }
        i = i + 1;
    }
    assert(all.take(pieces.len() as int) =~= all);
    res
}

fn segments(path: &str) -> (res: Vec<String>)
    ensures
        views_of(res@) == segments_of(path@),
{
    let cs = chars_of(path);
    let normalized = replace_chars(cs.as_slice(), '\\', '/');
    let pieces = split_char(normalized.as_slice(), '/');
    non_empty_pieces(&pieces)
}

/// The first `count` segments joined by `/`.
fn prefix(segments: &Vec<String>, count: usize) -> (res: String)
    ensures
        res@ == prefix_of(views_of(segments@), count as int),
{
    let n = if count < segments.len() { count } else { segments.len() };
    let mut taken: Vec<String> = Vec::new();
    let mut i: usize = 0;
    while i < n
        invariant
            i <= n <= segments.len(),
            taken.len() == i,
            views_of(taken@) == views_of(segments@).take(i as int),
        decreases n - i,
    {
        taken.push(segments[i].clone());
        assert(views_of(taken@) =~= views_of(segments@).take(i + 1));
        i = i + 1;
    }
    join_strings(&taken, "/")
}

fn position(segments: &Vec<String>, name: &str) -> (res: Option<usize>)
    ensures
        match res {
            Some(p) => p as int == position_of(views_of(segments@), name@, segments.len() as int) && p < segments.len(),
            None => position_of(views_of(segments@), name@, segments.len() as int) == -1,
        },
{
    let ghost s = views_of(segments@);
    let mut i: usize = 0;
    while i < segments.len()
        invariant
            i <= segments.len(),
            s == views_of(segments@),
            position_of(s, name@, i as int) == -1,
        decreases segments.len() - i,
    {
        assert(s[i as int] == segments@[i as int]@);
        if crate::text::str_eq(segments[i].as_str(), name) {
            proof { lemma_position_bounds(s, name@, i + 1); }
            return Some(i);
        }
        i = i + 1;
    }
    None
}

proof fn lemma_position_bounds(s: Seq<Seq<char>>, name: Seq<char>, n: int)
    requires
        0 <= n <= s.len(),
    ensures
        -1 <= position_of(s, name, n) < n,
        position_of(s, name, n) >= 0 ==> position_of(s, name, s.len() as int) == position_of(s, name, n),
    decreases s.len() - n,
{
    if n < s.len() {
        lemma_position_bounds(s, name, n + 1);
    }
    lemma_position_le(s, name, n);
}

proof fn lemma_position_le(s: Seq<Seq<char>>, name: Seq<char>, n: int)
    ensures
        -1 <= position_of(s, name, n) && (n > 0 ==> position_of(s, name, n) < n) && (n <= 0 ==> position_of(s, name, n) == -1),
    decreases n,
{
    if n > 0 {
        lemma_position_le(s, name, n - 1);
    }
}

/// The component that a file of `path` belongs to (see `component_id_of`).
pub fn component_id_from_path(path: &str) -> (res: String)
    ensures
        res@ == component_id_of(path@),
{
    let segs = segments(path);
    let ghost s = views_of(segs@);
    let n = segs.len();
    proof {
        lemma_position_le(s, "projects"@, n as int);
        lemma_position_le(s, "src"@, n as int);
    }
    if n == 0 {
        return String::new();
    }
    assert(s[0] == segs@[0]@);
    if n > 1 {
        assert(s[1] == segs@[1]@);
    }
    if n > 2 {
        assert(s[2] == segs@[2]@);
    }
    if crate::text::str_eq(segs[0].as_str(), "framework") && n > 1 && crate::text::str_eq(segs[1].as_str(), "src") {
        return prefix(&segs, 3);
    }
    if crate::text::str_eq(segs[0].as_str(), "npm") && n > 2 && crate::text::str_eq(segs[1].as_str(), "ng-packs")
        && crate::text::str_eq(segs[2].as_str(), "packages") && n >= 4 {
        return prefix(&segs, 4);
    }
    if crate::text::str_eq(segs[0].as_str(), "templates") && n >= 4 {
        return prefix(&segs, 4);
    }
    let src = position(&segs, "src");
    if crate::text::str_eq(segs[0].as_str(), "modules") {
        if let Some(p) = position(&segs, "projects") {
            if p + 1 < n {
                return prefix(&segs, p + 2);
            }
        }
        if let Some(q) = src {
            if q >= 1 {
                return prefix(&segs, q);
            }
        }
    }
    if let Some(q) = src {
        if q == 0 {
            return segs[0].clone();
        }
        if q + 1 < n {
            return prefix(&segs, q + 2);
        }
        return prefix(&segs, q);
    }
    segs[0].clone()
}

/// The last `/`-separated piece of a component id.
pub open spec fn label_of(id: Seq<char>) -> Seq<char> {
    split_seq(id, '/').last()
}

/// The component ids of the files' paths.
pub open spec fn component_ids(files: Seq<FileAnalysis>) -> Seq<Seq<char>> {
    files.map_values(|f: FileAnalysis| component_id_of(f.path@))
}

/// The paths of the first `n` files whose component is `id`, in order.
pub open spec fn paths_in(files: Seq<FileAnalysis>, id: Seq<char>, n: int) -> Seq<Seq<char>>
    decreases n,
{
    if n <= 0 {
        Seq::empty()
    } else {
        paths_in(files, id, n - 1) + (if component_id_of(files[n - 1].path@) == id { seq![files[n - 1].path@] } else { Seq::empty() })
    }
}

/// `res` summarises the components of `files`: one summary per component,
/// in id order, with the label of its id and its files' paths sorted.
pub open spec fn summaries_of(res: Seq<ComponentSummary>, files: Seq<FileAnalysis>) -> bool {
    &&& res.map_values(|c: ComponentSummary| c.id@) == sorted_set(component_ids(files))
    &&& forall|k: int| 0 <= k < res.len() ==> {
        let c = #[trigger] res[k];
        &&& c.label@ == label_of(c.id@)
        &&& c.file_count == c.files.len()
        &&& sorted(strings_of(c.files@))
        &&& strings_of(c.files@).to_multiset() == paths_in(files, c.id@, files.len() as int).to_multiset()
    }
}

fn label(id: &str) -> (res: String)
    ensures
        res@ == label_of(id@),
{
    let cs = chars_of(id);
    let pieces = split_char(cs.as_slice(), '/');
    assert(lines_view(pieces@).len() == pieces.len());
    let last = pieces.len() - 1;
    assert(lines_view(pieces@).last() == pieces@[last as int]@);
    string_of(pieces[last].as_slice())
}

/// The components of `files`, in id order, each with its files' paths sorted.
pub fn component_summaries(files: &[FileAnalysis]) -> (res: Vec<ComponentSummary>)
    ensures
        summaries_of(res@, files@),
{
    let ghost all_ids = component_ids(files@);
    let mut ids: Vec<String> = Vec::new();
    let mut file_ids: Vec<String> = Vec::new();
    let mut i: usize = 0;
    while i < files.len()
        invariant
            i <= files.len(),
            all_ids == component_ids(files@),
            strictly_sorted(strings_of(ids@)),
            forall|x: Seq<char>| #[trigger] strings_of(ids@).contains(x) <==> all_ids.take(i as int).contains(x),
            file_ids.len() == i,
            forall|j: int| 0 <= j < i ==> (#[trigger] file_ids@[j])@ == all_ids[j],
        decreases files.len() - i,
    {
        let ghost old_ids = strings_of(ids@);
        let id = component_id_from_path(files[i].path.as_str());
        assert(all_ids[i as int] == id@);
        file_ids.push(id.clone());
        insert_unique(&mut ids, id);
        assert forall|x: Seq<char>| #[trigger] strings_of(ids@).contains(x) <==> all_ids.take(i + 1).contains(x) by {
            assert(all_ids.take(i + 1) =~= all_ids.take(i as int).push(all_ids[i as int]));
            assert(old_ids.contains(x) <==> all_ids.take(i as int).contains(x));
            crate::detectors::symbol::lemma_contains_push(all_ids.take(i as int), all_ids[i as int], x);
        }
        i = i + 1;
    }
    assert(all_ids.take(files.len() as int) =~= all_ids);
    proof { lemma_sorted_set(all_ids, strings_of(ids@)); }
    let mut res: Vec<ComponentSummary> = Vec::new();
    let mut k: usize = 0;
    while k < ids.len()
        invariant
            k <= ids.len(),
            file_ids.len() == files.len(),
            forall|j: int| 0 <= j < files.len() ==> (#[trigger] file_ids@[j])@ == component_id_of(files@[j].path@),
            res.len() == k,
            forall|a: int| 0 <= a < k ==> (#[trigger] res@[a]).id@ == ids@[a]@,
            forall|a: int| 0 <= a < k ==> {
                let c = #[trigger] res@[a];
                &&& c.label@ == label_of(c.id@)
                &&& c.file_count == c.files.len()
                &&& sorted(strings_of(c.files@))
                &&& strings_of(c.files@).to_multiset() == paths_in(files@, c.id@, files.len() as int).to_multiset()
            },
        decreases ids.len() - k,
    {
        let id = ids[k].clone();
        let mut paths: Vec<String> = Vec::new();
        let mut j: usize = 0;
        assert(strings_of(paths@) =~= paths_in(files@, id@, 0));
        while j < files.len()
            invariant
                j <= files.len(),
                file_ids.len() == files.len(),
                forall|m: int| 0 <= m < files.len() ==> (#[trigger] file_ids@[m])@ == component_id_of(files@[m].path@),
                sorted(strings_of(paths@)),
                strings_of(paths@).to_multiset() == paths_in(files@, id@, j as int).to_multiset(),
            decreases files.len() - j,
        {
            let ghost before = paths_in(files@, id@, j as int);
            if crate::text::str_eq(file_ids[j].as_str(), id.as_str()) {
                insert_sorted(&mut paths, files[j].path.clone());
                proof {
                    vstd::seq_lib::to_multiset_build(before, files@[j as int].path@);
                    assert(paths_in(files@, id@, j + 1) =~= before.push(files@[j as int].path@));
                }
            } else {
                assert(paths_in(files@, id@, j + 1) =~= before);
            }
            j = j + 1;
        }
        let file_count = paths.len();
        let lbl = label(id.as_str());
        res.push(ComponentSummary { id, label: lbl, file_count, files: paths });
        k = k + 1;
    }
    assert(res@.map_values(|c: ComponentSummary| c.id@) =~= strings_of(ids@));
    res
}

proof fn lemma_paths_in(files: Seq<FileAnalysis>, id: Seq<char>, n: int)
    requires
        0 <= n <= files.len(),
    ensures
        forall|m: int| 0 <= m < paths_in(files, id, n).len() ==> component_id_of(#[trigger] paths_in(files, id, n)[m]) == id,
        forall|i: int| 0 <= i < n && component_id_of((#[trigger] files[i]).path@) == id
            ==> paths_in(files, id, n).contains(files[i].path@),
    decreases n,
{
    if n > 0 {
        lemma_paths_in(files, id, n - 1);
        let prev = paths_in(files, id, n - 1);
        let cur = paths_in(files, id, n);
        assert forall|m: int| 0 <= m < cur.len() implies component_id_of(#[trigger] cur[m]) == id by {
            if m < prev.len() {
                assert(cur[m] == prev[m]);
            }
        }
        assert forall|i: int| 0 <= i < n && component_id_of((#[trigger] files[i]).path@) == id
            implies cur.contains(files[i].path@) by {
            if i < n - 1 {
                let m = choose|m: int| 0 <= m < prev.len() && prev[m] == files[i].path@;
                assert(cur[m] == prev[m]);
            } else {
                assert(cur[prev.len() as int] == files[n - 1].path@);
            }
        }
    }
}

/// Some summary is that of the component of `path` and lists `path`.
pub open spec fn listed_in_component(res: Seq<ComponentSummary>, path: Seq<char>) -> bool {
    exists|k: int| 0 <= k < res.len() && #[trigger] res[k].id@ == component_id_of(path)
        && strings_of(res[k].files@).contains(path)
}

/// The component summaries part the files: a summary lists only paths of
/// its own component, every file's path is listed in the summary of its
/// component, and no two summaries share an id.
pub proof fn lemma_summaries_partition(res: Seq<ComponentSummary>, files: Seq<FileAnalysis>)
    requires
        summaries_of(res, files),
    ensures
        forall|k: int, m: int| 0 <= k < res.len() && 0 <= m < res[k].files.len()
            ==> component_id_of((#[trigger] res[k].files@[m])@) == res[k].id@,
        forall|i: int| 0 <= i < files.len() ==> listed_in_component(res, (#[trigger] files[i]).path@),
        forall|a: int, b: int| 0 <= a < b < res.len() ==> (#[trigger] res[a]).id@ != (#[trigger] res[b]).id@,
        strictly_sorted(res.map_values(|c: ComponentSummary| c.id@)),
        forall|k: int| 0 <= k < res.len() ==> (#[trigger] res[k]).file_count >= 1,
{
    broadcast use vstd::seq_lib::group_to_multiset_ensures;
    let ids = res.map_values(|c: ComponentSummary| c.id@);
    let all = component_ids(files);
    crate::order::lemma_sorted_set_exists(all);
    assert forall|k: int, m: int| 0 <= k < res.len() && 0 <= m < res[k].files.len()
        implies component_id_of((#[trigger] res[k].files@[m])@) == res[k].id@ by {
        let c = res[k];
        let fs = strings_of(c.files@);
        let ps = paths_in(files, c.id@, files.len() as int);
        lemma_paths_in(files, c.id@, files.len() as int);
        assert(fs[m] == c.files@[m]@);
        assert(fs.contains(fs[m]));
        assert(fs.to_multiset().count(fs[m]) > 0);
        assert(ps.contains(fs[m]));
        let j = choose|j: int| 0 <= j < ps.len() && ps[j] == fs[m];
        assert(component_id_of(ps[j]) == c.id@);
    }
    assert forall|i: int| 0 <= i < files.len() implies listed_in_component(res, (#[trigger] files[i]).path@) by {
        let id = component_id_of(files[i].path@);
        assert(all[i] == id);
        assert(all.contains(id));
        assert(sorted_set(all).contains(id));
        assert(ids.contains(id));
        let k = choose|k: int| 0 <= k < ids.len() && ids[k] == id;
        assert(res[k].id@ == ids[k]);
        let ps = paths_in(files, id, files.len() as int);
        lemma_paths_in(files, id, files.len() as int);
        assert(ps.contains(files[i].path@));
        assert(ps.to_multiset().count(files[i].path@) > 0);
        assert(strings_of(res[k].files@).contains(files[i].path@));
    }
    assert forall|k: int| 0 <= k < res.len() implies (#[trigger] res[k]).file_count >= 1 by {
        let id = res[k].id@;
        assert(ids[k] == id);
        assert(sorted_set(all).contains(id));
        assert(all.contains(id));
        let i = choose|i: int| 0 <= i < all.len() && all[i] == id;
        assert(component_id_of(files[i].path@) == id);
        let ps = paths_in(files, id, files.len() as int);
        lemma_paths_in(files, id, files.len() as int);
        assert(ps.contains(files[i].path@));
        assert(ps.to_multiset().count(files[i].path@) > 0);
        assert(strings_of(res[k].files@).contains(files[i].path@));
        assert(strings_of(res[k].files@).len() == res[k].files.len());
    }
    assert forall|a: int, b: int| 0 <= a < b < res.len() implies (#[trigger] res[a]).id@ != (#[trigger] res[b]).id@ by {
        assert(ids[a] == res[a].id@ && ids[b] == res[b].id@);
        assert(crate::order::lex_lt(ids[a], ids[b]));
        crate::order::lemma_lex_irreflexive(ids[a]);
    }
}

/// Two lists of component summaries of the same files agree: the same ids,
/// labels, counts and file lists, in the same order.
pub proof fn lemma_summaries_unique(a: Seq<ComponentSummary>, b: Seq<ComponentSummary>, files: Seq<FileAnalysis>)
    requires
        summaries_of(a, files),
        summaries_of(b, files),
    ensures
        a.len() == b.len(),
        forall|k: int| 0 <= k < a.len() ==> {
            &&& (#[trigger] a[k]).id@ == b[k].id@
            &&& a[k].label@ == b[k].label@
            &&& a[k].file_count == b[k].file_count
            &&& strings_of(a[k].files@) == strings_of(b[k].files@)
        },
{
    let ia = a.map_values(|c: ComponentSummary| c.id@);
    let ib = b.map_values(|c: ComponentSummary| c.id@);
    assert(ia == ib);
    assert(ia.len() == a.len() && ib.len() == b.len());
    assert forall|k: int| 0 <= k < a.len() implies {
        &&& (#[trigger] a[k]).id@ == b[k].id@
        &&& a[k].label@ == b[k].label@
        &&& a[k].file_count == b[k].file_count
        &&& strings_of(a[k].files@) == strings_of(b[k].files@)
    } by {
        assert(ia[k] == a[k].id@ && ib[k] == b[k].id@);
        let ca = a[k];
        let cb = b[k];
        assert(sorted(strings_of(ca.files@)) && sorted(strings_of(cb.files@)));
        crate::order::lemma_sorted_unique(strings_of(ca.files@), strings_of(cb.files@));
        assert(strings_of(ca.files@).len() == ca.files.len());
        assert(strings_of(cb.files@).len() == cb.files.len());
    }
}

} // verus!
