//! Which files of a revision are read: supported source files, restricted
//! to the requested paths.
use vstd::prelude::*;
use crate::text::{
    chars_of, ends_with, occurs_at, replace_char, replace_chars, starts_with, str_ends_with,
    string_of,
};

verus! {

/// `s` without every leading `./`.
pub open spec fn strip_dot_slashes(s: Seq<char>) -> Seq<char>
    decreases s.len(),
{
    if s.len() >= 2 && s[0] == '.' && s[1] == '/' {
        strip_dot_slashes(s.skip(2))
    } else {
        s
    }
}

/// `s` without leading `/`.
pub open spec fn trim_start_slashes(s: Seq<char>) -> Seq<char>
    decreases s.len(),
{
    if s.len() > 0 && s[0] == '/' { trim_start_slashes(s.drop_first()) } else { s }
}

/// `s` without trailing `/`.
pub open spec fn trim_end_slashes(s: Seq<char>) -> Seq<char>
    decreases s.len(),
{
    if s.len() > 0 && s.last() == '/' { trim_end_slashes(s.drop_last()) } else { s }
}

/// A path as filters compare it: `\` made `/`, leading `./` removed, then
/// leading and trailing `/` removed.
pub open spec fn normalized_path(path: Seq<char>) -> Seq<char> {
    trim_end_slashes(trim_start_slashes(strip_dot_slashes(replace_char(path, '\\', '/'))))
}

/// The normalised path is the normalised filter or lies below it.
pub open spec fn matches_filter(path: Seq<char>, filter: Seq<char>) -> bool {
    let p = normalized_path(path);
    let f = normalized_path(filter);
    p == f || (starts_with(p, f) && occurs_at(p, "/"@, f.len() as int))
}

/// No filters, or the path matches one of them.
pub open spec fn matches_filters(path: Seq<char>, filters: Seq<Seq<char>>) -> bool {
    filters.len() == 0 || exists|k: int| 0 <= k < filters.len() && matches_filter(path, #[trigger] filters[k])
}

/// A TypeScript or C# source file, by its extension.
pub open spec fn is_supported(path: Seq<char>) -> bool {
    ends_with(path, ".ts"@) || ends_with(path, ".tsx"@) || ends_with(path, ".cs"@)
}

fn normalize_path(path: &str) -> (res: String)
    ensures
        res@ == normalized_path(path@),
{
    let cs = chars_of(path);
    let s = replace_chars(cs.as_slice(), '\\', '/');
    let mut start: usize = 0;
    assert(s@.skip(0) =~= s@);
    while s.len() - start >= 2 && s[start] == '.' && s[start + 1] == '/'
        invariant
            start <= s.len(),
            strip_dot_slashes(s@) == strip_dot_slashes(s@.skip(start as int)),
        decreases s.len() - start,
    {
        assert(s@.skip(start as int).skip(2) =~= s@.skip(start + 2));
        start = start + 2;
    }
    let ghost stripped = s@.skip(start as int);
    assert(strip_dot_slashes(stripped) == stripped);
    while start < s.len() && s[start] == '/'
        invariant
            start <= s.len(),
            trim_start_slashes(stripped) == trim_start_slashes(s@.skip(start as int)),
        decreases s.len() - start,
    {
        assert(s@.skip(start as int).drop_first() =~= s@.skip(start + 1));
        start = start + 1;
    }
    let ghost front = s@.skip(start as int);
    assert(trim_start_slashes(front) == front);
    let mut end: usize = s.len();
    while end > start && s[end - 1] == '/'
        invariant
            start <= end <= s.len(),
            trim_end_slashes(front) == trim_end_slashes(s@.subrange(start as int, end as int)),
        decreases end,
    {
        assert(s@.subrange(start as int, end as int).drop_last() =~= s@.subrange(start as int, end - 1));
        end = end - 1;
    }
    assert(s@.skip(start as int) =~= s@.subrange(start as int, s.len() as int));
    let mut out: Vec<char> = Vec::new();
    let mut i = start;
    while i < end
        invariant
            start <= i <= end <= s.len(),
            out@ == s@.subrange(start as int, i as int),
        decreases end - i,
    {
        out.push(s[i]);
        i = i + 1;
        assert(out@ =~= s@.subrange(start as int, i as int));
    }
    string_of(out.as_slice())
}

/// Whether `path` matches `filter` (see `matches_filter`).
fn matches(path: &str, filter: &str) -> (res: bool)
    ensures
        res == matches_filter(path@, filter@),
{
    let p = chars_of(normalize_path(path).as_str());
    let f = chars_of(normalize_path(filter).as_str());
    if crate::text::chars_eq(p.as_slice(), f.as_slice()) {
        return true;
    }
    let slash: Vec<char> = vec!['/'];
    proof { reveal_strlit("/"); }
    assert(slash@ =~= "/"@);
    crate::text::occurs_at_chars(p.as_slice(), f.as_slice(), 0)
        && crate::text::occurs_at_chars(p.as_slice(), slash.as_slice(), f.len())
}

/// Whether `path` lies within one of `filters` (a filter names a file or a
/// directory); with no filters, every path does.
pub fn path_matches_filters(path: &str, filters: &[String]) -> (res: bool)
    ensures
        res == matches_filters(path@, filters@.map_values(|f: String| f@)),
{
    let ghost fv = filters@.map_values(|f: String| f@);
    if filters.len() == 0 {
        return true;
    }
    let mut k: usize = 0;
    while k < filters.len()
        invariant
            k <= filters.len(),
            fv == filters@.map_values(|f: String| f@),
            forall|m: int| 0 <= m < k ==> !matches_filter(path@, #[trigger] fv[m]),
        decreases filters.len() - k,
    {
        assert(fv[k as int] == filters@[k as int]@);
        if matches(path, filters[k].as_str()) {
            return true;
        }
        k = k + 1;
    }
    false
}

/// Whether a file of the revision is read: a supported source file within
/// the filters.
pub fn wanted_path(path: &str, filters: &[String]) -> (res: bool)
    ensures
        res == (is_supported(path@) && matches_filters(path@, filters@.map_values(|f: String| f@))),
{
    (str_ends_with(path, ".ts") || str_ends_with(path, ".tsx") || str_ends_with(path, ".cs"))
        && path_matches_filters(path, filters)
}

} // verus!
