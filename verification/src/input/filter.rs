//! Paths that the analysis leaves out: build output, dependencies and
//! generated code.
use vstd::prelude::*;
use crate::text::{
    ascii_lowercase, ascii_lowercase_str, chars_of, ends_with, lines_view, replace_char,
    replace_chars, split_char, split_seq, str_ends_with, str_is, string_of,
};

verus! {

/// A path segment that marks build output, dependencies or generated code.
pub open spec fn is_ignored_segment(seg: Seq<char>) -> bool {
    ||| seg == "bin"@
    ||| seg == "obj"@
    ||| seg == "dist"@
    ||| seg == "node_modules"@
    ||| seg == "generated"@
    ||| seg == "vendor"@
    ||| ends_with(seg, ".generated.cs"@)
    ||| ends_with(seg, ".g.cs"@)
}

/// The `/`-separated segments of a path, lower-cased (`\` counts as `/`).
pub open spec fn lower_segments(path: Seq<char>) -> Seq<Seq<char>> {
    split_seq(ascii_lowercase(replace_char(path, '\\', '/')), '/')
}

/// Some segment of the path marks it as left out.
pub open spec fn ignored_path(path: Seq<char>) -> bool {
    exists|k: int| 0 <= k < lower_segments(path).len() && is_ignored_segment(#[trigger] lower_segments(path)[k])
}

fn ignored_segment(seg: &str) -> (res: bool)
    ensures
        res == is_ignored_segment(seg@),
{
    str_is(seg, "bin") || str_is(seg, "obj") || str_is(seg, "dist") || str_is(seg, "node_modules")
        || str_is(seg, "generated") || str_is(seg, "vendor") || str_ends_with(seg, ".generated.cs")
        || str_ends_with(seg, ".g.cs")
}

/// Whether the analysis leaves `path` out: some segment, compared without
/// regard to ASCII case, is `bin`, `obj`, `dist`, `node_modules`,
/// `generated` or `vendor`, or ends with `.generated.cs` or `.g.cs`.
pub fn is_ignored_path(path: &str) -> (res: bool)
    ensures
        res == ignored_path(path@),
{
    let cs = chars_of(path);
    let replaced = replace_chars(cs.as_slice(), '\\', '/');
    let replaced_str = string_of(replaced.as_slice());
    let lower = ascii_lowercase_str(replaced_str.as_str());
    let lower_chars = chars_of(lower.as_str());
    let pieces = split_char(lower_chars.as_slice(), '/');
    let ghost segs = lower_segments(path@);
    assert(lines_view(pieces@) == segs);
    let mut k: usize = 0;
    while k < pieces.len()
        invariant
            k <= pieces.len(),
            segs == lower_segments(path@),
            lines_view(pieces@) == segs,
            forall|m: int| 0 <= m < k ==> !is_ignored_segment(#[trigger] segs[m]),
        decreases pieces.len() - k,
    {
        let seg = string_of(pieces[k].as_slice());
        assert(segs[k as int] == pieces@[k as int]@);
        if ignored_segment(seg.as_str()) {
            assert(lines_view(pieces@).len() == pieces.len());
            assert(is_ignored_segment(segs[k as int]));
            assert(is_ignored_segment(lower_segments(path@)[k as int]));
            assert(ignored_path(path@));
            return true;
        }
        k = k + 1;
    }
    assert(lines_view(pieces@).len() == pieces.len());
    assert(!ignored_path(path@)) by {
        if ignored_path(path@) {
            let k = choose|k: int| 0 <= k < lower_segments(path@).len() && is_ignored_segment(#[trigger] lower_segments(path@)[k]);
            assert(!is_ignored_segment(segs[k]));
        }
    }
    false
}

} // verus!
