//! The one-sentence summary of a report.
use vstd::prelude::*;
use vstd::string::StringExecFns;
use crate::detectors::change::ChangeSet;
use crate::detectors::clone::CloneGroup;
use crate::ir::model::SymbolChange;
use crate::report::findings::RenamedFile;
use crate::text::{decimal, join_strings, join_with, push_decimal, views_of};

verus! {

/// `1 singular`, or the count and the plural.
pub open spec fn count_phrase_of(count: nat, singular: Seq<char>, plural: Seq<char>) -> Seq<char> {
    if count == 1 {
        "1 "@ + singular
    } else {
        decimal(count) + " "@ + plural
    }
}

/// Phrases joined as in prose: `a`, `a and b`, `a, b, and c`.
pub open spec fn join_phrases_of(parts: Seq<Seq<char>>) -> Seq<char> {
    if parts.len() == 0 {
        Seq::empty()
    } else if parts.len() == 1 {
        parts[0]
    } else if parts.len() == 2 {
        parts[0] + " and "@ + parts[1]
    } else {
        join_with(parts.drop_last(), ", "@) + ", and "@ + parts.last()
    }
}

/// The phrase for a non-zero count, or nothing.
pub open spec fn part_of(count: nat, singular: Seq<char>, plural: Seq<char>) -> Seq<Seq<char>> {
    if count > 0 { seq![count_phrase_of(count, singular, plural)] } else { Seq::empty() }
}

/// The phrases of a summary, for the counts that are not zero.
pub open spec fn summary_parts(added: nat, modified: nat, removed: nat, renamed: nat, clones: nat, symbols: nat, apis: nat) -> Seq<Seq<char>> {
    part_of(added, "added file"@, "added files"@)
        + part_of(modified, "modified file"@, "modified files"@)
        + part_of(removed, "removed file"@, "removed files"@)
        + part_of(renamed, "renamed file"@, "renamed files"@)
        + part_of(clones, "exact clone group"@, "exact clone groups"@)
        + part_of(symbols, "symbol change"@, "symbol changes"@)
        + part_of(apis, "api change"@, "api changes"@)
}

/// `Detected ...` with the phrases joined, or a sentence saying that nothing changed.
pub open spec fn summary_of(added: nat, modified: nat, removed: nat, renamed: nat, clones: nat, symbols: nat, apis: nat) -> Seq<char> {
    let parts = summary_parts(added, modified, removed, renamed, clones, symbols, apis);
    if parts.len() == 0 {
        "No relevant changes detected."@
    } else {
        "Detected "@ + join_phrases_of(parts) + "."@
    }
}

/// `1 singular`, or the count and the plural.
pub fn count_phrase(count: usize, singular: &str, plural: &str) -> (res: String)
    ensures
        res@ == count_phrase_of(count as nat, singular@, plural@),
{
    if count == 1 {
        let mut out = String::from_str("1 ");
        out.append(singular);
        out
    } else {
        let mut out = String::new();
        push_decimal(&mut out, count as u64);
        out.append(" ");
        out.append(plural);
        assert(out@ =~= decimal(count as nat) + " "@ + plural@);
        out
    }
}

/// Phrases joined as in prose.
pub fn join_phrases(parts: &Vec<String>) -> (res: String)
    ensures
        res@ == join_phrases_of(views_of(parts@)),
{
    let ghost w = views_of(parts@);
    let n = parts.len();
    if n == 0 {
        String::new()
    } else if n == 1 {
        parts[0].clone()
    } else if n == 2 {
        let mut out = parts[0].clone();
        out.append(" and ");
        out.append(parts[1].as_str());
        out
    } else {
        let mut head: Vec<String> = Vec::new();
        let mut i: usize = 0;
        while i < n - 1
            invariant
                n == parts.len(),
                n > 2,
                i <= n - 1,
                w == views_of(parts@),
                head.len() == i,
                views_of(head@) == w.take(i as int),
            decreases n - 1 - i,
        {
            head.push(parts[i].clone());
            assert(views_of(head@) =~= w.take(i + 1));
            i = i + 1;
        }
        assert(w.take(n - 1) =~= w.drop_last());
        let mut out = join_strings(&head, ", ");
        out.append(", and ");
        out.append(parts[n - 1].as_str());
        out
    }
}

fn push_part(parts: &mut Vec<String>, count: usize, singular: &str, plural: &str)
    ensures
        views_of(final(parts)@) == views_of(old(parts)@) + part_of(count as nat, singular@, plural@),
{
    let ghost before = views_of(parts@);
    if count > 0 {
        let phrase = count_phrase(count, singular, plural);
        parts.push(phrase);
        assert(views_of(parts@) =~= before + part_of(count as nat, singular@, plural@));
    } else {
        assert(views_of(parts@) =~= before + part_of(count as nat, singular@, plural@));
    }
}

/// The one-sentence summary of a report's counts.
pub fn summarize(
    change_set: &ChangeSet,
    clone_groups: &[CloneGroup],
    renames: &[RenamedFile],
    symbol_changes: &[SymbolChange],
    api_changes: &[SymbolChange],
) -> (res: String)
    ensures
        res@ == summary_of(change_set.added.len() as nat, change_set.modified.len() as nat,
            change_set.removed.len() as nat, renames.len() as nat, clone_groups.len() as nat,
            symbol_changes.len() as nat, api_changes.len() as nat),
{
    let mut parts: Vec<String> = Vec::new();
    push_part(&mut parts, change_set.added.len(), "added file", "added files");
    push_part(&mut parts, change_set.modified.len(), "modified file", "modified files");
    push_part(&mut parts, change_set.removed.len(), "removed file", "removed files");
    push_part(&mut parts, renames.len(), "renamed file", "renamed files");
    push_part(&mut parts, clone_groups.len(), "exact clone group", "exact clone groups");
    push_part(&mut parts, symbol_changes.len(), "symbol change", "symbol changes");
    push_part(&mut parts, api_changes.len(), "api change", "api changes");
    let ghost want = summary_parts(change_set.added.len() as nat, change_set.modified.len() as nat,
        change_set.removed.len() as nat, renames.len() as nat, clone_groups.len() as nat,
        symbol_changes.len() as nat, api_changes.len() as nat);
    assert(views_of(parts@) =~= want);
    if parts.len() == 0 {
        return String::from_str("No relevant changes detected.");
    }
    let mut out = String::from_str("Detected ");
    let joined = join_phrases(&parts);
    out.append(joined.as_str());
    out.append(".");
    out
}

} // verus!
