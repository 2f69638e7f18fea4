//! What is sent to the language model to explain a diff or to advise on
//! duplicates. The requests themselves are made elsewhere.
use vstd::prelude::*;
use vstd::string::StringExecFns;
use crate::cli::{cuts_cleanly, entity_groups, groups_cut_cleanly, snippet, snippet_of};
use crate::parser::types::CodeEntity;
use crate::text::{decimal, push_decimal};

verus! {

/// The instructions for advice on duplicates.
pub const ADVISOR_SYSTEM: &'static str = "You are a code quality advisor. For each clone group, confirm if they are functionally equivalent and suggest a concrete refactoring strategy (extract shared function, use generics, etc.). Name a suggested shared abstraction. Be brief and actionable. One paragraph per clone group.";

/// The instructions for the narration of a diff.
pub const NARRATOR_SYSTEM: &'static str = "You are a code change analyst. Summarize the structural code changes in the JSON manifest. Focus on: what changed, API surface changes (signature changes), potential impact on callers. Be concrete, reference specific names. Under 300 words.";

/// One entity in the advice request: name, place and a 400-byte snippet.
pub open spec fn advice_entity(e: CodeEntity) -> Seq<char> {
    "\n**"@ + e.name@ + "** ("@ + e.file_path@ + ":"@ + decimal(e.start_line as nat) + ")\n```\n"@
        + snippet_of(e.source@, 400) + "\n```\n"@
}

/// The first `n` entities of a group.
pub open spec fn advice_entities(g: Seq<CodeEntity>, n: int) -> Seq<char>
    decreases n,
{
    if n <= 0 { Seq::empty() } else { advice_entities(g, n - 1) + advice_entity(g[n - 1]) }
}

/// The first `n` groups, numbered from 1.
pub open spec fn advice_groups(groups: Seq<Seq<CodeEntity>>, n: int) -> Seq<char>
    decreases n,
{
    if n <= 0 {
        Seq::empty()
    } else {
        advice_groups(groups, n - 1) + "\n### Clone Group "@ + decimal(n as nat) + "\n"@
            + advice_entities(groups[n - 1], groups[n - 1].len() as int)
    }
}

/// The request for advice on the clone groups.
pub open spec fn advice_prompt_of(groups: Seq<Seq<CodeEntity>>) -> Seq<char> {
    "Advise on these duplicate code groups:"@ + advice_groups(groups, groups.len() as int)
}

fn push_advice_entity(out: &mut String, e: &CodeEntity)
    requires
        cuts_cleanly(e.source@, 400),
    ensures
        final(out)@ == old(out)@ + advice_entity(*e),
{
    out.append("\n**");
    out.append(e.name.as_str());
    out.append("** (");
    out.append(e.file_path.as_str());
    out.append(":");
    push_decimal(out, e.start_line as u64);
    out.append(")\n```\n");
    let snip = snippet(e.source.as_str(), 400);
    out.append(snip.as_str());
    out.append("\n```\n");
    assert(final(out)@ =~= old(out)@ + advice_entity(*e));
}

/// The request for advice on the clone groups, with a 400-byte snippet of
/// each entity.
pub fn advice_prompt(groups: &[Vec<&CodeEntity>]) -> (res: String)
    requires
        groups_cut_cleanly(entity_groups(groups@), 400),
    ensures
        res@ == advice_prompt_of(entity_groups(groups@)),
{
    let ghost gs = entity_groups(groups@);
    let mut out = String::from_str("Advise on these duplicate code groups:");
    let ghost head = out@;
    let mut k: usize = 0;
    while k < groups.len()
        invariant
            k <= groups.len(),
            gs == entity_groups(groups@),
            groups_cut_cleanly(gs, 400),
            out@ == head + advice_groups(gs, k as int),
        decreases groups.len() - k,
    {
        out.append("\n### Clone Group ");
        push_decimal(&mut out, (k + 1) as u64);
        out.append("\n");
        let ghost mid = out@;
        let g = &groups[k];
        assert(gs[k as int] =~= g@.map_values(|e: &CodeEntity| *e));
        let mut m: usize = 0;
        while m < g.len()
            invariant
                m <= g.len(),
                k < groups.len(),
                g == groups@[k as int],
                gs == entity_groups(groups@),
                groups_cut_cleanly(gs, 400),
                gs[k as int] == g@.map_values(|e: &CodeEntity| *e),
                out@ == mid + advice_entities(gs[k as int], m as int),
            decreases g.len() - m,
        {
            assert(gs[k as int][m as int] == *g@[m as int]);
            push_advice_entity(&mut out, g[m]);
            m = m + 1;
        }
        assert(out@ =~= head + advice_groups(gs, k + 1));
        k = k + 1;
    }
    out
}

/// The request to narrate a diff, given the manifest as pretty JSON.
pub fn narration_prompt(manifest_json: &str) -> (res: String)
    ensures
        res@ == "Summarize these structural code changes:\n\n```json\n"@ + manifest_json@ + "\n```"@,
{
    let mut out = String::from_str("Summarize these structural code changes:\n\n```json\n");
    out.append(manifest_json);
    out.append("\n```");
    out
}

} // verus!
