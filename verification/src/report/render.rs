//! Markdown renderings of a report: the full report and a pull-request
//! comment that leads with the riskiest findings.
use vstd::prelude::*;
use vstd::string::StringExecFns;
use crate::ir::model::{FindingView, SymbolChange, SymbolChangeView, findings_view, symbol_changes_view};
use crate::report::Report;
use crate::report::findings::{
    api_change_detail, api_change_detail_of, api_change_title, api_change_title_of,
    symbol_change_detail, symbol_change_detail_of, symbol_change_title, symbol_change_title_of,
};
use crate::text::{decimal, push_decimal};

verus! {

/// A list item `- title: detail`.
pub open spec fn item_line(title: Seq<char>, detail: Seq<char>) -> Seq<char> {
    "- "@ + title + ": "@ + detail + "\n"@
}

/// The items for the first `n` changes, with symbol or API wording.
pub open spec fn change_lines(cs: Seq<SymbolChangeView>, api: bool, n: int) -> Seq<char>
    decreases n,
{
    if n <= 0 {
        Seq::empty()
    } else {
        let c = cs[n - 1];
        change_lines(cs, api, n - 1) + if api {
            item_line(api_change_title_of(c), api_change_detail_of(c))
        } else {
            item_line(symbol_change_title_of(c), symbol_change_detail_of(c))
        }
    }
}

/// The items for the first `n` findings.
pub open spec fn finding_lines(fs: Seq<FindingView>, n: int) -> Seq<char>
    decreases n,
{
    if n <= 0 {
        Seq::empty()
    } else {
        finding_lines(fs, n - 1) + item_line(fs[n - 1].title, fs[n - 1].detail)
    }
}

/// The Markdown of a report: title, summary, symbol changes, API changes
/// (each section only when there is something in it), then the findings.
pub open spec fn markdown_of(summary: Seq<char>, symbols: Seq<SymbolChangeView>, apis: Seq<SymbolChangeView>, findings: Seq<FindingView>) -> Seq<char> {
    "# Change Report\n\n"@ + summary + "\n\n## Highlights\n"@
        + (if symbols.len() > 0 { "\n## Symbol Changes\n"@ + change_lines(symbols, false, symbols.len() as int) } else { Seq::empty() })
        + (if apis.len() > 0 { "\n## API Changes\n"@ + change_lines(apis, true, apis.len() as int) } else { Seq::empty() })
        + (if findings.len() == 0 { "- No relevant changes detected.\n"@ } else { finding_lines(findings, findings.len() as int) })
}

/// `idx` lists the findings with a risk, riskiest first, ties in list order.
pub open spec fn ranked(fs: Seq<FindingView>, idx: Seq<int>) -> bool {
    &&& forall|a: int| 0 <= a < idx.len() ==> 0 <= #[trigger] idx[a] < fs.len() && fs[idx[a]].risk_score > 0
    &&& forall|a: int, b: int| 0 <= a < b < idx.len() ==> (fs[#[trigger] idx[a]].risk_score > fs[#[trigger] idx[b]].risk_score
        || (fs[idx[a]].risk_score == fs[idx[b]].risk_score && idx[a] < idx[b]))
    &&& forall|k: int| 0 <= k < fs.len() && (#[trigger] fs[k]).risk_score > 0 ==> idx.contains(k)
}

/// The item for a risky finding: `- risk NN%: title — detail`.
pub open spec fn risk_line(f: FindingView) -> Seq<char> {
    "- risk "@ + decimal(f.risk_score as nat) + "%: "@ + f.title + " — "@ + f.detail + "\n"@
}

/// The items for the findings at the first `n` indices of `idx`.
pub open spec fn risk_lines(fs: Seq<FindingView>, idx: Seq<int>, n: int) -> Seq<char>
    decreases n,
{
    if n <= 0 {
        Seq::empty()
    } else {
        risk_lines(fs, idx, n - 1) + risk_line(fs[idx[n - 1]])
    }
}

/// A pull-request comment: the (at most five) riskiest findings, then the report.
pub open spec fn pr_comment_of(fs: Seq<FindingView>, idx: Seq<int>, markdown: Seq<char>) -> Seq<char> {
    "## Risk\n"@ + (if idx.len() == 0 {
        "- No high-risk API changes detected.\n"@
    } else {
        risk_lines(fs, idx, if idx.len() < 5 { idx.len() as int } else { 5 })
    }) + "\n"@ + markdown
}

fn push_item(out: &mut String, title: &str, detail: &str)
    ensures
        final(out)@ == old(out)@ + item_line(title@, detail@),
{
    out.append("- ");
    out.append(title);
    out.append(": ");
    out.append(detail);
    out.append("\n");
    assert(final(out)@ =~= old(out)@ + item_line(title@, detail@));
}

fn push_change_lines(out: &mut String, changes: &Vec<SymbolChange>, api: bool)
    ensures
        final(out)@ == old(out)@ + change_lines(symbol_changes_view(changes@), api, changes.len() as int),
{
    let ghost start = out@;
    let ghost cs = symbol_changes_view(changes@);
    let mut i: usize = 0;
    while i < changes.len()
        invariant
            i <= changes.len(),
            cs == symbol_changes_view(changes@),
            out@ == start + change_lines(cs, api, i as int),
        decreases changes.len() - i,
    {
        assert(cs[i as int] == changes@[i as int]@);
        let ghost before = out@;
        if api {
            let title = api_change_title(&changes[i]);
            let detail = api_change_detail(&changes[i]);
            push_item(out, title.as_str(), detail.as_str());
        } else {
            let title = symbol_change_title(&changes[i]);
            let detail = symbol_change_detail(&changes[i]);
            push_item(out, title.as_str(), detail.as_str());
        }
        assert(out@ =~= start + change_lines(cs, api, i + 1));
        i = i + 1;
    }
}

impl Report {
    /// The report as Markdown (see `markdown_of`).
    pub fn markdown(&self) -> (res: String)
        ensures
            res@ == markdown_of(self.summary@, symbol_changes_view(self.symbol_changes@),
                symbol_changes_view(self.api_changes@), findings_view(self.findings@)),
    {
        let mut out = String::from_str("# Change Report\n\n");
        out.append(self.summary.as_str());
        out.append("\n\n## Highlights\n");
        let ghost head = out@;
        if self.symbol_changes.len() > 0 {
            out.append("\n## Symbol Changes\n");
            push_change_lines(&mut out, &self.symbol_changes, false);
        }
        let ghost with_symbols = out@;
        if self.api_changes.len() > 0 {
            out.append("\n## API Changes\n");
            push_change_lines(&mut out, &self.api_changes, true);
        }
        let ghost with_apis = out@;
        let ghost fs = findings_view(self.findings@);
        if self.findings.len() == 0 {
            out.append("- No relevant changes detected.\n");
        } else {
            let mut i: usize = 0;
            while i < self.findings.len()
                invariant
                    i <= self.findings.len(),
                    fs == findings_view(self.findings@),
                    out@ == with_apis + finding_lines(fs, i as int),
                decreases self.findings.len() - i,
            {
                assert(fs[i as int].title == self.findings@[i as int].title@);
                assert(fs[i as int].detail == self.findings@[i as int].detail@);
                push_item(&mut out, self.findings[i].title.as_str(), self.findings[i].detail.as_str());
                i = i + 1;
            }
        }
        assert(out@ =~= markdown_of(self.summary@, symbol_changes_view(self.symbol_changes@),
            symbol_changes_view(self.api_changes@), fs));
        out
    }

    /// A pull-request comment: up to five findings with a risk, riskiest
    /// first (ties in report order), then the Markdown report.
    pub fn pr_comment(&self) -> (res: String)
        ensures
            exists|idx: Seq<int>| {
                &&& ranked(findings_view(self.findings@), idx)
                &&& res@ == pr_comment_of(findings_view(self.findings@), idx,
                    markdown_of(self.summary@, symbol_changes_view(self.symbol_changes@),
                        symbol_changes_view(self.api_changes@), findings_view(self.findings@)))
            },
    {
        let ghost fs = findings_view(self.findings@);
        let mut order: Vec<usize> = Vec::new();
        let mut k: usize = 0;
        while k < self.findings.len()
            invariant
                k <= self.findings.len(),
                fs == findings_view(self.findings@),
                forall|a: int| 0 <= a < order.len() ==> #[trigger] order@[a] < k && fs[order@[a] as int].risk_score > 0,
                forall|a: int, b: int| 0 <= a < b < order.len() ==> (fs[#[trigger] order@[a] as int].risk_score
                    > fs[#[trigger] order@[b] as int].risk_score
                    || (fs[order@[a] as int].risk_score == fs[order@[b] as int].risk_score && order@[a] < order@[b])),
                forall|j: int| 0 <= j < k && (#[trigger] fs[j]).risk_score > 0 ==> order@.contains(j as usize),
            decreases self.findings.len() - k,
        {
            let risk = self.findings[k].risk_score;
            assert(fs[k as int].risk_score == risk);
            if risk > 0 {
                let mut p: usize = 0;
                while p < order.len() && self.findings[order[p]].risk_score >= risk
                    invariant
                        p <= order.len(),
                        k < self.findings.len(),
                        fs == findings_view(self.findings@),
                        forall|a: int| 0 <= a < order.len() ==> #[trigger] order@[a] < k,
                        forall|a: int| 0 <= a < p ==> fs[#[trigger] order@[a] as int].risk_score >= risk,
                    decreases order.len() - p,
                {
                    assert(fs[order@[p as int] as int].risk_score == self.findings@[order@[p as int] as int].risk_score);
                    p = p + 1;
                }
                if p < order.len() {
                    assert(fs[order@[p as int] as int].risk_score == self.findings@[order@[p as int] as int].risk_score);
                }
                let ghost old_order = order@;
                order.insert(p, k);
                proof {
                    assert(order@ =~= old_order.insert(p as int, k));
                    assert forall|a: int, b: int| 0 <= a < b < order.len() implies (fs[#[trigger] order@[a] as int].risk_score
                        > fs[#[trigger] order@[b] as int].risk_score
                        || (fs[order@[a] as int].risk_score == fs[order@[b] as int].risk_score && order@[a] < order@[b])) by {
                        if b < p {
                        } else if a < p && b == p {
                        } else if a < p {
                            assert(order@[b] == old_order[b - 1]);
                        } else if a == p {
                            assert(order@[b] == old_order[b - 1]);
                            if b - 1 > p {
                                assert(fs[old_order[p as int] as int].risk_score >= fs[old_order[b - 1] as int].risk_score);
                            }
                        } else {
                            assert(order@[a] == old_order[a - 1] && order@[b] == old_order[b - 1]);
                        }
                    }
                    assert forall|j: int| 0 <= j < k + 1 && (#[trigger] fs[j]).risk_score > 0 implies order@.contains(j as usize) by {
                        if j < k {
                            let a = choose|a: int| 0 <= a < old_order.len() && old_order[a] == j as usize;
                            if a < p {
                                assert(order@[a] == j as usize);
                            } else {
                                assert(order@[a + 1] == j as usize);
                            }
                        } else {
                            assert(order@[p as int] == k);
                        }
                    }
                    assert forall|a: int| 0 <= a < order.len() implies #[trigger] order@[a] < k + 1 && fs[order@[a] as int].risk_score > 0 by {
                        if a < p {
                        } else if a > p {
                            assert(order@[a] == old_order[a - 1]);
                        }
                    }
                }
            }
            k = k + 1;
        }
        let ghost idx = order@.map_values(|u: usize| u as int);
        assert(ranked(fs, idx)) by {
            assert forall|j: int| 0 <= j < fs.len() && (#[trigger] fs[j]).risk_score > 0 implies idx.contains(j) by {
                let a = choose|a: int| 0 <= a < order.len() && order@[a] == j as usize;
                assert(idx[a] == j);
            }
        }
        let mut out = String::from_str("## Risk\n");
        if order.len() == 0 {
            out.append("- No high-risk API changes detected.\n");
        } else {
            let shown = if order.len() < 5 { order.len() } else { 5 };
            let ghost start = out@;
            let mut i: usize = 0;
            while i < shown
                invariant
                    i <= shown <= order.len(),
                    fs == findings_view(self.findings@),
                    idx == order@.map_values(|u: usize| u as int),
                    forall|a: int| 0 <= a < order.len() ==> #[trigger] order@[a] < self.findings.len(),
                    out@ == start + risk_lines(fs, idx, i as int),
                decreases shown - i,
            {
                let f = &self.findings[order[i]];
                assert(fs[idx[i as int]] == f@);
                out.append("- risk ");
                push_decimal(&mut out, f.risk_score as u64);
                out.append("%: ");
                out.append(f.title.as_str());
                out.append(" — ");
                out.append(f.detail.as_str());
                out.append("\n");
                assert(out@ =~= start + risk_lines(fs, idx, i + 1));
                i = i + 1;
            }
        }
        out.append("\n");
        let md = self.markdown();
        out.append(md.as_str());
        assert(out@ =~= pr_comment_of(fs, idx, md@));
        out
    }
}

} // verus!
