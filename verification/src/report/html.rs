//! The report as a self-contained HTML page.
use vstd::prelude::*;
use crate::text::{replace_all, replace_str};

verus! {

/// The page that the report's JSON is put into, at `__REPORT_JSON__`.
pub const REPORT_HTML_TEMPLATE: &'static str = r#"<!DOCTYPE html>
<html lang="en">
<head>
  <meta charset="utf-8">
  <meta name="viewport" content="width=device-width, initial-scale=1">
  <title>Architecture View</title>
  <style>
    :root {
      color-scheme: dark;
      --bg: #0b1020;
      --panel: #111a33;
      --panel-2: #151f3a;
      --text: #e5ecff;
      --muted: #95a4cc;
      --line: #253458;
      --good: #4fd1c5;
      --warn: #f6ad55;
      --bad: #fc8181;
      --accent: #8ab4ff;
    }
    * { box-sizing: border-box; }
    body {
      margin: 0;
      background: radial-gradient(circle at top, #152044 0, var(--bg) 55%);
      color: var(--text);
      font-family: Inter, ui-sans-serif, system-ui, -apple-system, Segoe UI, sans-serif;
    }
    header {
      display: flex;
      flex-wrap: wrap;
      gap: 12px;
      justify-content: space-between;
      align-items: center;
      padding: 20px 24px;
      border-bottom: 1px solid var(--line);
      background: rgba(10, 16, 32, 0.75);
      backdrop-filter: blur(8px);
      position: sticky;
      top: 0;
      z-index: 10;
    }
    h1 { margin: 0; font-size: 20px; }
    .subtitle { color: var(--muted); font-size: 14px; margin-top: 4px; }
    .toolbar { display: flex; gap: 8px; align-items: center; flex-wrap: wrap; }
    .button {
      background: var(--panel-2);
      color: var(--text);
      border: 1px solid var(--line);
      border-radius: 999px;
      padding: 10px 14px;
      cursor: pointer;
    }
    .button.active { border-color: var(--accent); box-shadow: 0 0 0 1px var(--accent) inset; }
    .file-input { color: var(--muted); }
    main { padding: 24px; max-width: 1400px; margin: 0 auto; }
    .grid {
      display: grid;
      grid-template-columns: repeat(auto-fit, minmax(320px, 1fr));
      gap: 16px;
      margin-top: 16px;
    }
    .panel {
      background: rgba(17, 26, 51, 0.88);
      border: 1px solid var(--line);
      border-radius: 18px;
      padding: 18px;
      box-shadow: 0 12px 32px rgba(0, 0, 0, 0.18);
      min-width: 0;
    }
    .panel h2, .panel h3 { margin: 0 0 12px; }
    .panel h2 { font-size: 18px; }
    .panel h3 { font-size: 14px; color: var(--muted); text-transform: uppercase; letter-spacing: 0.08em; }
    .stats { display: flex; flex-wrap: wrap; gap: 8px; margin-bottom: 14px; }
    .pill {
      padding: 6px 10px;
      border-radius: 999px;
      background: rgba(255,255,255,0.04);
      border: 1px solid var(--line);
      font-size: 12px;
      color: var(--muted);
    }
    .pill.good { color: var(--good); }
    .pill.warn { color: var(--warn); }
    .pill.bad { color: var(--bad); }
    .component-card {
      background: linear-gradient(180deg, rgba(21,31,58,0.95), rgba(17,26,51,0.92));
      border: 1px solid var(--line);
      border-radius: 16px;
      padding: 14px;
      margin-bottom: 12px;
      min-width: 0;
      overflow-wrap: anywhere;
    }
    .component-title { display:flex; justify-content:space-between; gap:12px; align-items:flex-start; flex-wrap: wrap; min-width: 0; }
    .component-title strong { font-size: 14px; min-width: 0; overflow-wrap: anywhere; }
    .component-title code { color: var(--accent); white-space: pre-wrap; overflow-wrap: anywhere; }
    .small { font-size: 12px; color: var(--muted); overflow-wrap: anywhere; word-break: break-word; }
    .bars { display: flex; gap: 8px; margin-top: 10px; flex-wrap: wrap; }
    .bar {
      min-width: 74px;
      padding: 8px 10px;
      border-radius: 12px;
      background: rgba(255,255,255,0.04);
      border: 1px solid var(--line);
    }
    .bar .num { font-size: 20px; font-weight: 700; }
    .bar .label { font-size: 11px; color: var(--muted); }
    .list { margin: 0; padding-left: 18px; color: var(--text); }
    .list li { margin: 6px 0; }
    .hidden { display: none; }
    .table {
      width: 100%;
      border-collapse: collapse;
      margin-top: 10px;
      overflow: hidden;
      border-radius: 14px;
    }
    .table th, .table td {
      border-bottom: 1px solid var(--line);
      padding: 10px 12px;
      text-align: left;
      vertical-align: top;
      font-size: 13px;
      overflow-wrap: anywhere;
      word-break: break-word;
    }
    .table th { color: var(--muted); font-weight: 600; }
    .kpi { display:inline-flex; gap: 8px; align-items: center; }
    .swatch { width: 10px; height: 10px; border-radius: 999px; display:inline-block; }
    .risk-high { background: var(--bad); }
    .risk-med { background: var(--warn); }
    .risk-low { background: var(--good); }
    .callout { color: var(--muted); font-size: 13px; }
    .empty { color: var(--muted); border: 1px dashed var(--line); border-radius: 14px; padding: 18px; }
    input[type="file"] { color: var(--muted); }
    code { background: rgba(255,255,255,0.06); padding: 2px 6px; border-radius: 8px; white-space: pre-wrap; overflow-wrap: anywhere; }
  </style>
</head>
<body>
  <header>
    <div>
      <h1>Architecture View</h1>
      <div class="subtitle" id="header-subtitle">Base vs head compare with timeline</div>
    </div>
    <div class="toolbar">
      <button class="button active" data-tab="compare">Compare</button>
      <button class="button" data-tab="timeline">Timeline</button>
      <label class="file-input">Load bundles
        <input id="bundle-input" type="file" multiple accept="application/json,.json">
      </label>
    </div>
  </header>
  <main>
    <div class="panel" id="summary-panel"></div>
    <section id="compare-view"></section>
    <section id="timeline-view" class="hidden"></section>
  </main>

  <script id="analysis-data" type="application/json">__REPORT_JSON__</script>
  <script>
    const initialReport = JSON.parse(document.getElementById('analysis-data').textContent);
    const state = { tab: 'compare', reports: [initialReport] };

    const escapeHtml = (value) => String(value)
      .replaceAll('&', '&amp;')
      .replaceAll('<', '&lt;')
      .replaceAll('>', '&gt;')
      .replaceAll('"', '&quot;')
      .replaceAll("'", '&#39;');

    function byId(report, side) {
      const items = report[side + '_components'] || [];
      return Object.fromEntries(items.map((item) => [item.id, item]));
    }

    function componentIds(report) {
      const ids = new Set();
      for (const side of ['base', 'head']) {
        for (const item of (report[side + '_components'] || [])) ids.add(item.id);
      }
      return [...ids].sort();
    }

    function renderPills(report) {
      const apiRemoved = (report.findings || []).filter((f) => f.code === 'api.removed').length;
      const apiChanged = (report.findings || []).filter((f) => f.code === 'api.changed').length;
      const cloneDrift = (report.findings || []).filter((f) => f.code === 'clone.drift').length;
      return `
        <div class="stats">
          <span class="pill">${escapeHtml(report.base_ref || 'base')}</span>
          <span class="pill">→</span>
          <span class="pill">${escapeHtml(report.head_ref || 'head')}</span>
          <span class="pill ${apiRemoved ? 'bad' : 'good'}">API removed: ${apiRemoved}</span>
          <span class="pill ${apiChanged ? 'warn' : 'good'}">API changed: ${apiChanged}</span>
          <span class="pill ${cloneDrift ? 'warn' : 'good'}">Clone drift: ${cloneDrift}</span>
        </div>
      `;
    }

    function renderComponentCard(title, component, baseComponent) {
      const delta = baseComponent ? component.file_count - baseComponent.file_count : component.file_count;
      const riskClass = delta > 0 ? 'warn' : delta < 0 ? 'good' : 'good';
      return `
        <div class="component-card" data-component-id="${escapeHtml(component.id)}">
          <div class="component-title">
            <strong><code>${escapeHtml(component.id)}</code></strong>
            <span class="pill ${riskClass}">${delta >= 0 ? '+' : ''}${delta} files</span>
          </div>
          <div class="small">${escapeHtml(title)} · ${component.file_count} files</div>
          <div class="small">${escapeHtml((component.files || []).join(', '))}</div>
        </div>
      `;
    }

    function renderCompare() {
      const report = state.reports[0];
      const base = byId(report, 'base');
      const head = byId(report, 'head');
      const ids = componentIds(report);

      const diffCards = ids.map((id) => renderComponentCard('Component', head[id] || base[id], base[id] || head[id])).join('');

      const findings = (report.findings || []).slice(0, 12).map((finding) => `
        <div class="component-card">
          <div class="component-title">
            <strong>${escapeHtml(finding.title)}</strong>
            <span class="pill">${escapeHtml(finding.code)}</span>
          </div>
          <div class="small">${escapeHtml(finding.detail)}</div>
        </div>
      `).join('');

      document.getElementById('compare-view').innerHTML = `
        <div class="grid">
          <div class="panel">
            <h2>Base</h2>
            <p class="callout">${escapeHtml(report.base_ref || 'base')}</p>
            ${(report.base_components || []).map((component) => renderComponentCard('Base component', component, null)).join('') || '<div class="empty">No base components.</div>'}
          </div>
          <div class="panel">
            <h2>Head</h2>
            <p class="callout">${escapeHtml(report.head_ref || 'head')}</p>
            ${(report.head_components || []).map((component) => renderComponentCard('Head component', component, base[component.id] || null)).join('') || '<div class="empty">No head components.</div>'}
          </div>
          <div class="panel">
            <h2>Findings</h2>
            ${findings || '<div class="empty">No findings.</div>'}
          </div>
        </div>
      `;
    }

    function renderTimeline() {
      const reports = state.reports;
      if (!reports.length) {
        document.getElementById('timeline-view').innerHTML = '<div class="empty">Load one or more JSON reports to see the timeline.</div>';
        return;
      }

      const ids = [...new Set(reports.flatMap((report) => (report.head_components || []).map((component) => component.id)))].sort();
      const headerCells = reports.map((report, index) => `<th>Snapshot ${index + 1}<br><span class="small">${escapeHtml(report.head_ref || 'head')}</span></th>`).join('');
      const rows = ids.map((id) => {
        const cells = reports.map((report) => {
          const component = (report.head_components || []).find((item) => item.id === id);
          if (!component) return '<td class="small">—</td>';
          return `<td><span class="kpi"><span class="swatch ${component.file_count > 1 ? 'risk-med' : 'risk-low'}"></span><code>${escapeHtml(id)}</code></span><br><span class="small">${component.file_count} files</span></td>`;
        }).join('');
        return `<tr><th>${escapeHtml(id)}</th>${cells}</tr>`;
      }).join('');

      document.getElementById('timeline-view').innerHTML = `
        <div class="panel">
          <h2>Timeline</h2>
          <p class="callout">Load multiple report JSON files to compare how components change across snapshots.</p>
          <table class="table">
            <thead><tr><th>Component</th>${headerCells}</tr></thead>
            <tbody>${rows || '<tr><td colspan="2" class="small">No components.</td></tr>'}</tbody>
          </table>
        </div>
      `;
    }

    function renderSummary() {
      const report = state.reports[0];
      document.getElementById('summary-panel').innerHTML = `
        <h3>Current Snapshot</h3>
        <div class="small">${escapeHtml(report.summary || '')}</div>
        ${renderPills(report)}
      `;
      document.getElementById('header-subtitle').textContent = `${report.base_components?.length || 0} base components → ${report.head_components?.length || 0} head components`;
    }

    function render() {
      renderSummary();
      renderCompare();
      renderTimeline();
      document.getElementById('compare-view').classList.toggle('hidden', state.tab !== 'compare');
      document.getElementById('timeline-view').classList.toggle('hidden', state.tab !== 'timeline');
      document.querySelectorAll('[data-tab]').forEach((button) => {
        button.classList.toggle('active', button.dataset.tab === state.tab);
      });
    }

    document.querySelectorAll('[data-tab]').forEach((button) => {
      button.addEventListener('click', () => {
        state.tab = button.dataset.tab;
        render();
      });
    });

    document.getElementById('bundle-input').addEventListener('change', async (event) => {
      const files = [...event.target.files || []];
      const loaded = [];
      for (const file of files) {
        const text = await file.text();
        loaded.push(JSON.parse(text));
      }
      state.reports = [initialReport, ...loaded];
      state.tab = 'timeline';
      render();
    });

    render();
  </script>
</body>
</html>"#;

/// The HTML page for a report serialised as `data_json`: the JSON, with
/// each `</` written `<\/` so that it cannot close the script element,
/// put into the template at each `__REPORT_JSON__`.
pub fn html_page(data_json: &str) -> (res: String)
    ensures
        res@ == replace_all(REPORT_HTML_TEMPLATE@, "__REPORT_JSON__"@, replace_all(data_json@, "</"@, "<\\/"@)),
{
    proof {
        reveal_strlit("</");
        reveal_strlit("__REPORT_JSON__");
    }
    let escaped = replace_str(data_json, "</", "<\\/");
    replace_str(REPORT_HTML_TEMPLATE, "__REPORT_JSON__", escaped.as_str())
}

} // verus!
