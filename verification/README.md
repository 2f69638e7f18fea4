# structix_tools

Structural code analysis for TypeScript and C# sources, written in Verus.
The library extracts code entities and symbols from tree-sitter syntax
trees, diffs them between two revisions, finds exact and structural
duplicates, detects clone drift and symbol/API changes, and renders the
results as Markdown, PR comments, HTML pages and AI review prompts.

Layout:

- `src/` — the verified library. Every function carries a contract that
  Verus proves; calls into tree-sitter, sha2 and a few std string functions
  stand behind small trusted wrappers whose doc comments say what is assumed
  of them (`src/syntax.rs`, `src/duplicates/hasher.rs`, `src/text.rs`).
  Properties that span several functions are public proof functions whose
  names begin with `lemma_`.
- `tests/` — tests of the library on concrete inputs.
- `app/` — the two command-line programs around the library: running git,
  reading and writing files, HTTP requests, JSON output and argument parsing.
