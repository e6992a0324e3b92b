# rloc

A repository line-of-code analyzer. For every source file it finds, a
language-specific classifier labels each line as code, comment, documentation,
mixed or blank; files are categorised (source, test, generated, vendor, docs, ...);
the results are summed per language, category, directory and file and printed as
text tables or JSON.

Layout:

- `src/` — the library, verified with Verus: the line classifiers (`lang/`), the
  language registry and built-in backends, file categorisation, scan/detect/explain
  aggregation, configuration merging, command-line decisions, and the text
  renderings of reports. `src/treesitter.rs`, `src/paths.rs` and the glob matcher in
  `src/categories.rs` are the trusted boundary to `tree-sitter`, `camino` and
  `globset`.
- `app/` — the `rloc` executable: argument parsing with `clap`, walking the tree
  with `ignore`, reading files, loading and writing `.rloc.toml` with `serde`/`toml`,
  and JSON output with `serde_json`.
- `tests/` — tests of the library's public functions.
