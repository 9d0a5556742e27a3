# todohawk

Scans a codebase for TODO-style annotations in comments (`TODO`, `FIXME`,
`HACK`, `XXX`, `NOTE`, `OPTIMIZE`, `BUG`, `WARN`, with an optional
`(author)` and `:`) and reports them as a table, JSON, markdown grouped by
file, or a summary of counts per tag.

The library under `src/` is verified with Verus:

- `parser.rs` states the annotation grammar as spec functions over the
  characters of a line (leftmost comment opener, greedy whitespace, author
  and colon, shortest message before an optional `-->` or `*/`) and proves
  `parse_line` against it.
- `scanner.rs` decides which entries and files a scan visits and splits a
  file's text into lines as `str::lines` does, numbering items from line 1.
- `reporter.rs` composes the table, markdown and summary reports, and keeps
  the items of the tags asked for.
- `tui.rs` holds the state of an item browser (filters, search, selection,
  mode) and how each key changes it.
- `text.rs`, `order.rs`, `style.rs`, `literals.rs`, `types.rs` hold the shared
  helpers: trimming, padding, decimal numbers, joining, UTF-8 byte lengths,
  string order, terminal colours and the item types.

`app/` is the command-line program: argument parsing (clap), the directory
walk (walkdir), reading files, JSON output (serde, serde_json) and printing.
