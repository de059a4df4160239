# searx_search

A search tool backed by a SearxNG instance, written in Verus.

- `src/` is the verified library: the JSON value the tool reads and writes
  (`json.rs`), text helpers (`text.rs`), pruning of a raw SearxNG reply
  (`prune.rs`), its Markdown rendering (`markdown.rs`), and the tool itself:
  its configuration, its arguments, the request it plans and the answer it
  gives (`tool.rs`). The calls into reqwest, url and serde_json stand behind
  the trusted items of `external.rs`.
- `app/` is the tool as an agent calls it: it converts serde_json values,
  sends the planned request with reqwest, and reads the output format from
  `ZEPTOCLAW_TOOLS_SEARCH_ENGINE_FORMAT` (`markdown` by default, or `json`).
- `tests/` runs the library on concrete inputs.
