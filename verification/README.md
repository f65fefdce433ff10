# ironprose

Command-line client and stdio MCP server for the IronProse prose analysis API,
with its decisions written in Verus and proved against their contracts.

- `src/` — the verified library: input hardening, workspace confinement of
  paths, the MCP tool catalog and tool-call routing, paging and size limits of
  the local file tools, error mapping and sanitizing of API replies, `$ref`
  resolution of the OpenAPI document, and the text and Markdown renderings of
  API responses. Calls into `regex-lite`, `serde_json`, `chrono` and the file
  system stand behind small trusted wrappers in `src/foreign.rs`.
- `app/` — the program around it: argument parsing (`clap`), HTTP (`reqwest`),
  the MCP protocol (`rmcp`), file I/O, and the formatting of floating-point
  scores.
- `tests/` — tests of the library.
