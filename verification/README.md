# golem_cli

A verified library for two parts of the Golem command-line tool:

- **Metadata rewriting of WebAssembly binaries** (`src/rewrite.rs`). Given a
  module or component, the changes to make to its name and descriptive
  metadata, and producers to add, it walks the binary's payloads and writes
  it back: nested modules and components are re-wrapped unchanged, sections
  that are not metadata are copied, the outermost metadata sections are kept,
  replaced, rewritten or dropped, and new values are appended at the end. The
  whole walk is stated as a function of the payloads that `wasmparser`
  reports, and the executable rewriter is proved to compute it.
- **The MCP server's decisions** (`src/mcp.rs`, `src/tools.rs`): its settings
  and self-description, and for each tool the command it runs and the answer
  it gives.

Supporting modules: `encoding` (LEB128 and sections, through `wasm-encoder`),
`payload` (the parser's payloads, through `wasmparser`), `producers` (the
producers section, with verified adding and merging), `metadata` (the
requested changes, name sections through `wasm-metadata`, license and URL
normal forms). `producers_laws` and `rewrite_laws` hold the proved laws.

`app/` holds what runs around the library: the HTTP server, the tool
dispatch and the `rmcp` handler.
