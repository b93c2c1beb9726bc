//! Rewriting of WebAssembly metadata sections, and the decisions of the
//! command-line MCP server.
//!
//! - `encoding`: LEB128 integers, vectors and sections of the binary format.
//! - `payload`: the payloads of a binary as the parser reports them.
//! - `producers`, `producers_laws`: the producers section and its merging.
//! - `metadata`: the requested changes and the metadata sections they touch.
//! - `rewrite`, `rewrite_laws`: the rewriter and what it guarantees.
//! - `mcp`, `tools`: the MCP server's settings and its tools' commands and answers.
pub mod encoding;
pub mod producers;
pub mod producers_laws;
pub mod payload;
pub mod metadata;
pub mod rewrite;
pub mod rewrite_laws;
pub mod mcp;
pub mod tools;
