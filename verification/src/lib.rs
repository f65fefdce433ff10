//! Verified core of the IronProse command-line client and MCP server.
pub mod cli;
pub mod error;
pub mod foreign;
pub mod input;
pub mod json;
pub mod mcp;
pub mod output;
pub mod path;
pub mod proxy;
pub mod refs;
pub mod report;
pub mod schema;
pub mod spec_source;
pub mod tally;
pub mod text;
pub mod text_render;
pub mod types;
