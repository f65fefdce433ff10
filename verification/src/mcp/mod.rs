//! The logic of the stdio MCP server: tool routing, workspace confinement and
//! local file tool decisions.
pub mod audit;
pub mod catalog;
pub mod error;
pub mod local_tools;
pub mod proxy;
pub mod sandbox;
pub mod server;
