//! Verified core of an MCP server that drives the Windows `cdb.exe`
//! debugger: output buffering, prompt recognition, the per-session state
//! machine, configuration resolution and module matching.

pub mod text;
pub mod error;
pub mod cdb;
pub mod config;
pub mod platform;
pub mod privilege;
pub mod security;
pub mod process;
pub mod mcp;
