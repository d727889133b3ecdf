//! Process-and-module discovery for the `process_find_by_module` and
//! `process_list` MCP tools.

pub mod matcher;
pub mod model;
pub mod service;
