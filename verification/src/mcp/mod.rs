//! The MCP tool surface: argument shapes, the tool registry and the
//! decisions the tool dispatcher makes.

pub mod registry;
pub mod server;
pub mod tools;
