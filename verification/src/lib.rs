//! Management of the MCP server presets kept in a Codex configuration: adding,
//! updating, enabling, disabling, removing and listing them, and laying out the
//! listing as a text table.

pub mod config;
pub mod laws;
pub mod preset;
pub mod table;

pub use preset::McpServerPreset;
