//! Configuration of an MCP server: the settings, their defaults, their validation and
//! how configurations are merged and loaded.

pub mod defaults;
pub mod error;
pub mod float_syntax;
pub mod types;
pub mod validation;
pub mod loader;
