pub mod cache;
pub mod compiled;
pub mod core_defs;
pub mod error;
pub mod glob;
pub mod limits;
pub mod globs;
pub mod mcp;
pub mod path_trie;
pub mod permissions;
pub mod runtime;
pub mod tool_lists;
pub mod yaml;
