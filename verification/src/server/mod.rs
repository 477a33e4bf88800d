//! The server side: settings drawn from a configuration, and a handler wrapper that
//! enforces a policy on tool calls and resource reads.

pub mod policy;
pub mod settings;
pub mod tasks;
