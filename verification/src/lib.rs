use vstd::prelude::*;

pub mod bundle;
pub mod config;
pub mod policy;
pub mod server;
pub mod text;
pub mod wasm;
