//! WASM tool support: tool manifests, compute metering, file system access for tools,
//! and the tool registry.

use vstd::prelude::*;

pub mod context;
pub mod execution;
pub mod executor;
pub mod fs;
pub mod manifest;
pub mod metering;

verus! {

/// Errors that can occur during WASM tool operations
#[derive(Debug)]
pub enum WasmError {
    /// Failed to load WASM module
    LoadError(String),
    /// Failed to compile WASM module
    CompileError(String),
    /// Runtime error
    RuntimeError(String),
    /// Credential resolution failed
    CredentialError(String),
    /// Tool execution timeout
    Timeout,
    /// Invalid manifest
    ManifestError(String),
    /// Tool not found
    ToolNotFound(String),
    /// Invalid output from WASM tool
    InvalidOutput(String),
}

} // verus!
