use vstd::prelude::*;

use crate::policy::error::{error_text, PolicyError};
use crate::text::concat_str;

verus! {

/// Configuration error type. Failures reported by outside libraries are carried as their
/// messages.
#[derive(Debug)]
pub enum ConfigError {
    /// Configuration parsing error
    ParseError(String),
    /// Configuration validation error
    ValidationError(String),
    /// IO error, by its message
    IoError(String),
    /// YAML error, by its message
    YamlError(String),
    /// JSON error, by its message
    JsonError(String),
    /// Version mismatch between merged configurations
    VersionMismatch {
        /// The version of the configuration merged into
        expected: String,
        /// The version of the configuration merged
        found: String,
    },
    /// Invalid runtime type
    InvalidRuntimeType(String),
    /// Invalid transport type
    InvalidTransportType(String),
    /// Missing required field
    MissingField(String),
    /// Invalid value for a field
    InvalidValue {
        /// The field
        field: String,
        /// The value
        value: String,
    },
    /// Policy error
    PolicyError(PolicyError),
    /// Configuration not found at a path
    NotFound(String),
    /// Merge conflict
    MergeConflict(String),
    /// Any other error, by its message
    Other(String),
}

/// A validation error carrying exactly `msg`.
pub open spec fn validation_error(e: ConfigError, msg: Seq<char>) -> bool {
    e matches ConfigError::ValidationError(m) && m@ == msg
}

/// The text of a configuration error.
pub open spec fn config_error_text(e: ConfigError) -> Seq<char> {
    match e {
        ConfigError::ParseError(s) => "Configuration parsing error: "@ + s@,
        ConfigError::ValidationError(s) => "Configuration validation error: "@ + s@,
        ConfigError::IoError(s) => "IO error: "@ + s@,
        ConfigError::YamlError(s) => "YAML error: "@ + s@,
        ConfigError::JsonError(s) => "JSON error: "@ + s@,
        ConfigError::VersionMismatch { expected, found } => "Version mismatch: expected "@ + expected@
            + ", found "@ + found@,
        ConfigError::InvalidRuntimeType(s) => "Invalid runtime type: "@ + s@,
        ConfigError::InvalidTransportType(s) => "Invalid transport type: "@ + s@,
        ConfigError::MissingField(s) => "Missing required field: "@ + s@,
        ConfigError::InvalidValue { field, value } => "Invalid value for "@ + field@ + ": "@ + value@,
        ConfigError::PolicyError(p) => "Policy error: "@ + error_text(p),
        ConfigError::NotFound(s) => "Configuration not found at path: "@ + s@,
        ConfigError::MergeConflict(s) => "Merge conflict: "@ + s@,
        ConfigError::Other(s) => "Other error: "@ + s@,
    }
}

impl ConfigError {
    /// The error's text
    pub fn message(&self) -> (r: String)
        ensures
            r@ == config_error_text(*self),
    {
        match self {
            ConfigError::ParseError(s) => concat_str("Configuration parsing error: ", s.as_str()),
            ConfigError::ValidationError(s) => concat_str("Configuration validation error: ", s.as_str()),
            ConfigError::IoError(s) => concat_str("IO error: ", s.as_str()),
            ConfigError::YamlError(s) => concat_str("YAML error: ", s.as_str()),
            ConfigError::JsonError(s) => concat_str("JSON error: ", s.as_str()),
            ConfigError::VersionMismatch { expected, found } => {
                let a = concat_str("Version mismatch: expected ", expected.as_str());
                let b = concat_str(a.as_str(), ", found ");
                concat_str(b.as_str(), found.as_str())
            },
            ConfigError::InvalidRuntimeType(s) => concat_str("Invalid runtime type: ", s.as_str()),
            ConfigError::InvalidTransportType(s) => concat_str("Invalid transport type: ", s.as_str()),
            ConfigError::MissingField(s) => concat_str("Missing required field: ", s.as_str()),
            ConfigError::InvalidValue { field, value } => {
                let a = concat_str("Invalid value for ", field.as_str());
                let b = concat_str(a.as_str(), ": ");
                concat_str(b.as_str(), value.as_str())
            },
            ConfigError::PolicyError(p) => concat_str("Policy error: ", p.message().as_str()),
            ConfigError::NotFound(s) => concat_str("Configuration not found at path: ", s.as_str()),
            ConfigError::MergeConflict(s) => concat_str("Merge conflict: ", s.as_str()),
            ConfigError::Other(s) => concat_str("Other error: ", s.as_str()),
        }
    }
}

} // verus!
