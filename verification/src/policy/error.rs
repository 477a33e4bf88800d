use vstd::prelude::*;

use crate::text::concat_str;

verus! {

/// Errors of the policy system. Failures reported by outside libraries are carried as
/// their messages.
#[derive(Debug)]
pub enum PolicyError {
    /// Policy parsing error
    ParseError(String),
    /// Invalid policy format
    InvalidFormat(String),
    /// Permission denied
    PermissionDenied {
        /// Action that was denied
        action: String,
        /// Resource that was being accessed
        resource: String,
    },
    /// Resource limit exceeded
    ResourceLimitExceeded {
        /// Resource type that exceeded limit
        resource: String,
        /// The configured limit
        limit: String,
        /// The amount requested
        requested: String,
    },
    /// Runtime error
    RuntimeError(String),
    /// Extension not found
    ExtensionNotFound(String),
    /// Invalid extension configuration
    InvalidExtension {
        /// Extension name
        extension: String,
        /// Error message
        message: String,
    },
    /// Policy validation error
    ValidationError(String),
    /// Incompatible runtime
    IncompatibleRuntime {
        /// Runtime name
        runtime: String,
    },
    /// Cache error
    CacheError(String),
    /// IO error, by its message
    IoError(String),
    /// YAML parsing error, by its message
    YamlError(String),
    /// JSON parsing error, by its message
    JsonError(String),
    /// Glob pattern error
    GlobError(String),
    /// Any other error, by its message
    Other(String),
}

impl PolicyError {
    /// Create a parse error with context
    pub fn parse(msg: String) -> (e: Self)
        ensures
            e == PolicyError::ParseError(msg),
    {
        PolicyError::ParseError(msg)
    }

    /// Create a validation error with context
    pub fn validation(msg: String) -> (e: Self)
        ensures
            e == PolicyError::ValidationError(msg),
    {
        PolicyError::ValidationError(msg)
    }

    /// Create a runtime error with context
    pub fn runtime(msg: String) -> (e: Self)
        ensures
            e == PolicyError::RuntimeError(msg),
    {
        PolicyError::RuntimeError(msg)
    }
}


/// The text of an error, as it is shown.
pub open spec fn error_text(e: PolicyError) -> Seq<char> {
    match e {
        PolicyError::ParseError(m) => "Failed to parse policy: "@ + m@,
        PolicyError::InvalidFormat(m) => "Invalid policy format: "@ + m@,
        PolicyError::PermissionDenied { action, resource } => "Permission denied: "@ + action@
            + " on "@ + resource@,
        PolicyError::ResourceLimitExceeded { resource, limit, requested } =>
            "Resource limit exceeded: "@ + resource@ + " (limit: "@ + limit@ + ", requested: "@
            + requested@ + ")"@,
        PolicyError::RuntimeError(m) => "Runtime error: "@ + m@,
        PolicyError::ExtensionNotFound(m) => "Extension not found: "@ + m@,
        PolicyError::InvalidExtension { extension, message } =>
            "Invalid extension configuration for "@ + extension@ + ": "@ + message@,
        PolicyError::ValidationError(m) => "Policy validation failed: "@ + m@,
        PolicyError::IncompatibleRuntime { runtime } => "Runtime "@ + runtime@
            + " is not compatible with configuration"@,
        PolicyError::CacheError(m) => "Cache operation failed: "@ + m@,
        PolicyError::IoError(m) => "IO error: "@ + m@,
        PolicyError::YamlError(m) => "YAML parsing error: "@ + m@,
        PolicyError::JsonError(m) => "JSON parsing error: "@ + m@,
        PolicyError::GlobError(m) => "Glob pattern error: "@ + m@,
        PolicyError::Other(m) => m@,
    }
}

fn join3(a: &str, b: &str, c: &str) -> (r: String)
    ensures
        r@ == a@ + b@ + c@,
{
    let x = concat_str(a, b);
    concat_str(x.as_str(), c)
}

impl PolicyError {
    /// The text of the error, as it is shown
    pub fn message(&self) -> (r: String)
        ensures
            r@ == error_text(*self),
    {
        match self {
            PolicyError::ParseError(m) => concat_str("Failed to parse policy: ", m.as_str()),
            PolicyError::InvalidFormat(m) => concat_str("Invalid policy format: ", m.as_str()),
            PolicyError::PermissionDenied { action, resource } => join3(
                concat_str("Permission denied: ", action.as_str()).as_str(),
                " on ",
                resource.as_str(),
            ),
            PolicyError::ResourceLimitExceeded { resource, limit, requested } => {
                let a = join3("Resource limit exceeded: ", resource.as_str(), " (limit: ");
                let b = join3(a.as_str(), limit.as_str(), ", requested: ");
                join3(b.as_str(), requested.as_str(), ")")
            },
            PolicyError::RuntimeError(m) => concat_str("Runtime error: ", m.as_str()),
            PolicyError::ExtensionNotFound(m) => concat_str("Extension not found: ", m.as_str()),
            PolicyError::InvalidExtension { extension, message } => {
                let a = join3("Invalid extension configuration for ", extension.as_str(), ": ");
                concat_str(a.as_str(), message.as_str())
            },
            PolicyError::ValidationError(m) => concat_str("Policy validation failed: ", m.as_str()),
            PolicyError::IncompatibleRuntime { runtime } => join3(
                "Runtime ",
                runtime.as_str(),
                " is not compatible with configuration",
            ),
            PolicyError::CacheError(m) => concat_str("Cache operation failed: ", m.as_str()),
            PolicyError::IoError(m) => concat_str("IO error: ", m.as_str()),
            PolicyError::YamlError(m) => concat_str("YAML parsing error: ", m.as_str()),
            PolicyError::JsonError(m) => concat_str("JSON parsing error: ", m.as_str()),
            PolicyError::GlobError(m) => concat_str("Glob pattern error: ", m.as_str()),
            PolicyError::Other(m) => m.clone(),
        }
    }
}

} // verus!
