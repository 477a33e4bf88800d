//! The texts of the bundle errors, and how a bundle error is answered to a client.

use vstd::prelude::*;

use crate::bundle::cache::CacheError;
use crate::bundle::oci::OciError;
use crate::bundle::BundleError;
use crate::server::policy::ErrorData;
use crate::text::{concat_str, string_from_chars};
use crate::wasm::metering::{decimal_string, decimal_text};

verus! {

/// The text of a registry error.
pub open spec fn oci_error_text(e: OciError) -> Seq<char> {
    match e {
        OciError::HttpError(s) => "HTTP request failed: "@ + s@,
        OciError::RegistryError { status, message } => "Registry returned error: "@ + decimal_text(
            status as nat,
        ) + " - "@ + message@,
        OciError::InvalidManifest(s) => "Invalid manifest format: "@ + s@,
        OciError::LayerNotFound(s) => "Layer not found: "@ + s@,
        OciError::AuthenticationRequired =>
            "Authentication required. Set GITHUB_USER and GITHUB_TOKEN environment variables or use --auth flag"@,
        OciError::UnsupportedMediaType(s) => "Unsupported media type: "@ + s@,
    }
}

/// The text of a cache error.
pub open spec fn cache_error_text(e: CacheError) -> Seq<char> {
    match e {
        CacheError::IoError(s) => "IO error: "@ + s@,
        CacheError::NotFound(s) => "Bundle not found in cache: "@ + s@,
        CacheError::Corrupted(s) => "Cache corrupted: "@ + s@,
        CacheError::LockPoisoned => "Lock poisoned"@,
    }
}

/// The text of a bundle error.
pub open spec fn bundle_error_text(e: BundleError) -> Seq<char> {
    match e {
        BundleError::OciError(x) => "OCI operation failed: "@ + oci_error_text(x),
        BundleError::CacheError(x) => "Cache operation failed: "@ + cache_error_text(x),
        BundleError::DigestMismatch { expected, computed } => "Digest mismatch - expected: "@
            + expected@ + ", computed: "@ + computed@,
        BundleError::NotFound(s) => "Bundle not found: "@ + s@,
        BundleError::InvalidUri(s) => "Invalid URI: "@ + s@,
        BundleError::AuthenticationFailed(s) => "Authentication failed: "@ + s@,
        BundleError::IoError(s) => "IO error: "@ + s@,
        BundleError::ConfigError(s) => "Configuration error: "@ + s@,
    }
}

/// Whether `d` is how the bundle error `e` is answered to a client: a missing bundle or a
/// failed authentication as an invalid request (-32600), anything else as an internal
/// error (-32603), with the error's text.
pub open spec fn bundle_answer(e: BundleError, d: ErrorData) -> bool {
    &&& d.data is None
    &&& d.message@ == bundle_error_text(e)
    &&& d.code == match e {
        BundleError::NotFound(_) => -32600,
        BundleError::AuthenticationFailed(_) => -32600,
        _ => -32603int,
    }
}

impl OciError {
    /// The error's text
    pub fn message(&self) -> (r: String)
        ensures
            r@ == oci_error_text(*self),
    {
        match self {
            OciError::HttpError(s) => concat_str("HTTP request failed: ", s.as_str()),
            OciError::RegistryError { status, message } => {
                let digits = string_from_chars(&decimal_string(*status as u64));
                let a = concat_str("Registry returned error: ", digits.as_str());
                let b = concat_str(a.as_str(), " - ");
                concat_str(b.as_str(), message.as_str())
            },
            OciError::InvalidManifest(s) => concat_str("Invalid manifest format: ", s.as_str()),
            OciError::LayerNotFound(s) => concat_str("Layer not found: ", s.as_str()),
            OciError::AuthenticationRequired =>
                "Authentication required. Set GITHUB_USER and GITHUB_TOKEN environment variables or use --auth flag".to_string(),
            OciError::UnsupportedMediaType(s) => concat_str("Unsupported media type: ", s.as_str()),
        }
    }
}

impl CacheError {
    /// The error's text
    pub fn message(&self) -> (r: String)
        ensures
            r@ == cache_error_text(*self),
    {
        match self {
            CacheError::IoError(s) => concat_str("IO error: ", s.as_str()),
            CacheError::NotFound(s) => concat_str("Bundle not found in cache: ", s.as_str()),
            CacheError::Corrupted(s) => concat_str("Cache corrupted: ", s.as_str()),
            CacheError::LockPoisoned => "Lock poisoned".to_string(),
        }
    }
}

impl BundleError {
    /// The error's text
    pub fn message(&self) -> (r: String)
        ensures
            r@ == bundle_error_text(*self),
    {
        match self {
            BundleError::OciError(x) => concat_str("OCI operation failed: ", x.message().as_str()),
            BundleError::CacheError(x) => concat_str("Cache operation failed: ", x.message().as_str()),
            BundleError::DigestMismatch { expected, computed } => {
                let a = concat_str("Digest mismatch - expected: ", expected.as_str());
                let b = concat_str(a.as_str(), ", computed: ");
                concat_str(b.as_str(), computed.as_str())
            },
            BundleError::NotFound(s) => concat_str("Bundle not found: ", s.as_str()),
            BundleError::InvalidUri(s) => concat_str("Invalid URI: ", s.as_str()),
            BundleError::AuthenticationFailed(s) => concat_str("Authentication failed: ", s.as_str()),
            BundleError::IoError(s) => concat_str("IO error: ", s.as_str()),
            BundleError::ConfigError(s) => concat_str("Configuration error: ", s.as_str()),
        }
    }

    /// The error as answered to a client
    pub fn into_error_data(self) -> (r: ErrorData)
        ensures
            bundle_answer(self, r),
    {
        let code: i32 = match &self {
            BundleError::NotFound(_) => -32600,
            BundleError::AuthenticationFailed(_) => -32600,
            _ => -32603,
        };
        ErrorData { code, message: self.message(), data: None }
    }
}

} // verus!
