use vstd::prelude::*;

use crate::bundle::{hex_encode, hex_text, sha256, sha256_of};
use crate::text::{ascii_upper, chars_of, str_eq, string_from_chars, to_uppercase, uppercase};
use crate::wasm::WasmError;

verus! {

/// Manifest describing a WASM tool's metadata and requirements
#[derive(Debug, Clone)]
pub struct WasmToolManifest {
    /// Unique name of the tool
    pub name: String,
    /// Tool version
    pub version: String,
    /// Description of what the tool does
    pub description: Option<String>,
    /// Path to the WASM module file (relative to manifest)
    pub wasm_module: String,
    /// Credentials required by this tool
    pub credentials: Vec<CredentialRequirement>,
    /// JSON Schema for tool input parameters, as JSON text
    pub input_schema: String,
    /// Optional JSON Schema for tool output, as JSON text
    pub output_schema: Option<String>,
    /// Execution timeout in seconds (default: 30)
    pub timeout_seconds: u64,
    /// Maximum memory in bytes (default: 50MB)
    pub max_memory_bytes: usize,
    /// Maximum fuel for execution (to prevent DOS). If None, uses default based on memory.
    pub max_fuel: Option<u64>,
    /// Environment variables to set (in addition to credentials)
    pub env_vars: Vec<EnvVar>,
}

/// A credential requirement for a tool
#[derive(Debug, Clone)]
pub struct CredentialRequirement {
    /// Name/identifier for this credential
    pub name: String,
    /// Type of credential
    pub credential_type: CredentialType,
    /// Whether this credential is required
    pub required: bool,
    /// Environment variable name to inject (defaults to uppercase name)
    pub env_var: Option<String>,
    /// Human-readable description of what this credential is for
    pub description: Option<String>,
}

/// Types of credentials a tool can require
#[derive(Debug, Clone)]
pub enum CredentialType {
    /// OAuth2 token with optional scopes
    OAuth2 {
        /// Scopes
        scopes: Vec<String>,
        /// Provider
        provider: Option<String>,
    },
    /// Simple API key
    ApiKey,
    /// HTTP Basic authentication
    BasicAuth,
    /// Bearer token
    BearerToken,
    /// Custom credential type
    Custom {
        /// Schema, as JSON text
        schema: String,
    },
}

/// Environment variable to set for the tool
#[derive(Debug, Clone)]
pub struct EnvVar {
    /// Environment variable name
    pub name: String,
    /// Value to set
    pub value: String,
}

/// The default execution timeout, in seconds
pub fn default_timeout() -> (r: u64)
    ensures
        r == 30,
{
    30
}

/// The default memory limit: 50 MiB
pub fn default_max_memory() -> (r: usize)
    ensures
        r == 50 * 1024 * 1024,
{
    50 * 1024 * 1024
}

/// Credentials are required by default
pub fn default_true() -> (r: bool)
    ensures
        r,
{
    true
}

/// The bytes of the parts, one after another.
pub open spec fn joined_bytes(parts: Seq<Seq<u8>>) -> Seq<u8>
    decreases parts.len(),
{
    if parts.len() == 0 {
        seq![]
    } else {
        joined_bytes(parts.drop_last()) + parts.last()
    }
}

/// The hash of a bundle: SHA-256 over its parts in order (the binary, the listed files
/// that exist, the manifest text without its hash), as lowercase hex.
pub fn bundle_hash(parts: &Vec<Vec<u8>>) -> (r: String)
    ensures
        r@ == hex_text(sha256_of(joined_bytes(parts@.map_values(|p: Vec<u8>| p@)))),
{
    let ghost views = parts@.map_values(|p: Vec<u8>| p@);
    let mut all: Vec<u8> = Vec::new();
    let mut i: usize = 0;
    assert(views.subrange(0, 0) =~= Seq::<Seq<u8>>::empty());
    while i < parts.len()
        invariant
            i <= parts.len(),
            views == parts@.map_values(|p: Vec<u8>| p@),
            all@ == joined_bytes(views.subrange(0, i as int)),
        decreases parts.len() - i,
    {
        let part = &parts[i];
        let ghost before = all@;
        let mut k: usize = 0;
        while k < part.len()
            invariant
                k <= part.len(),
                all@ == before + part@.subrange(0, k as int),
            decreases part.len() - k,
        {
            all.push(part[k]);
            assert(all@ =~= before + part@.subrange(0, k + 1));
            k = k + 1;
        }
        assert(part@.subrange(0, part.len() as int) =~= part@);
        assert(views.subrange(0, i + 1).drop_last() =~= views.subrange(0, i as int));
        assert(views[i as int] == part@);
        i = i + 1;
    }
    assert(views.subrange(0, parts.len() as int) =~= views);
    let digest = sha256(all.as_slice());
    hex_encode(digest.as_slice())
}

/// Bundle manifest for MCP WASM applications
#[derive(Debug, Clone)]
pub struct BundleManifest {
    /// Bundle metadata
    pub metadata: BundleMetadata,
    /// MCP server configuration
    pub server: ServerConfig,
    /// Runtime requirements
    pub runtime: RuntimeRequirements,
    /// Bundle contents
    pub bundle: BundleContents,
    /// Optional dependencies
    pub dependencies: BundleDependencies,
}

/// Bundle metadata information
#[derive(Debug, Clone)]
pub struct BundleMetadata {
    /// Bundle name
    pub name: String,
    /// Semantic version
    pub version: String,
    /// Description
    pub description: String,
    /// Author
    pub author: String,
    /// License
    pub license: String,
    /// Creation time
    pub created_at: String,
    /// Hash of the bundle contents
    pub bundle_hash: Option<String>,
}

/// MCP server configuration of a bundle
#[derive(Debug, Clone)]
pub struct ServerConfig {
    /// MCP protocol version
    pub protocol_version: String,
    /// Transport type
    pub transport: String,
    /// Capabilities
    pub capabilities: Vec<String>,
    /// Tools provided by this server
    pub tools: Vec<McpToolInfo>,
}

/// Information about an MCP tool
#[derive(Debug, Clone)]
pub struct McpToolInfo {
    /// Tool name
    pub name: String,
    /// Tool description
    pub description: String,
    /// Required features
    pub required_features: Vec<String>,
}

/// WASM runtime requirements
#[derive(Debug, Clone)]
pub struct RuntimeRequirements {
    /// Target (e.g., "wasm32-wasip2")
    pub target: String,
    /// WASI version
    pub wasi_version: String,
    /// Required WASI features
    pub required_features: Vec<String>,
    /// Environment variables
    pub environment: Vec<BundleEnvVar>,
}

/// An environment variable of a bundle
#[derive(Debug, Clone)]
pub struct BundleEnvVar {
    /// Variable name
    pub name: String,
    /// Description
    pub description: String,
    /// Whether the variable is required
    pub required: bool,
    /// Default value
    pub default: Option<String>,
}

/// Bundle contents
#[derive(Debug, Clone)]
pub struct BundleContents {
    /// Main WASM binary file name
    pub binary: String,
    /// Additional files included in the bundle
    pub files: Vec<String>,
    /// Size in bytes
    pub size: Option<u64>,
}

/// Bundle dependencies
#[derive(Debug, Clone, Default)]
pub struct BundleDependencies {
    /// Required external services
    pub services: Vec<ServiceDependency>,
    /// OAuth providers
    pub oauth_providers: Vec<String>,
}

/// Service dependency
#[derive(Debug, Clone)]
pub struct ServiceDependency {
    /// Service name
    pub name: String,
    /// Service type
    pub service_type: String,
    /// Version requirement
    pub version: Option<String>,
    /// Connection template
    pub connection_template: Option<String>,
}

/// A manifest error with exactly `msg`.
pub open spec fn manifest_error(e: WasmError, msg: Seq<char>) -> bool {
    e matches WasmError::ManifestError(m) && m@ == msg
}

/// The default environment variable of a credential: its name in upper case, with `_` for
/// `-`.
pub open spec fn default_env_name(name: Seq<char>) -> Seq<char> {
    uppercase(name).map_values(|c: char| if c == '-' {
        '_'
    } else {
        c
    })
}

/// The default environment variable of a credential with an ASCII name: the name with
/// `a` to `z` in upper case and `_` for `-`.
pub open spec fn ascii_env_name(name: Seq<char>) -> Seq<char> {
    name.map_values(|c: char| if ascii_upper(c) == '-' {
        '_'
    } else {
        ascii_upper(c)
    })
}

/// The first credential with the name.
pub open spec fn credential_index(creds: Seq<CredentialRequirement>, name: Seq<char>) -> Option<int>
    decreases creds.len(),
{
    if creds.len() == 0 {
        None
    } else if creds[0].name@ == name {
        Some(0)
    } else {
        match credential_index(creds.drop_first(), name) {
            Some(i) => Some(i + 1),
            None => None,
        }
    }
}

/// The environment variable that a credential is given in.
pub open spec fn credential_env(c: CredentialRequirement) -> Seq<char> {
    match c.env_var {
        Some(v) => v@,
        None => default_env_name(c.name@),
    }
}

impl WasmToolManifest {
    /// Validate the manifest: a name, a version, a timeout and a memory limit.
    pub fn validate(&self) -> (r: Result<(), WasmError>)
        ensures
            r is Ok <==> (self.name@.len() > 0 && self.version@.len() > 0 && self.timeout_seconds
                > 0 && self.max_memory_bytes > 0),
            self.name@.len() == 0 ==> manifest_error(r->Err_0, "Tool name cannot be empty"@),
            self.name@.len() > 0 && self.version@.len() == 0 ==> manifest_error(
                r->Err_0,
                "Tool version cannot be empty"@,
            ),
            self.name@.len() > 0 && self.version@.len() > 0 && self.timeout_seconds == 0
                ==> manifest_error(r->Err_0, "Timeout must be greater than 0"@),
            self.name@.len() > 0 && self.version@.len() > 0 && self.timeout_seconds > 0
                && self.max_memory_bytes == 0 ==> manifest_error(
                r->Err_0,
                "Max memory must be greater than 0"@,
            ),
    {
        if self.name.as_str().is_empty() {
            return Err(WasmError::ManifestError("Tool name cannot be empty".to_string()));
        }
        if self.version.as_str().is_empty() {
            return Err(WasmError::ManifestError("Tool version cannot be empty".to_string()));
        }
        if self.timeout_seconds == 0 {
            return Err(WasmError::ManifestError("Timeout must be greater than 0".to_string()));
        }
        if self.max_memory_bytes == 0 {
            return Err(WasmError::ManifestError("Max memory must be greater than 0".to_string()));
        }
        Ok(())
    }

    /// Get the environment variable name for a credential
    pub fn get_credential_env_var(&self, cred_name: &str) -> (r: Option<String>)
        ensures
            match credential_index(self.credentials@, cred_name@) {
                Some(i) => r matches Some(s) && s@ == credential_env(self.credentials@[i]),
                None => r is None,
            },
            (forall|k: int| 0 <= k < cred_name@.len() ==> (#[trigger] cred_name@[k] as int) < 128)
                ==> ((credential_index(self.credentials@, cred_name@) matches Some(i)
                && self.credentials@[i].env_var is None) ==> (r matches Some(s) && s@ == ascii_env_name(
                cred_name@))),
    {
        let mut i: usize = 0;
        assert(self.credentials@.skip(0) =~= self.credentials@);
        while i < self.credentials.len()
            invariant
                i <= self.credentials.len(),
                credential_index(self.credentials@, cred_name@) == match credential_index(
                    self.credentials@.skip(i as int),
                    cred_name@,
                ) {
                    Some(k) => Some(k + i),
                    None => None::<int>,
                },
            decreases self.credentials.len() - i,
        {
            assert(self.credentials@.skip(i as int).drop_first() =~= self.credentials@.skip(i + 1));
            let c = &self.credentials[i];
            if str_eq(c.name.as_str(), cred_name) {
                return match &c.env_var {
                    Some(v) => Some(v.clone()),
                    None => {
                        let up = to_uppercase(c.name.as_str());
                        let out = dashes_to_underscores(up.as_str());
                        proof {
                            assert(c.name@ == cred_name@);
                            if forall|k: int| 0 <= k < cred_name@.len() ==> (#[trigger] cred_name@[k] as int) < 128 {
                                assert(out@ =~= ascii_env_name(cred_name@));
                            }
                        }
                        Some(out)
                    },
                };
            }
            i = i + 1;
        }
        None
    }
}

/// The text with `_` for every `-`.
pub(crate) fn dashes_to_underscores(s: &str) -> (r: String)
    ensures
        r@ == s@.map_values(|c: char| if c == '-' {
            '_'
        } else {
            c
        }),
{
    let v = chars_of(s);
    let mut out: Vec<char> = Vec::new();
    let mut i: usize = 0;
    while i < v.len()
        invariant
            i <= v.len(),
            v@ == s@,
            out@ == v@.subrange(0, i as int).map_values(|c: char| if c == '-' {
                '_'
            } else {
                c
            }),
        decreases v.len() - i,
    {
        out.push(if v[i] == '-' {
            '_'
        } else {
            v[i]
        });
        assert(out@ =~= v@.subrange(0, i + 1).map_values(|c: char| if c == '-' {
            '_'
        } else {
            c
        }));
        i = i + 1;
    }
    assert(v@.subrange(0, i as int) =~= v@);
    string_from_chars(&out)
}

} // verus!
