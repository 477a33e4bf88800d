use vstd::prelude::*;

use crate::config::error::ConfigError;
use crate::policy::permissions::{entry_map, lemma_entry_map_append, Policy};
use crate::text::{in_list, list_contains};

verus! {

/// Main configuration structure for mcpkit-rs
#[derive(Debug)]
pub struct Config {
    /// Configuration format version
    pub version: String,
    /// Metadata about this configuration
    pub metadata: Option<Metadata>,
    /// Server configuration
    pub server: ServerConfig,
    /// Transport configuration
    pub transport: TransportConfig,
    /// Security policy configuration
    pub policy: Option<Policy>,
    /// Runtime configuration
    pub runtime: RuntimeConfig,
    /// MCP-specific configuration
    pub mcp: McpConfig,
    /// Distribution configuration for OCI/registry publishing
    pub distribution: Option<DistributionConfig>,
    /// Extension configurations by name, each as JSON text; a later entry for a name
    /// replaces an earlier one
    pub extensions: Vec<(String, String)>,
}

/// Metadata about the configuration
#[derive(Debug, Clone)]
pub struct Metadata {
    /// Name
    pub name: Option<String>,
    /// Description
    pub description: Option<String>,
    /// Author
    pub author: Option<String>,
    /// Creation time
    pub created_at: Option<String>,
    /// Modification time
    pub modified_at: Option<String>,
}

/// Server configuration
#[derive(Debug, Clone)]
pub struct ServerConfig {
    /// Server name
    pub name: String,
    /// Server version
    pub version: String,
    /// Server description
    pub description: Option<String>,
    /// Bind address
    pub bind: String,
    /// Port number
    pub port: u16,
    /// Max connections
    pub max_connections: Option<usize>,
    /// Request timeout in seconds
    pub request_timeout: Option<u64>,
    /// Enable debug mode
    pub debug: bool,
    /// Log level (trace, debug, info, warn, error)
    pub log_level: Option<String>,
}

/// Transport configuration
#[derive(Debug, Clone)]
pub struct TransportConfig {
    /// Transport type
    pub transport_type: TransportType,
    /// Transport-specific settings
    pub settings: TransportSettings,
}

/// Available transport types
#[derive(Debug, Clone, Copy, PartialEq, Eq, Structural)]
pub enum TransportType {
    /// Standard input and output
    Stdio,
    /// HTTP
    Http,
    /// WebSocket
    WebSocket,
    /// gRPC
    Grpc,
}

/// Transport-specific settings
#[derive(Debug, Clone)]
pub enum TransportSettings {
    /// Stdio settings
    Stdio(StdioSettings),
    /// HTTP settings
    Http(HttpSettings),
    /// WebSocket settings
    WebSocket(WebSocketSettings),
    /// gRPC settings
    Grpc(GrpcSettings),
}

/// Stdio transport settings
#[derive(Debug, Clone)]
pub struct StdioSettings {
    /// Buffer size
    pub buffer_size: Option<usize>,
}

/// HTTP transport settings
#[derive(Debug, Clone)]
pub struct HttpSettings {
    /// Whether CORS is enabled
    pub cors_enabled: Option<bool>,
    /// Allowed CORS origins
    pub cors_origins: Option<Vec<String>>,
    /// Maximum body size
    pub max_body_size: Option<usize>,
    /// Whether compression is enabled
    pub compression: Option<bool>,
    /// TLS settings
    pub tls: Option<TlsConfig>,
}

/// WebSocket transport settings
#[derive(Debug, Clone)]
pub struct WebSocketSettings {
    /// Ping interval
    pub ping_interval: Option<u64>,
    /// Maximum frame size
    pub max_frame_size: Option<usize>,
    /// Whether compression is enabled
    pub compression: Option<bool>,
}

/// gRPC transport settings
#[derive(Debug, Clone)]
pub struct GrpcSettings {
    /// Whether reflection is enabled
    pub reflection: Option<bool>,
    /// Maximum message size
    pub max_message_size: Option<usize>,
    /// TLS settings
    pub tls: Option<TlsConfig>,
}

/// TLS configuration
#[derive(Debug, Clone)]
pub struct TlsConfig {
    /// Certificate file path
    pub cert_file: String,
    /// Key file path
    pub key_file: String,
    /// CA file path
    pub ca_file: Option<String>,
    /// Whether clients are verified
    pub verify_client: Option<bool>,
}

/// Runtime configuration
#[derive(Debug, Clone)]
pub struct RuntimeConfig {
    /// Runtime type (native, wasmtime, wasmedge)
    pub runtime_type: RuntimeType,
    /// WASM-specific settings
    pub wasm: Option<WasmConfig>,
    /// Resource limits
    pub limits: Option<ResourceLimits>,
}

/// Runtime types
#[derive(Debug, Clone, Copy, PartialEq, Eq, Structural)]
pub enum RuntimeType {
    /// Native execution
    Native,
    /// Wasmtime
    Wasmtime,
    /// WasmEdge
    WasmEdge,
}

/// WASM runtime configuration
#[derive(Debug, Clone)]
pub struct WasmConfig {
    /// Path to WASM module
    pub module_file: Option<String>,
    /// Enable fuel metering
    pub fuel: Option<u64>,
    /// Memory pages limit
    pub memory_pages: Option<u32>,
    /// Enable caching
    pub cache: Option<bool>,
    /// Cache directory
    pub cache_dir: Option<String>,
}

/// Resource limits
#[derive(Debug, Clone)]
pub struct ResourceLimits {
    /// CPU limit
    pub cpu: Option<String>,
    /// Memory limit
    pub memory: Option<String>,
    /// Execution time limit
    pub execution_time: Option<String>,
    /// Request rate limit
    pub max_requests_per_minute: Option<u32>,
}

/// MCP-specific configuration
#[derive(Debug, Clone)]
pub struct McpConfig {
    /// Protocol version
    pub protocol_version: String,
    /// Available tools
    pub tools: Option<Vec<ToolConfig>>,
    /// Available prompts
    pub prompts: Option<Vec<PromptConfig>>,
    /// Available resources
    pub resources: Option<Vec<ResourceConfig>>,
    /// Capabilities
    pub capabilities: Option<McpCapabilities>,
}

/// Tool configuration
#[derive(Debug, Clone)]
pub struct ToolConfig {
    /// Tool name
    pub name: String,
    /// Tool description
    pub description: String,
    /// Input schema, as JSON text
    pub input_schema: String,
    /// Handler
    pub handler: Option<String>,
}

/// Prompt configuration
#[derive(Debug, Clone)]
pub struct PromptConfig {
    /// Prompt name
    pub name: String,
    /// Prompt description
    pub description: String,
    /// Arguments
    pub arguments: Option<Vec<PromptArgument>>,
}

/// Prompt argument
#[derive(Debug, Clone)]
pub struct PromptArgument {
    /// Argument name
    pub name: String,
    /// Argument description
    pub description: Option<String>,
    /// Whether the argument is required
    pub required: bool,
    /// Default value, as JSON text
    pub default: Option<String>,
}

/// Resource configuration
#[derive(Debug, Clone)]
pub struct ResourceConfig {
    /// Resource name
    pub name: String,
    /// Resource URI
    pub uri: String,
    /// Description
    pub description: Option<String>,
    /// MIME type
    pub mime_type: Option<String>,
}

/// MCP capabilities
#[derive(Debug, Clone)]
pub enum McpCapabilities {
    /// Capabilities named in a list
    List(Vec<String>),
    /// Capabilities as flags
    Struct {
        /// Tools
        tools: Option<bool>,
        /// Prompts
        prompts: Option<bool>,
        /// Resources
        resources: Option<bool>,
        /// Logging
        logging: Option<bool>,
        /// Experimental capabilities by name
        experimental: Option<Vec<(String, bool)>>,
    },
}

/// Distribution configuration for OCI registry publishing
#[derive(Debug, Clone)]
pub struct DistributionConfig {
    /// OCI registry URI for this bundle (e.g., ghcr.io/org/bundle)
    pub registry: String,
    /// Version to publish (defaults to server.version)
    pub version: Option<String>,
    /// Tags to apply to the OCI image
    pub tags: Vec<String>,
    /// Bundle metadata for registry
    pub metadata: Option<BundleMetadata>,
    /// Files to include in bundle (defaults to module.wasm + config.yaml)
    pub included_files: Vec<String>,
    /// Registry authentication configuration
    pub auth: Option<RegistryAuth>,
}

/// Bundle metadata for distribution
#[derive(Debug, Clone)]
pub struct BundleMetadata {
    /// Bundle authors
    pub authors: Vec<String>,
    /// License identifier (e.g., MIT, Apache-2.0)
    pub license: Option<String>,
    /// Source repository URL
    pub repository: Option<String>,
    /// Keywords for discovery
    pub keywords: Vec<String>,
    /// Bundle homepage
    pub homepage: Option<String>,
    /// Documentation URL
    pub documentation: Option<String>,
}

/// Registry authentication configuration
#[derive(Debug, Clone)]
pub struct RegistryAuth {
    /// Registry username (supports env var interpolation)
    pub username: Option<String>,
    /// Registry password/token (supports env var interpolation)
    pub password: Option<String>,
    /// Path to auth file (e.g., ~/.docker/config.json)
    pub auth_file: Option<String>,
    /// Use system keychain for credentials
    pub use_keychain: bool,
}

impl McpCapabilities {
    /// Whether the capability `name` is on: named in the list, or its flag set.
    pub open spec fn spec_has(self, name: Seq<char>, flag: Option<bool>) -> bool {
        match self {
            McpCapabilities::List(caps) => in_list(caps@, name),
            McpCapabilities::Struct { .. } => flag == Some(true),
        }
    }

    /// The flags of a flag set, in the order tools, prompts, resources, logging.
    pub open spec fn flags(self) -> (Option<bool>, Option<bool>, Option<bool>, Option<bool>) {
        match self {
            McpCapabilities::Struct { tools, prompts, resources, logging, .. } => (
                tools,
                prompts,
                resources,
                logging,
            ),
            McpCapabilities::List(_) => (None, None, None, None),
        }
    }

    fn has(&self, name: &str, which: u8) -> (r: bool)
        requires
            which < 4,
        ensures
            r == self.spec_has(
                name@,
                if which == 0 {
                    self.flags().0
                } else if which == 1 {
                    self.flags().1
                } else if which == 2 {
                    self.flags().2
                } else {
                    self.flags().3
                },
            ),
    {
        match self {
            McpCapabilities::List(caps) => list_contains(caps, name),
            McpCapabilities::Struct { tools, prompts, resources, logging, .. } => {
                let flag = if which == 0 {
                    *tools
                } else if which == 1 {
                    *prompts
                } else if which == 2 {
                    *resources
                } else {
                    *logging
                };
                match flag {
                    Some(b) => b,
                    None => false,
                }
            },
        }
    }

    /// Whether tools are a capability
    pub fn has_tools(&self) -> (r: bool)
        ensures
            r == self.spec_has("tools"@, self.flags().0),
    {
        self.has("tools", 0)
    }

    /// Whether prompts are a capability
    pub fn has_prompts(&self) -> (r: bool)
        ensures
            r == self.spec_has("prompts"@, self.flags().1),
    {
        self.has("prompts", 1)
    }

    /// Whether resources are a capability
    pub fn has_resources(&self) -> (r: bool)
        ensures
            r == self.spec_has("resources"@, self.flags().2),
    {
        self.has("resources", 2)
    }

    /// Whether logging is a capability
    pub fn has_logging(&self) -> (r: bool)
        ensures
            r == self.spec_has("logging"@, self.flags().3),
    {
        self.has("logging", 3)
    }
}

impl Config {
    /// Merge with another configuration (other takes precedence): the server, transport,
    /// runtime and MCP sections are replaced, the optional sections are replaced where the
    /// other has them, and the other's extensions replace those of the same name.
    pub fn merge(&mut self, other: Config) -> (r: Result<(), ConfigError>)
        ensures
            r is Err <==> other.version@ != old(self).version@,
            r matches Err(e) ==> (e matches ConfigError::VersionMismatch { expected, found }
                && expected@ == old(self).version@ && found@ == other.version@),
            r is Err ==> *final(self) == *old(self),
            r is Ok ==> {
                &&& final(self).version == old(self).version
                &&& final(self).metadata == (if other.metadata is Some {
                    other.metadata
                } else {
                    old(self).metadata
                })
                &&& final(self).server == other.server
                &&& final(self).transport == other.transport
                &&& final(self).policy == (if other.policy is Some {
                    other.policy
                } else {
                    old(self).policy
                })
                &&& final(self).runtime == other.runtime
                &&& final(self).mcp == other.mcp
                &&& final(self).distribution == (if other.distribution is Some {
                    other.distribution
                } else {
                    old(self).distribution
                })
                &&& final(self).extensions@ == old(self).extensions@ + other.extensions@
                &&& entry_map(final(self).extensions@) == entry_map(
                    old(self).extensions@,
                ).union_prefer_right(entry_map(other.extensions@))
            },
    {
        if !crate::text::str_eq(other.version.as_str(), self.version.as_str()) {
            return Err(
                ConfigError::VersionMismatch { expected: self.version.clone(), found: other.version },
            );
        }
        let Config {
            version: _,
            metadata,
            server,
            transport,
            policy,
            runtime,
            mcp,
            distribution,
            extensions,
        } = other;
        if metadata.is_some() {
            self.metadata = metadata;
        }
        self.server = server;
        self.transport = transport;
        if policy.is_some() {
            self.policy = policy;
        }
        self.runtime = runtime;
        self.mcp = mcp;
        if distribution.is_some() {
            self.distribution = distribution;
        }
        let ghost before = self.extensions@;
        let mut ext = extensions;
        self.extensions.append(&mut ext);
        proof {
            lemma_entry_map_append(before, extensions@);
        }
        Ok(())
    }
}

} // verus!
