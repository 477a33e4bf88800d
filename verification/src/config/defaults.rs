use vstd::prelude::*;

use crate::config::types::{
    Config, McpCapabilities, McpConfig, ResourceLimits, RuntimeConfig, RuntimeType, ServerConfig,
    StdioSettings, TransportConfig, TransportSettings, TransportType,
};

verus! {

/// The version of this package, which a default server reports.
pub const PACKAGE_VERSION: &'static str = "0.1.0";

/// Create a default configuration
pub fn default_config() -> (r: Config)
    ensures
        r.version@ == "1.0"@,
        r.metadata is None,
        r.policy is None,
        r.distribution is None,
        r.extensions@.len() == 0,
        r.server.name@ == "mcpkit-rs-server"@,
        r.server.port == 3000,
        r.transport.transport_type == TransportType::Stdio,
        r.runtime.runtime_type == RuntimeType::Native,
        r.mcp.protocol_version@ == "2024-11-05"@,
{
    Config {
        version: "1.0".to_string(),
        metadata: None,
        server: default_server_config(),
        transport: default_transport_config(),
        policy: None,
        runtime: default_runtime_config(),
        mcp: default_mcp_config(),
        distribution: None,
        extensions: Vec::new(),
    }
}

impl Default for Config {
    /// The default configuration (see [`default_config`])
    fn default() -> (r: Config)
        ensures
            r.version@ == "1.0"@,
            r.metadata is None,
            r.policy is None,
            r.distribution is None,
            r.extensions@.len() == 0,
            r.server.name@ == "mcpkit-rs-server"@,
            r.server.port == 3000,
            r.transport.transport_type == TransportType::Stdio,
            r.runtime.runtime_type == RuntimeType::Native,
            r.mcp.protocol_version@ == "2024-11-05"@,
    {
        default_config()
    }
}

/// The default server settings
pub fn default_server_config() -> (r: ServerConfig)
    ensures
        r.name@ == "mcpkit-rs-server"@,
        r.version@ == PACKAGE_VERSION@,
        r.description matches Some(d) && d@ == "MCP server powered by mcpkit-rs"@,
        r.bind@ == "127.0.0.1"@,
        r.port == 3000,
        r.max_connections == Some(100usize),
        r.request_timeout == Some(30u64),
        !r.debug,
        r.log_level matches Some(l) && l@ == "info"@,
{
    ServerConfig {
        name: "mcpkit-rs-server".to_string(),
        version: PACKAGE_VERSION.to_string(),
        description: Some("MCP server powered by mcpkit-rs".to_string()),
        bind: "127.0.0.1".to_string(),
        port: 3000,
        max_connections: Some(100),
        request_timeout: Some(30),
        debug: false,
        log_level: Some("info".to_string()),
    }
}

/// The default transport: stdio with a 64 KiB buffer
pub fn default_transport_config() -> (r: TransportConfig)
    ensures
        r.transport_type == TransportType::Stdio,
        r.settings matches TransportSettings::Stdio(s) && s.buffer_size == Some(65536usize),
{
    TransportConfig {
        transport_type: TransportType::Stdio,
        settings: TransportSettings::Stdio(StdioSettings { buffer_size: Some(65536) }),
    }
}

/// The default runtime: native, with default limits
pub fn default_runtime_config() -> (r: RuntimeConfig)
    ensures
        r.runtime_type == RuntimeType::Native,
        r.wasm is None,
        r.limits matches Some(l) && {
            &&& l.cpu matches Some(c) && c@ == "1000m"@
            &&& l.memory matches Some(m) && m@ == "512Mi"@
            &&& l.execution_time matches Some(t) && t@ == "60s"@
            &&& l.max_requests_per_minute == Some(1000u32)
        },
{
    RuntimeConfig {
        runtime_type: RuntimeType::Native,
        wasm: None,
        limits: Some(
            ResourceLimits {
                cpu: Some("1000m".to_string()),
                memory: Some("512Mi".to_string()),
                execution_time: Some("60s".to_string()),
                max_requests_per_minute: Some(1000),
            },
        ),
    }
}

/// The default MCP settings: all four capabilities
pub fn default_mcp_config() -> (r: McpConfig)
    ensures
        r.protocol_version@ == "2024-11-05"@,
        r.tools is None,
        r.prompts is None,
        r.resources is None,
        r.capabilities matches Some(McpCapabilities::List(caps)) && caps@.len() == 4 && caps@[0]@
            == "tools"@ && caps@[1]@ == "prompts"@ && caps@[2]@ == "resources"@ && caps@[3]@
            == "logging"@,
{
    let mut caps: Vec<String> = Vec::new();
    caps.push("tools".to_string());
    caps.push("prompts".to_string());
    caps.push("resources".to_string());
    caps.push("logging".to_string());
    McpConfig {
        protocol_version: "2024-11-05".to_string(),
        tools: None,
        prompts: None,
        resources: None,
        capabilities: Some(McpCapabilities::List(caps)),
    }
}

} // verus!
