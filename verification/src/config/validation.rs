use vstd::prelude::*;

use crate::config::error::{validation_error, ConfigError};
use crate::config::float_syntax::{float_text, is_float_text};
use crate::config::types::{
    Config, McpConfig, PromptConfig, ResourceConfig, ResourceLimits, RuntimeConfig, ServerConfig,
    TlsConfig, ToolConfig, TransportConfig, TransportSettings, TransportType,
};
use crate::policy::error::PolicyError;
use crate::policy::permissions::supported_policy_version;
use crate::text::{
    chars_of, concat_str, ends_with, has_prefix, has_suffix, in_list, list_contains, parse_u64,
    parse_u64_chars, spec_parse_u64, starts_with, str_eq, sub_vec,
};

verus! {

/// Whether `version` parses as a semantic version (`semver::Version::parse`).
pub uninterp spec fn semver_parses(version: Seq<char>) -> bool;

/// `semver::Version::parse`: whether the text is a semantic version. The contract names
/// the answer, and says that empty text is none (the parser's first test).
#[verifier::external_body]
fn semver_valid(version: &str) -> (r: bool)
    ensures
        r == semver_parses(version@),
        version@.len() == 0 ==> !r,
{
    semver::Version::parse(version).is_ok()
}

/// `Some(msg)` when the condition fails.
pub open spec fn unless(ok: bool, msg: Seq<char>) -> Option<Seq<char>> {
    if ok {
        None
    } else {
        Some(msg)
    }
}

/// The first of two problems.
pub open spec fn first_of(a: Option<Seq<char>>, b: Option<Seq<char>>) -> Option<Seq<char>> {
    if a is Some {
        a
    } else {
        b
    }
}

/// The problem with a configuration version, if any.
pub open spec fn version_problem(v: Seq<char>) -> Option<Seq<char>> {
    if v.len() == 0 {
        Some("Version cannot be empty"@)
    } else {
        unless(
            has_prefix(v, "1."@) || v == "1"@,
            "Unsupported configuration version: "@ + v,
        )
    }
}

/// A log level that servers know.
pub open spec fn known_log_level(l: Seq<char>) -> bool {
    l == "trace"@ || l == "debug"@ || l == "info"@ || l == "warn"@ || l == "error"@
}

/// Server settings are valid: a name, a semantic version, a port, a request timeout (if
/// any) above zero and a known log level (if any).
pub open spec fn server_ok(s: ServerConfig) -> bool {
    &&& s.name@.len() > 0
    &&& semver_parses(s.version@)
    &&& s.port != 0
    &&& s.request_timeout != Some(0u64)
    &&& (s.log_level matches Some(l) ==> known_log_level(l@))
}

/// The five standard log levels, and only they, are accepted: server settings that are
/// otherwise valid validate exactly when their log level (if any) is `trace`, `debug`,
/// `info`, `warn` or `error`.
pub proof fn lemma_log_levels(s: ServerConfig)
    requires
        s.name@.len() > 0,
        semver_parses(s.version@),
        s.port != 0,
        s.request_timeout != Some(0u64),
    ensures
        server_ok(s) <==> (s.log_level matches Some(l) ==> (l@ == "trace"@ || l@ == "debug"@
            || l@ == "info"@ || l@ == "warn"@ || l@ == "error"@)),
{
}

/// The problem with server settings, if any.
pub open spec fn server_problem(s: ServerConfig) -> Option<Seq<char>> {
    if s.name@.len() == 0 {
        Some("Server name cannot be empty"@)
    } else if s.version@.len() == 0 {
        Some("Server version cannot be empty"@)
    } else if !semver_parses(s.version@) {
        Some("Invalid server version format: "@ + s.version@)
    } else if s.port == 0 {
        Some("Server port cannot be 0"@)
    } else if s.request_timeout == Some(0u64) {
        Some("Request timeout cannot be 0"@)
    } else {
        match s.log_level {
            Some(l) => unless(known_log_level(l@), "Invalid log level: "@ + l@),
            None => None,
        }
    }
}

/// The name by which a transport type is shown.
pub open spec fn transport_type_name(t: TransportType) -> Seq<char> {
    match t {
        TransportType::Stdio => "Stdio"@,
        TransportType::Http => "Http"@,
        TransportType::WebSocket => "WebSocket"@,
        TransportType::Grpc => "Grpc"@,
    }
}

/// The settings are of the transport type's kind.
pub open spec fn settings_match(t: TransportType, s: TransportSettings) -> bool {
    match s {
        TransportSettings::Stdio(_) => t == TransportType::Stdio,
        TransportSettings::Http(_) => t == TransportType::Http,
        TransportSettings::WebSocket(_) => t == TransportType::WebSocket,
        TransportSettings::Grpc(_) => t == TransportType::Grpc,
    }
}

/// The problem with TLS settings, if any, given the paths that exist.
pub open spec fn tls_problem(tls: TlsConfig, existing: Seq<String>) -> Option<Seq<char>> {
    if !in_list(existing, tls.cert_file@) {
        Some("TLS certificate file not found: "@ + tls.cert_file@)
    } else if !in_list(existing, tls.key_file@) {
        Some("TLS key file not found: "@ + tls.key_file@)
    } else {
        match tls.ca_file {
            Some(ca) => unless(in_list(existing, ca@), "TLS CA file not found: "@ + ca@),
            None => None,
        }
    }
}

/// The problem with optional TLS settings, if any.
pub open spec fn opt_tls_problem(tls: Option<TlsConfig>, existing: Seq<String>) -> Option<Seq<char>> {
    match tls {
        Some(t) => tls_problem(t, existing),
        None => None,
    }
}

/// The problem with transport settings, if any.
pub open spec fn transport_problem(t: TransportConfig, existing: Seq<String>) -> Option<Seq<char>> {
    if !settings_match(t.transport_type, t.settings) {
        Some(
            "Transport settings do not match transport type: "@ + transport_type_name(
                t.transport_type,
            ),
        )
    } else {
        match t.settings {
            TransportSettings::Stdio(s) => unless(
                s.buffer_size != Some(0usize),
                "Stdio buffer size cannot be 0"@,
            ),
            TransportSettings::Http(h) => if h.max_body_size == Some(0usize) {
                Some("HTTP max body size cannot be 0"@)
            } else {
                opt_tls_problem(h.tls, existing)
            },
            TransportSettings::Grpc(g) => if g.max_message_size == Some(0usize) {
                Some("gRPC max message size cannot be 0"@)
            } else {
                opt_tls_problem(g.tls, existing)
            },
            TransportSettings::WebSocket(w) => if w.ping_interval == Some(0u64) {
                Some("WebSocket ping interval cannot be 0"@)
            } else {
                unless(w.max_frame_size != Some(0usize), "WebSocket max frame size cannot be 0"@)
            },
        }
    }
}

/// A CPU limit: `<n>m` millicores, or a number of cores.
pub open spec fn cpu_limit_ok(c: Seq<char>) -> bool {
    if has_suffix(c, "m"@) {
        spec_parse_u64(c.drop_last()) is Some
    } else {
        float_text(c)
    }
}

/// A memory limit: a value with a binary or decimal unit, or a number of bytes.
pub open spec fn memory_limit_ok(m: Seq<char>) -> bool {
    has_suffix(m, "Ki"@) || has_suffix(m, "Mi"@) || has_suffix(m, "Gi"@) || has_suffix(m, "K"@)
        || has_suffix(m, "M"@) || has_suffix(m, "G"@) || spec_parse_u64(m) is Some
}

/// A time limit: a value in milliseconds, seconds, minutes or hours.
pub open spec fn time_limit_ok(t: Seq<char>) -> bool {
    has_suffix(t, "ms"@) || has_suffix(t, "s"@) || has_suffix(t, "m"@) || has_suffix(t, "h"@)
}

/// The problem with resource limits, if any.
pub open spec fn limits_problem(l: ResourceLimits) -> Option<Seq<char>> {
    first_of(
        match l.cpu {
            Some(c) => unless(cpu_limit_ok(c@), "Invalid CPU limit format: "@ + c@),
            None => None,
        },
        first_of(
            match l.memory {
                Some(m) => unless(memory_limit_ok(m@), "Invalid memory limit format: "@ + m@),
                None => None,
            },
            match l.execution_time {
                Some(t) => unless(time_limit_ok(t@), "Invalid execution time format: "@ + t@),
                None => None,
            },
        ),
    )
}

/// The problem with runtime settings, if any.
pub open spec fn runtime_problem(r: RuntimeConfig, existing: Seq<String>) -> Option<Seq<char>> {
    first_of(
        match r.wasm {
            Some(w) => first_of(
                match w.module_file {
                    Some(p) => unless(in_list(existing, p@), "WASM module not found: "@ + p@),
                    None => None,
                },
                unless(w.memory_pages != Some(0u32), "WASM memory pages cannot be 0"@),
            ),
            None => None,
        },
        match r.limits {
            Some(l) => limits_problem(l),
            None => None,
        },
    )
}

/// The first problem with a list of tools: a missing name or description.
pub open spec fn tools_problem(s: Seq<ToolConfig>) -> Option<Seq<char>>
    decreases s.len(),
{
    if s.len() == 0 {
        None
    } else if s[0].name@.len() == 0 {
        Some("Tool name cannot be empty"@)
    } else if s[0].description@.len() == 0 {
        Some("Tool "@ + s[0].name@ + " must have a description"@)
    } else {
        tools_problem(s.drop_first())
    }
}

/// The first problem with a list of prompts: a missing name or description.
pub open spec fn prompts_problem(s: Seq<PromptConfig>) -> Option<Seq<char>>
    decreases s.len(),
{
    if s.len() == 0 {
        None
    } else if s[0].name@.len() == 0 {
        Some("Prompt name cannot be empty"@)
    } else if s[0].description@.len() == 0 {
        Some("Prompt "@ + s[0].name@ + " must have a description"@)
    } else {
        prompts_problem(s.drop_first())
    }
}

/// The first problem with a list of resources: a missing name or URI.
pub open spec fn resources_problem(s: Seq<ResourceConfig>) -> Option<Seq<char>>
    decreases s.len(),
{
    if s.len() == 0 {
        None
    } else if s[0].name@.len() == 0 {
        Some("Resource name cannot be empty"@)
    } else if s[0].uri@.len() == 0 {
        Some("Resource "@ + s[0].name@ + " must have a URI"@)
    } else {
        resources_problem(s.drop_first())
    }
}

/// The problem with MCP settings, if any.
pub open spec fn mcp_problem(m: McpConfig) -> Option<Seq<char>> {
    if m.protocol_version@.len() == 0 {
        Some("MCP protocol version cannot be empty"@)
    } else {
        first_of(
            match m.tools {
                Some(t) => tools_problem(t@),
                None => None,
            },
            first_of(
                match m.prompts {
                    Some(p) => prompts_problem(p@),
                    None => None,
                },
                match m.resources {
                    Some(r) => resources_problem(r@),
                    None => None,
                },
            ),
        )
    }
}

/// MCP settings are valid: a protocol version, and a name and a description for every
/// tool and prompt, a name and a URI for every resource.
pub open spec fn mcp_ok(m: McpConfig) -> bool {
    &&& m.protocol_version@.len() > 0
    &&& m.tools matches Some(t) ==> forall|i: int| 0 <= i < t@.len() ==> (#[trigger] t@[i]).name@.len()
        > 0 && t@[i].description@.len() > 0
    &&& m.prompts matches Some(p) ==> forall|i: int| 0 <= i < p@.len() ==> (#[trigger] p@[i]).name@.len()
        > 0 && p@[i].description@.len() > 0
    &&& m.resources matches Some(r) ==> forall|i: int| 0 <= i < r@.len() ==> (#[trigger] r@[i]).name@.len()
        > 0 && r@[i].uri@.len() > 0
}

proof fn lemma_tools_problem(s: Seq<ToolConfig>)
    ensures
        tools_problem(s) is None <==> forall|i: int| 0 <= i < s.len() ==> (#[trigger] s[i]).name@.len()
            > 0 && s[i].description@.len() > 0,
    decreases s.len(),
{
    if s.len() > 0 {
        lemma_tools_problem(s.drop_first());
        assert forall|i: int| 1 <= i < s.len() implies s[i] == s.drop_first()[i - 1] by {}
        if tools_problem(s) is None {
            assert forall|i: int| 0 <= i < s.len() implies (#[trigger] s[i]).name@.len() > 0
                && s[i].description@.len() > 0 by {
                if i > 0 {
                    assert(s.drop_first()[i - 1] == s[i]);
                }
            }
        }
    }
}

proof fn lemma_prompts_problem(s: Seq<PromptConfig>)
    ensures
        prompts_problem(s) is None <==> forall|i: int| 0 <= i < s.len() ==> (#[trigger] s[i]).name@.len()
            > 0 && s[i].description@.len() > 0,
    decreases s.len(),
{
    if s.len() > 0 {
        lemma_prompts_problem(s.drop_first());
        assert forall|i: int| 1 <= i < s.len() implies s[i] == s.drop_first()[i - 1] by {}
        if prompts_problem(s) is None {
            assert forall|i: int| 0 <= i < s.len() implies (#[trigger] s[i]).name@.len() > 0
                && s[i].description@.len() > 0 by {
                if i > 0 {
                    assert(s.drop_first()[i - 1] == s[i]);
                }
            }
        }
    }
}

proof fn lemma_resources_problem(s: Seq<ResourceConfig>)
    ensures
        resources_problem(s) is None <==> forall|i: int| 0 <= i < s.len() ==> (#[trigger] s[i]).name@.len()
            > 0 && s[i].uri@.len() > 0,
    decreases s.len(),
{
    if s.len() > 0 {
        lemma_resources_problem(s.drop_first());
        assert forall|i: int| 1 <= i < s.len() implies s[i] == s.drop_first()[i - 1] by {}
        if resources_problem(s) is None {
            assert forall|i: int| 0 <= i < s.len() implies (#[trigger] s[i]).name@.len() > 0
                && s[i].uri@.len() > 0 by {
                if i > 0 {
                    assert(s.drop_first()[i - 1] == s[i]);
                }
            }
        }
    }
}

/// MCP settings have no problem exactly when they are valid: every tool, prompt and
/// resource is complete and the protocol version is set.
pub proof fn lemma_mcp_problem_exactly(m: McpConfig)
    ensures
        mcp_problem(m) is None <==> mcp_ok(m),
{
    if let Some(t) = m.tools {
        lemma_tools_problem(t@);
    }
    if let Some(p) = m.prompts {
        lemma_prompts_problem(p@);
    }
    if let Some(r) = m.resources {
        lemma_resources_problem(r@);
    }
}

/// The first problem with a configuration's own sections, if any.
pub open spec fn config_problem(c: Config, existing: Seq<String>) -> Option<Seq<char>> {
    first_of(
        version_problem(c.version@),
        first_of(
            server_problem(c.server),
            first_of(
                transport_problem(c.transport, existing),
                first_of(runtime_problem(c.runtime, existing), mcp_problem(c.mcp)),
            ),
        ),
    )
}

/// The outcome of a check: `Ok` without a problem, else the validation error with its
/// message.
pub open spec fn reports(r: Result<(), ConfigError>, p: Option<Seq<char>>) -> bool {
    match p {
        None => r is Ok,
        Some(m) => r matches Err(e) && validation_error(e, m),
    }
}

fn fail(msg: String) -> (r: Result<(), ConfigError>)
    ensures
        reports(r, Some(msg@)),
{
    Err(ConfigError::ValidationError(msg))
}

/// Validate a configuration. `existing_paths` are the files that exist among those the
/// configuration names (see [`referenced_paths`]).
pub fn validate_config(config: &Config, existing_paths: &Vec<String>) -> (r: Result<(), ConfigError>)
    ensures
        match config_problem(*config, existing_paths@) {
            Some(m) => r matches Err(e) && validation_error(e, m),
            None => match config.policy {
                None => r is Ok,
                Some(p) => (r is Ok <==> supported_policy_version(p.version@)) && (r matches Err(e)
                    ==> e matches ConfigError::PolicyError(PolicyError::ValidationError(_))),
            },
        },
{
    validate_version(config.version.as_str())?;
    validate_server_config(&config.server)?;
    validate_transport_config(&config.transport, existing_paths)?;
    validate_runtime_config(&config.runtime, existing_paths)?;
    validate_mcp_config(&config.mcp)?;
    match &config.policy {
        Some(policy) => match policy.validate() {
            Ok(()) => Ok(()),
            Err(e) => Err(ConfigError::PolicyError(e)),
        },
        None => Ok(()),
    }
}

/// The TLS settings of transport settings, if they have any.
pub open spec fn settings_tls(s: TransportSettings) -> Option<TlsConfig> {
    match s {
        TransportSettings::Http(h) => h.tls,
        TransportSettings::Grpc(g) => g.tls,
        _ => None,
    }
}

/// The files that TLS settings name.
pub open spec fn tls_paths(t: Option<TlsConfig>) -> Seq<Seq<char>> {
    match t {
        Some(t) => seq![t.cert_file@, t.key_file@] + match t.ca_file {
            Some(ca) => seq![ca@],
            None => seq![],
        },
        None => seq![],
    }
}

/// The files that a configuration names: TLS files, then the WASM module.
pub open spec fn config_paths(c: Config) -> Seq<Seq<char>> {
    tls_paths(settings_tls(c.transport.settings)) + match c.runtime.wasm {
        Some(w) => match w.module_file {
            Some(p) => seq![p@],
            None => seq![],
        },
        None => seq![],
    }
}

/// The files that a configuration names and that validation needs to find: TLS files and
/// the WASM module.
pub fn referenced_paths(config: &Config) -> (r: Vec<String>)
    ensures
        r@.map_values(|s: String| s@) == config_paths(*config),
{
    let mut out: Vec<String> = Vec::new();
    let none: Option<TlsConfig> = None;
    let tls = match &config.transport.settings {
        TransportSettings::Http(h) => &h.tls,
        TransportSettings::Grpc(g) => &g.tls,
        _ => &none,
    };
    match tls {
        Some(t) => {
            out.push(t.cert_file.clone());
            out.push(t.key_file.clone());
            match &t.ca_file {
                Some(ca) => {
                    out.push(ca.clone());
                },
                None => {},
            }
        },
        None => {},
    }
    assert(out@.map_values(|s: String| s@) =~= tls_paths(settings_tls(config.transport.settings)));
    let ghost before = out@.map_values(|s: String| s@);
    match &config.runtime.wasm {
        Some(w) => match &w.module_file {
            Some(p) => {
                out.push(p.clone());
                assert(out@.map_values(|s: String| s@) =~= before + seq![p@]);
            },
            None => {
                assert(out@.map_values(|s: String| s@) =~= before + Seq::<Seq<char>>::empty());
            },
        },
        None => {
            assert(out@.map_values(|s: String| s@) =~= before + Seq::<Seq<char>>::empty());
        },
    }
    out
}

/// Validate the configuration version: `1` or `1.x`.
pub fn validate_version(version: &str) -> (r: Result<(), ConfigError>)
    ensures
        reports(r, version_problem(version@)),
{
    if version.is_empty() {
        return fail("Version cannot be empty".to_string());
    }
    if !starts_with(version, "1.") && !str_eq(version, "1") {
        return fail(concat_str("Unsupported configuration version: ", version));
    }
    Ok(())
}

fn is_known_log_level(l: &str) -> (r: bool)
    ensures
        r == known_log_level(l@),
{
    str_eq(l, "trace") || str_eq(l, "debug") || str_eq(l, "info") || str_eq(l, "warn") || str_eq(
        l,
        "error",
    )
}

/// Validate the server settings
pub fn validate_server_config(server: &ServerConfig) -> (r: Result<(), ConfigError>)
    ensures
        reports(r, server_problem(*server)),
        r is Ok <==> server_ok(*server),
{
    if server.name.as_str().is_empty() {
        return fail("Server name cannot be empty".to_string());
    }
    let version_ok = semver_valid(server.version.as_str());
    if server.version.as_str().is_empty() {
        return fail("Server version cannot be empty".to_string());
    }
    if !version_ok {
        return fail(concat_str("Invalid server version format: ", server.version.as_str()));
    }
    if server.port == 0 {
        return fail("Server port cannot be 0".to_string());
    }
    if let Some(timeout) = server.request_timeout {
        if timeout == 0 {
            return fail("Request timeout cannot be 0".to_string());
        }
    }
    if let Some(log_level) = &server.log_level {
        if !is_known_log_level(log_level.as_str()) {
            return fail(concat_str("Invalid log level: ", log_level.as_str()));
        }
    }
    Ok(())
}

fn transport_label(t: TransportType) -> (r: &'static str)
    ensures
        r@ == transport_type_name(t),
{
    match t {
        TransportType::Stdio => "Stdio",
        TransportType::Http => "Http",
        TransportType::WebSocket => "WebSocket",
        TransportType::Grpc => "Grpc",
    }
}

/// Validate transport settings: they are of the transport type's kind and their sizes
/// are not 0.
pub fn validate_transport_config(transport: &TransportConfig, existing_paths: &Vec<String>) -> (r: Result<
    (),
    ConfigError,
>)
    ensures
        reports(r, transport_problem(*transport, existing_paths@)),
{
    let matching = match &transport.settings {
        TransportSettings::Stdio(_) => transport.transport_type == TransportType::Stdio,
        TransportSettings::Http(_) => transport.transport_type == TransportType::Http,
        TransportSettings::WebSocket(_) => transport.transport_type == TransportType::WebSocket,
        TransportSettings::Grpc(_) => transport.transport_type == TransportType::Grpc,
    };
    if !matching {
        return fail(
            concat_str(
                "Transport settings do not match transport type: ",
                transport_label(transport.transport_type),
            ),
        );
    }
    match &transport.settings {
        TransportSettings::Stdio(stdio) => {
            if stdio.buffer_size == Some(0usize) {
                return fail("Stdio buffer size cannot be 0".to_string());
            }
        },
        TransportSettings::Http(http) => {
            if http.max_body_size == Some(0usize) {
                return fail("HTTP max body size cannot be 0".to_string());
            }
            if let Some(tls) = &http.tls {
                return validate_tls_config(tls, existing_paths);
            }
        },
        TransportSettings::Grpc(grpc) => {
            if grpc.max_message_size == Some(0usize) {
                return fail("gRPC max message size cannot be 0".to_string());
            }
            if let Some(tls) = &grpc.tls {
                return validate_tls_config(tls, existing_paths);
            }
        },
        TransportSettings::WebSocket(ws) => {
            if ws.ping_interval == Some(0u64) {
                return fail("WebSocket ping interval cannot be 0".to_string());
            }
            if ws.max_frame_size == Some(0usize) {
                return fail("WebSocket max frame size cannot be 0".to_string());
            }
        },
    }
    Ok(())
}

/// Validate TLS settings: the certificate, key and CA files exist.
pub fn validate_tls_config(tls: &TlsConfig, existing_paths: &Vec<String>) -> (r: Result<(), ConfigError>)
    ensures
        reports(r, tls_problem(*tls, existing_paths@)),
{
    if !list_contains(existing_paths, tls.cert_file.as_str()) {
        return fail(concat_str("TLS certificate file not found: ", tls.cert_file.as_str()));
    }
    if !list_contains(existing_paths, tls.key_file.as_str()) {
        return fail(concat_str("TLS key file not found: ", tls.key_file.as_str()));
    }
    if let Some(ca) = &tls.ca_file {
        if !list_contains(existing_paths, ca.as_str()) {
            return fail(concat_str("TLS CA file not found: ", ca.as_str()));
        }
    }
    Ok(())
}

/// Validate runtime settings: the WASM module exists, its memory is not 0 pages, and the
/// limits are well written.
pub fn validate_runtime_config(runtime: &RuntimeConfig, existing_paths: &Vec<String>) -> (r: Result<
    (),
    ConfigError,
>)
    ensures
        reports(r, runtime_problem(*runtime, existing_paths@)),
{
    if let Some(wasm) = &runtime.wasm {
        if let Some(module_file) = &wasm.module_file {
            if !list_contains(existing_paths, module_file.as_str()) {
                return fail(concat_str("WASM module not found: ", module_file.as_str()));
            }
        }
        if wasm.memory_pages == Some(0u32) {
            return fail("WASM memory pages cannot be 0".to_string());
        }
    }
    if let Some(limits) = &runtime.limits {
        return validate_resource_limits(limits);
    }
    Ok(())
}

/// Validate resource limits: CPU, memory and time are well written.
pub fn validate_resource_limits(limits: &ResourceLimits) -> (r: Result<(), ConfigError>)
    ensures
        reports(r, limits_problem(*limits)),
{
    if let Some(cpu) = &limits.cpu {
        if !is_valid_cpu_limit(cpu.as_str()) {
            return fail(concat_str("Invalid CPU limit format: ", cpu.as_str()));
        }
    }
    if let Some(memory) = &limits.memory {
        if !is_valid_memory_limit(memory.as_str()) {
            return fail(concat_str("Invalid memory limit format: ", memory.as_str()));
        }
    }
    if let Some(time) = &limits.execution_time {
        if !is_valid_time_limit(time.as_str()) {
            return fail(concat_str("Invalid execution time format: ", time.as_str()));
        }
    }
    Ok(())
}

#[verifier::loop_isolation(false)]
/// Validate MCP settings: a protocol version, and names and descriptions (or URIs) for
/// every tool, prompt and resource.
pub fn validate_mcp_config(mcp: &McpConfig) -> (r: Result<(), ConfigError>)
    ensures
        reports(r, mcp_problem(*mcp)),
        r is Ok <==> mcp_ok(*mcp),
{
    proof {
        lemma_mcp_problem_exactly(*mcp);
    }
    if mcp.protocol_version.as_str().is_empty() {
        return fail("MCP protocol version cannot be empty".to_string());
    }
    if let Some(tools) = &mcp.tools {
        let mut i: usize = 0;
        assert(tools@.skip(0) =~= tools@);
        while i < tools.len()
            invariant
                i <= tools.len(),
                tools_problem(tools@) == tools_problem(tools@.skip(i as int)),
            decreases tools.len() - i,
        {
            assert(tools@.skip(i as int).drop_first() =~= tools@.skip(i + 1));
            if tools[i].name.as_str().is_empty() {
                return fail("Tool name cannot be empty".to_string());
            }
            if tools[i].description.as_str().is_empty() {
                let head = concat_str("Tool ", tools[i].name.as_str());
                return fail(concat_str(head.as_str(), " must have a description"));
            }
            i = i + 1;
        }
    }
    if let Some(prompts) = &mcp.prompts {
        let mut i: usize = 0;
        assert(prompts@.skip(0) =~= prompts@);
        while i < prompts.len()
            invariant
                i <= prompts.len(),
                prompts_problem(prompts@) == prompts_problem(prompts@.skip(i as int)),
            decreases prompts.len() - i,
        {
            assert(prompts@.skip(i as int).drop_first() =~= prompts@.skip(i + 1));
            if prompts[i].name.as_str().is_empty() {
                return fail("Prompt name cannot be empty".to_string());
            }
            if prompts[i].description.as_str().is_empty() {
                let head = concat_str("Prompt ", prompts[i].name.as_str());
                return fail(concat_str(head.as_str(), " must have a description"));
            }
            i = i + 1;
        }
    }
    if let Some(resources) = &mcp.resources {
        let mut i: usize = 0;
        assert(resources@.skip(0) =~= resources@);
        while i < resources.len()
            invariant
                i <= resources.len(),
                resources_problem(resources@) == resources_problem(resources@.skip(i as int)),
            decreases resources.len() - i,
        {
            assert(resources@.skip(i as int).drop_first() =~= resources@.skip(i + 1));
            if resources[i].name.as_str().is_empty() {
                return fail("Resource name cannot be empty".to_string());
            }
            if resources[i].uri.as_str().is_empty() {
                let head = concat_str("Resource ", resources[i].name.as_str());
                return fail(concat_str(head.as_str(), " must have a URI"));
            }
            i = i + 1;
        }
    }
    Ok(())
}

/// A CPU limit is `<n>m` millicores or a number of cores.
pub fn is_valid_cpu_limit(cpu: &str) -> (r: bool)
    ensures
        r == cpu_limit_ok(cpu@),
{
    if ends_with(cpu, "m") {
        proof {
            reveal_strlit("m");
        }
        let c = chars_of(cpu);
        let head = sub_vec(&c, 0, c.len() - 1);
        assert(head@ =~= cpu@.drop_last());
        parse_u64_chars(&head).is_some()
    } else {
        is_float_text(cpu)
    }
}

/// A memory limit has a unit suffix or is a number of bytes.
pub fn is_valid_memory_limit(memory: &str) -> (r: bool)
    ensures
        r == memory_limit_ok(memory@),
{
    ends_with(memory, "Ki") || ends_with(memory, "Mi") || ends_with(memory, "Gi") || ends_with(
        memory,
        "K",
    ) || ends_with(memory, "M") || ends_with(memory, "G") || parse_u64(memory).is_some()
}

/// A time limit has a unit suffix.
pub fn is_valid_time_limit(time: &str) -> (r: bool)
    ensures
        r == time_limit_ok(time@),
{
    ends_with(time, "ms") || ends_with(time, "s") || ends_with(time, "m") || ends_with(time, "h")
}

} // verus!
