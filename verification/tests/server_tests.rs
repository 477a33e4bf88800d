use mcpkit_rs::config::defaults::default_config;
use mcpkit_rs::config::types::{ResourceLimits, RuntimeType, TransportType, WasmConfig};
use mcpkit_rs::policy::compiled::CompiledPolicy;
use mcpkit_rs::policy::permissions::{CorePermissions, Policy};
use mcpkit_rs::policy::yaml::YamlValue;
use mcpkit_rs::server::policy::{PolicyEnabledServer, ToolList};
use mcpkit_rs::server::settings::{
    duration_in_range, memory_size_in_range, parse_duration, parse_memory_limit, ServerConfig,
};
use mcpkit_rs::server::tasks::missing_task_methods;
use mcpkit_rs::wasm::context::{EnforcementMode, WasmContext};
use mcpkit_rs::wasm::execution::fuel_limit;
use mcpkit_rs::wasm::executor::{
    check_tool_policy, credential_env_name, credential_failure, execution_failure, input_failure,
    invalid_output, tool_context, tool_result, with_credential, ToolOutput, WasmToolExecutor,
};
use mcpkit_rs::wasm::manifest::{CredentialRequirement, CredentialType, EnvVar, WasmToolManifest};
use mcpkit_rs::wasm::WasmError;
use std::sync::Arc;

#[derive(Clone)]
struct SimpleServer;

fn tools_policy(allow: &[&str]) -> Policy {
    let items = allow.iter().map(|s| YamlValue::String(s.to_string())).collect();
    Policy {
        version: "1.0".to_string(),
        description: None,
        core: CorePermissions::default(),
        extensions: vec![(
            "tools".to_string(),
            YamlValue::Mapping(vec![
                (YamlValue::String("allow".to_string()), YamlValue::Sequence(items)),
                (YamlValue::String("deny".to_string()), YamlValue::Sequence(vec![])),
            ]),
        )],
    }
}

#[test]
fn test_policy_is_optional_feature() {
    let server = PolicyEnabledServer::new(SimpleServer);
    assert!(!server.has_policy()); // No policy by default
}

#[test]
fn test_policy_creation() {
    let policy = tools_policy(&["allowed_tool"]);
    let server = PolicyEnabledServer::with_policy(SimpleServer, policy, &None, None).unwrap();
    assert!(server.has_policy());
}

// ----- further cases -----

#[test]
fn vanilla_server_allows_everything() {
    let server = PolicyEnabledServer::new(SimpleServer);
    assert!(server.check_tool_call("dangerous_tool").is_ok());
    assert!(server.check_resource_read("file:///etc/passwd").is_ok());
    assert_eq!(
        server.visible_tools(&vec!["a".to_string(), "b".to_string()]),
        vec![true, true]
    );
}

#[test]
fn refused_calls_are_invalid_params() {
    let server = PolicyEnabledServer::with_policy(SimpleServer, tools_policy(&["read_file"]), &None, None)
        .unwrap();
    assert!(server.check_tool_call("read_file").is_ok());
    let err = server.check_tool_call("dangerous_tool").unwrap_err();
    assert_eq!(err.code, -32602);
    assert_eq!(err.message, "Access denied: tool for dangerous_tool");
    let err = server.check_resource_read("file:///etc/passwd").unwrap_err();
    assert_eq!(err.message, "Access denied: resource for file:///etc/passwd");
    assert_eq!(
        server.visible_tools(&vec!["read_file".to_string(), "other".to_string()]),
        vec![true, false]
    );
}

#[test]
fn bad_policy_fails_to_wrap() {
    let mut policy = tools_policy(&["x"]);
    policy.extensions[0].1 = YamlValue::String("bad".to_string());
    match PolicyEnabledServer::with_policy(SimpleServer, policy, &None, None) {
        Err(e) => {
            assert_eq!(e.code, -32603);
            assert!(e.message.starts_with("Failed to compile policy: "));
        }
        Ok(_) => panic!("expected a failure"),
    }
}

#[test]
fn compiled_policy_wrapper() {
    let compiled = CompiledPolicy::compile(&tools_policy(&["t"]), &None, None).unwrap();
    let mut server = PolicyEnabledServer::with_compiled_policy(SimpleServer, Arc::new(compiled));
    assert!(server.has_policy());
    let _inner: &SimpleServer = server.inner();
    let _inner_mut: &mut SimpleServer = server.inner_mut();
    assert!(server.check_tool_call("t").is_ok());
}

#[test]
fn server_config_accessors() {
    let mut config = default_config();
    config.server.bind = "0.0.0.0".to_string();
    config.server.port = 8080;
    config.server.debug = true;
    config.server.log_level = None;
    let sc = ServerConfig::from_config(config, &None, None).unwrap();
    assert_eq!(sc.bind_address(), "0.0.0.0:8080");
    assert!(sc.is_debug());
    assert_eq!(sc.log_level(), "info");
    assert_eq!(sc.transport_type(), TransportType::Stdio);
    assert_eq!(sc.runtime_type(), RuntimeType::Native);
    assert!(sc.is_tool_allowed("anything"));
    assert!(sc.is_network_allowed("example.com"));
    assert!(sc.is_storage_allowed("/tmp/x", "read"));
}

#[test]
fn server_config_with_policy() {
    let mut config = default_config();
    config.policy = Some(tools_policy(&["calc"]));
    let sc = ServerConfig::from_config(config, &None, None).unwrap();
    assert!(sc.compiled_policy.is_some());
    assert!(sc.is_tool_allowed("calc"));
    assert!(!sc.is_tool_allowed("rm"));
    assert!(!sc.is_network_allowed("example.com"));
}

#[test]
fn durations_and_sizes() {
    assert_eq!(parse_duration("250ms"), Some(250));
    assert_eq!(parse_duration("30s"), Some(30_000));
    assert_eq!(parse_duration("5m"), Some(300_000));
    assert_eq!(parse_duration("1h"), Some(3_600_000));
    assert_eq!(parse_duration("soon"), None);
    assert_eq!(parse_memory_limit("512Mi"), Some(512 * 1024 * 1024));
    assert_eq!(parse_memory_limit("2Gi"), Some(2 * 1024 * 1024 * 1024));
    assert_eq!(parse_memory_limit("100"), Some(100));
    assert_eq!(parse_memory_limit("lots"), None);
}

#[test]
fn wasm_context_from_config() {
    let mut config = default_config();
    config.runtime.limits = Some(ResourceLimits {
        cpu: None,
        memory: Some("64Mi".to_string()),
        execution_time: Some("2m".to_string()),
        max_requests_per_minute: None,
    });
    let sc = ServerConfig::from_config(config, &None, None).unwrap();
    assert!(sc.wasm_limits_in_range());
    assert!(sc.wasm_env_keys().is_empty());
    let env = vec![("A".to_string(), "1".to_string()), ("A".to_string(), "2".to_string())];
    let ctx = sc.create_wasm_context(&env);
    assert_eq!(ctx.timeout_ms, 120_000);
    assert_eq!(ctx.max_memory_bytes, 64 * 1024 * 1024);
    assert_eq!(ctx.max_fuel, None);
    assert_eq!(ctx.env_vars, vec![("A".to_string(), "2".to_string())]);

    let mut config = default_config();
    config.runtime.wasm = Some(WasmConfig {
        module_file: None,
        fuel: Some(1000),
        memory_pages: Some(2),
        cache: None,
        cache_dir: None,
    });
    let sc = ServerConfig::from_config(config, &None, None).unwrap();
    let ctx = sc.create_wasm_context(&Vec::new());
    assert_eq!(ctx.max_fuel, Some(1000));
    assert_eq!(ctx.max_memory_bytes, 2 * 65536);
    assert_eq!(ctx.timeout_ms, 60_000);

    let mut config = default_config();
    config.runtime.limits = None;
    let sc = ServerConfig::from_config(config, &None, None).unwrap();
    let ctx = sc.create_wasm_context(&Vec::new());
    assert_eq!(ctx.timeout_ms, 30_000);
    assert_eq!(ctx.max_memory_bytes, 50 * 1024 * 1024);
}

#[test]
fn wasm_limits_range_checks() {
    assert!(duration_in_range("5m"));
    assert!(!duration_in_range("18446744073709551615h"));
    assert!(duration_in_range("18446744073709551615s"));
    assert!(memory_size_in_range("512Mi"));
    assert!(!memory_size_in_range("18446744073709551615Gi"));
}

fn tool_manifest() -> WasmToolManifest {
    WasmToolManifest {
        name: "calc".to_string(),
        version: "1.0.0".to_string(),
        description: None,
        wasm_module: "calc.wasm".to_string(),
        credentials: vec![CredentialRequirement {
            name: "github-token".to_string(),
            credential_type: CredentialType::BearerToken,
            required: true,
            env_var: Some("GH".to_string()),
            description: None,
        }],
        input_schema: "{}".to_string(),
        output_schema: None,
        timeout_seconds: 5,
        max_memory_bytes: 1024,
        max_fuel: Some(77),
        env_vars: vec![
            EnvVar { name: "MODE".to_string(), value: "fast".to_string() },
            EnvVar { name: "MODE".to_string(), value: "slow".to_string() },
        ],
    }
}

#[test]
fn executor_policy_gate() {
    assert!(check_tool_policy(None, "anything").is_ok());
    let mut config = default_config();
    config.policy = Some(tools_policy(&["calc"]));
    let sc = ServerConfig::from_config(config, &None, None).unwrap();
    assert!(check_tool_policy(Some(&sc), "calc").is_ok());
    let err = check_tool_policy(Some(&sc), "rm").unwrap_err();
    assert_eq!(err.code, -32600);
    assert_eq!(err.message, "Tool 'rm' is not allowed by policy");
    assert_eq!(err.data, None);
}

#[test]
fn executor_tool_context() {
    let manifest = tool_manifest();
    let ctx = tool_context(None, &vec![("HOME".to_string(), "/root".to_string())], &manifest, b"{}".to_vec());
    assert_eq!(ctx.stdin, b"{}".to_vec());
    assert_eq!(ctx.timeout_ms, 5000);
    assert_eq!(ctx.max_fuel, Some(77));
    assert_eq!(ctx.max_memory_bytes, 50 * 1024 * 1024);
    assert_eq!(ctx.env_vars, vec![("MODE".to_string(), "slow".to_string())]);
    assert!(ctx.metering.is_some());

    let mut config = default_config();
    config.runtime.limits = Some(ResourceLimits {
        cpu: None,
        memory: Some("64Mi".to_string()),
        execution_time: Some("2m".to_string()),
        max_requests_per_minute: None,
    });
    let sc = ServerConfig::from_config(config, &None, None).unwrap();
    assert!(sc.wasm_limits_in_range());
    let mut manifest = tool_manifest();
    manifest.max_fuel = None;
    let env = vec![("HOME".to_string(), "/root".to_string()), ("MODE".to_string(), "env".to_string())];
    let ctx = tool_context(Some(&sc), &env, &manifest, Vec::new());
    assert_eq!(ctx.timeout_ms, 5000);
    assert_eq!(ctx.max_fuel, None);
    assert_eq!(ctx.max_memory_bytes, 64 * 1024 * 1024);
    let home = ctx.env_vars.iter().find(|(k, _)| k == "HOME").map(|(_, v)| v.clone());
    let mode = ctx.env_vars.iter().find(|(k, _)| k == "MODE").map(|(_, v)| v.clone());
    assert_eq!(home, Some("/root".to_string()));
    assert_eq!(mode, Some("slow".to_string()));
}

#[test]
fn executor_credentials() {
    let manifest = tool_manifest();
    assert_eq!(credential_env_name(&manifest, "github-token"), "GH");
    assert_eq!(credential_env_name(&manifest, "api-key"), "API_KEY");

    let ctx = with_credential(
        WasmContext::new(),
        "DB".to_string(),
        "secret".to_string(),
        &vec![("DB_USER".to_string(), "u".to_string()), ("DB".to_string(), "other".to_string())],
    );
    let db = ctx.env_vars.iter().find(|(k, _)| k == "DB").map(|(_, v)| v.clone());
    let user = ctx.env_vars.iter().find(|(k, _)| k == "DB_USER").map(|(_, v)| v.clone());
    assert_eq!(db, Some("other".to_string()));
    assert_eq!(user, Some("u".to_string()));
    assert_eq!(ctx.timeout_ms, 30_000);

    let req = &manifest.credentials[0];
    let err = credential_failure(req, "no such secret").unwrap();
    assert_eq!(err.code, -32603);
    assert_eq!(err.message, "Failed to resolve required credential 'github-token': no such secret");
    let mut optional = req.clone();
    optional.required = false;
    assert!(credential_failure(&optional, "no such secret").is_none());
}

#[test]
fn executor_failures() {
    let err = execution_failure("calc", &WasmError::Timeout);
    assert_eq!(err.code, -32603);
    assert_eq!(err.message, "Tool 'calc' execution timeout");
    let err = execution_failure("calc", &WasmError::RuntimeError("trap".to_string()));
    assert_eq!(err.message, "Tool 'calc' execution failed: Runtime error: trap");
    let err = invalid_output("calc", "expected value");
    assert_eq!(err.code, -32603);
    assert_eq!(err.message, "Tool 'calc' produced invalid JSON output: expected value");
    let err = input_failure("bad");
    assert_eq!(err.code, -32602);
    assert_eq!(err.message, "Failed to serialize input: bad");
}

#[test]
fn wasm_error_answers() {
    assert_eq!(WasmError::LoadError("x".to_string()).message(), "Failed to load WASM module: x");
    assert_eq!(WasmError::Timeout.message(), "Tool execution timeout");
    assert_eq!(WasmError::InvalidOutput("y".to_string()).message(), "Invalid output from WASM tool: y");
    let d = WasmError::ToolNotFound("nonexistent".to_string()).into_error_data();
    assert_eq!(d.code, -32600);
    assert!(d.message.contains("not found"));
    assert_eq!(d.message, "WASM tool not found: nonexistent");
    let d = WasmError::Timeout.into_error_data();
    assert_eq!((d.code, d.message.as_str()), (-32603, "WASM tool execution timeout"));
    let d = WasmError::ManifestError("bad".to_string()).into_error_data();
    assert_eq!((d.code, d.message.as_str()), (-32603, "Invalid manifest: bad"));
}

#[test]
fn executor_results() {
    let r = tool_result(ToolOutput::Object {
        error: Some("boom".to_string()),
        content: Some("\"x\"".to_string()),
        text: "{}".to_string(),
    });
    assert_eq!(r.content, vec!["boom".to_string()]);
    assert_eq!(r.is_error, Some(true));
    let r = tool_result(ToolOutput::Object {
        error: None,
        content: Some("[1,2]".to_string()),
        text: "{\"content\":[1,2]}".to_string(),
    });
    assert_eq!(r.content, vec!["[1,2]".to_string()]);
    assert_eq!(r.is_error, Some(false));
    let r = tool_result(ToolOutput::Object { error: None, content: None, text: "{\"a\":1}".to_string() });
    assert_eq!(r.content, vec!["{\"a\":1}".to_string()]);
    let r = tool_result(ToolOutput::Other { text: "42".to_string() });
    assert_eq!(r.content, vec!["42".to_string()]);
    assert_eq!(r.is_error, Some(false));
}

#[test]
fn test_executor_has_tool() {
    let executor = WasmToolExecutor::new(Vec::new());

    assert!(!executor.has_tool("test"));
    assert_eq!(executor.list_tools().len(), 0);
}

#[test]
fn test_executor_tool_not_found() {
    let executor = WasmToolExecutor::new(Vec::new());

    let result = executor.prepare("nonexistent", b"{}".to_vec(), &Vec::new());

    assert!(result.is_err());
    let err = result.err().unwrap();
    assert!(err.message.contains("not found"));
}

#[test]
fn executor_prepare() {
    let executor = WasmToolExecutor::new(vec![tool_manifest()]);
    assert!(executor.has_tool("calc"));
    assert_eq!(executor.list_tools(), vec!["calc".to_string()]);
    let ctx = executor.prepare("calc", b"{\"x\":1}".to_vec(), &Vec::new()).unwrap();
    assert_eq!(ctx.stdin, b"{\"x\":1}".to_vec());
    assert_eq!(ctx.timeout_ms, 5000);
    assert_eq!(ctx.max_fuel, Some(77));

    let mut config = default_config();
    config.policy = Some(tools_policy(&["other"]));
    let sc = Arc::new(ServerConfig::from_config(config, &None, None).unwrap());
    assert!(sc.wasm_limits_in_range());
    let executor = WasmToolExecutor::with_config(vec![tool_manifest()], sc);
    let err = executor.prepare("calc", Vec::new(), &Vec::new()).err().unwrap();
    assert_eq!(err.message, "Tool 'calc' is not allowed by policy");
    let err = executor.prepare("other", Vec::new(), &Vec::new()).err().unwrap();
    assert_eq!(err.code, -32600);
    assert_eq!(err.message, "WASM tool not found: other");
}

#[test]
fn task_handler_adds_missing_methods() {
    let existing = vec!["list_tasks".to_string(), "cancel_task".to_string(), "other".to_string()];
    assert_eq!(
        missing_task_methods(&existing),
        vec!["enqueue_task".to_string(), "get_task_info".to_string(), "get_task_result".to_string()]
    );
    assert_eq!(missing_task_methods(&Vec::new()).len(), 5);
}

#[test]
fn tool_runs_are_bounded_by_fuel() {
    let manifest = tool_manifest();
    let ctx = tool_context(None, &Vec::new(), &manifest, Vec::new());
    let m = ctx.metering.unwrap();
    assert!(m.enabled);
    assert_eq!(m.enforcement, EnforcementMode::Strict);
    assert_eq!(fuel_limit(&ctx), 77);
    let mut unlimited = tool_manifest();
    unlimited.max_fuel = None;
    let ctx = tool_context(None, &Vec::new(), &unlimited, Vec::new());
    assert_eq!(fuel_limit(&ctx), (50 * 1024 * 1024 / 1024) * 100);
}

#[test]
fn refused_tool_needs_no_limits_in_range() {
    let mut config = default_config();
    config.policy = Some(tools_policy(&["other"]));
    config.runtime.limits = Some(ResourceLimits {
        cpu: None,
        memory: None,
        execution_time: Some("99999999999999999999h".to_string()),
        max_requests_per_minute: None,
    });
    let sc = Arc::new(ServerConfig::from_config(config, &None, None).unwrap());
    let executor = WasmToolExecutor::with_config(vec![tool_manifest()], sc);
    let err = executor.prepare("calc", Vec::new(), &Vec::new()).err().unwrap();
    assert_eq!(err.message, "Tool 'calc' is not allowed by policy");
}

#[test]
fn policy_server_lists_and_calls_tools() {
    let server = PolicyEnabledServer::with_policy(SimpleServer, tools_policy(&["read_file"]), &None, None)
        .unwrap_or_else(|_| panic!("policy compiles"));
    let listed = ToolList {
        tools: vec!["read_file".to_string(), "write_file".to_string(), "dangerous_tool".to_string()],
        next_cursor: Some("page2".to_string()),
    };
    let shown = server.list_tools(listed);
    assert_eq!(shown.tools, vec!["read_file".to_string()]);
    assert_eq!(shown.next_cursor, Some("page2".to_string()));

    let mut called = false;
    let r = server.call_tool("write_file", || {
        called = true;
        Ok(1)
    });
    let err = r.err().unwrap();
    assert_eq!(err.code, -32602);
    assert_eq!(err.message, "Access denied: tool for write_file");
    assert!(!called);
    assert_eq!(server.call_tool("read_file", || Ok::<i32, mcpkit_rs::server::policy::ErrorData>(7)).ok(), Some(7));

    let open = PolicyEnabledServer::new(SimpleServer);
    let all = open.list_tools(ToolList { tools: vec!["a".to_string(), "b".to_string()], next_cursor: None });
    assert_eq!(all.tools, vec!["a".to_string(), "b".to_string()]);
}
