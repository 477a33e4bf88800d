use mcpkit_rs::policy::cache::{check_with_cache, clear_cache, AccessMode, ActionHash, PermissionCache};
use mcpkit_rs::policy::compiled::{limits_in_range, CompiledPolicy};
use mcpkit_rs::policy::core_defs::{CapabilityFlags, Permission, Violation, ViolationLog};
use mcpkit_rs::policy::globs::{build_globset, glob_is_match};
use mcpkit_rs::policy::error::PolicyError;
use mcpkit_rs::policy::glob::glob_match;
use mcpkit_rs::policy::limits::{
    memory_limit_fits, parse_cpu_limit, parse_memory_limit, parse_time_limit, time_limit_fits,
};
use mcpkit_rs::policy::mcp::{
    McpAction, McpActionType, McpExtension, McpPermissions, PromptPermissions, PromptRule,
    ResourcePermissions, ResourceRule, ToolPermissions, ToolRule,
};
use mcpkit_rs::policy::path_trie::PathTrie;
use mcpkit_rs::policy::permissions::{
    CorePermissions, EnvironmentPermissions, EnvironmentRule, NetworkPermissions, NetworkRule,
    Policy, ResourceLimitValues, ResourceLimits, StoragePermissions, StorageRule,
};
use mcpkit_rs::policy::runtime::{PolicyEnforcedRuntime, RuntimeBackend};
use mcpkit_rs::policy::tool_lists::parse_simple_tool_policy;
use mcpkit_rs::policy::yaml::{YamlNumber, YamlValue};
use std::sync::Arc;

fn empty_policy(version: &str) -> Policy {
    Policy {
        version: version.to_string(),
        description: None,
        core: CorePermissions::default(),
        extensions: Vec::new(),
    }
}

fn ystr(s: &str) -> YamlValue {
    YamlValue::String(s.to_string())
}

fn yseq(items: &[&str]) -> YamlValue {
    YamlValue::Sequence(items.iter().map(|s| ystr(s)).collect())
}

fn tools_section(allow: &[&str], deny: &[&str]) -> YamlValue {
    YamlValue::Mapping(vec![(ystr("allow"), yseq(allow)), (ystr("deny"), yseq(deny))])
}

fn host(h: &str) -> NetworkRule {
    NetworkRule::Host { host: h.to_string() }
}

fn tool_rule(name: &str) -> ToolRule {
    ToolRule { name: name.to_string(), max_calls_per_minute: None, parameters: None }
}

fn limits_policy(cpu: Option<&str>, memory: Option<&str>, time: Option<&str>) -> Policy {
    let mut p = empty_policy("1.0");
    p.core.resources = Some(ResourceLimits {
        limits: ResourceLimitValues {
            cpu: cpu.map(|s| s.to_string()),
            memory: memory.map(|s| s.to_string()),
            execution_time: time.map(|s| s.to_string()),
            fuel: None,
            memory_limit: None,
        },
    });
    p
}

#[test]
fn test_policy_validation() {
    let mut policy = empty_policy("");
    assert!(policy.validate().is_err());

    policy.version = "1.0".to_string();
    assert!(policy.validate().is_ok());

    policy.version = "2.0".to_string();
    assert!(policy.validate().is_err());
}

#[test]
fn test_compiled_policy_tool_check() {
    let policy = empty_policy("1.0");
    let compiled = CompiledPolicy::compile(&policy, &None, None).unwrap();

    // With empty policy, nothing should be allowed
    assert!(!compiled.is_tool_allowed("calculator"));
}

#[test]
fn test_top_level_tools_shorthand() {
    let mut policy = empty_policy("1.0");
    policy
        .extensions
        .push(("tools".to_string(), tools_section(&["fetch_todos", "search_*"], &["search_todos"])));
    let compiled = CompiledPolicy::compile(&policy, &None, None).unwrap();

    assert!(compiled.is_tool_allowed("fetch_todos"));
    assert!(compiled.is_tool_allowed("search_items"));
    assert!(!compiled.is_tool_allowed("search_todos"));
    assert!(!compiled.is_tool_allowed("unknown_tool"));
}

#[test]
fn test_compiled_policy_network_check() {
    let mut policy = empty_policy("1.0");
    policy.core.network = Some(NetworkPermissions {
        allow: vec![host("api.example.com"), host("*.internal.com")],
        deny: vec![host("malicious.com")],
    });

    let compiled = CompiledPolicy::compile(&policy, &None, None).unwrap();

    assert!(compiled.is_network_allowed("api.example.com"));
    assert!(compiled.is_network_allowed("test.internal.com"));
    assert!(!compiled.is_network_allowed("malicious.com"));
    assert!(!compiled.is_network_allowed("unknown.com"));
}

#[test]
fn test_compiled_policy_storage_check() {
    let mut policy = empty_policy("1.0");
    policy.core.storage = Some(StoragePermissions {
        allow: vec![
            StorageRule {
                uri: "fs:///tmp/**".to_string(),
                access: vec!["read".to_string(), "write".to_string()],
            },
            StorageRule { uri: "fs:///config/*.json".to_string(), access: vec!["read".to_string()] },
        ],
        deny: vec![StorageRule { uri: "fs:///etc/**".to_string(), access: vec!["write".to_string()] }],
    });

    let compiled = CompiledPolicy::compile(&policy, &None, None).unwrap();

    assert!(compiled.is_storage_allowed("/tmp/test.txt", "read"));
    assert!(compiled.is_storage_allowed("/tmp/test.txt", "write"));
    assert!(compiled.is_storage_allowed("/config/app.json", "read"));
    assert!(!compiled.is_storage_allowed("/config/app.json", "write"));
    assert!(!compiled.is_storage_allowed("/etc/passwd", "write"));
}

#[test]
fn test_policy_merge() {
    let mut policy1 = empty_policy("1.0");
    policy1.description = Some("Policy 1".to_string());
    policy1.core.network = Some(NetworkPermissions { allow: vec![host("api1.com")], deny: vec![] });

    let mut policy2 = empty_policy("1.0");
    policy2.description = Some("Policy 2".to_string());
    policy2.core.network = Some(NetworkPermissions { allow: vec![host("api2.com")], deny: vec![] });

    policy1.merge(policy2).unwrap();

    let network = policy1.core.network.unwrap();
    assert_eq!(network.allow.len(), 2);
}

#[test]
fn test_mcp_extension() {
    let permission = McpPermissions {
        tools: Some(ToolPermissions {
            allow: vec![ToolRule {
                name: "calculator/*".to_string(),
                max_calls_per_minute: Some(100),
                parameters: None,
            }],
            deny: vec![tool_rule("system_*")],
        }),
        prompts: None,
        resources: None,
        transport: None,
    };
    let ext = McpExtension;
    assert!(ext.validate(&permission).is_ok());
    assert_eq!(ext.id(), "mcp");
    let runtime = ext.to_runtime_config(&permission);
    assert_eq!(runtime.runtime, "mcp");
    assert!(runtime.flags.can_execute_tools && runtime.flags.can_access_resources);
    assert!(!runtime.flags.can_access_network && !runtime.flags.can_access_filesystem);
    assert!(!runtime.flags.can_read_environment);
    assert_eq!(runtime.flags.custom_flags, 0);

    let action = McpAction {
        action_type: McpActionType::ToolExecute,
        resource: "calculator/add".to_string(),
        context: None,
    };
    assert!(permission.is_allowed(&action));

    let denied_action = McpAction {
        action_type: McpActionType::ToolExecute,
        resource: "system_exec".to_string(),
        context: None,
    };
    assert!(!permission.is_allowed(&denied_action));
}

#[test]
fn test_resource_limits_parsing() {
    let policy = limits_policy(Some("500m"), Some("512Mi"), Some("30s"));
    let compiled = CompiledPolicy::compile(&policy, &None, None).unwrap();

    assert_eq!(compiled.resource_limits.cpu_millicores, Some(500));
    assert_eq!(compiled.resource_limits.memory_bytes, Some(512 * 1024 * 1024));
    assert_eq!(compiled.resource_limits.execution_time_ms, Some(30000));
}

#[test]
fn test_capability_flags() {
    let flags1 = CapabilityFlags {
        can_execute_tools: true,
        can_access_network: true,
        can_access_filesystem: false,
        can_read_environment: false,
        can_access_resources: false,
        custom_flags: 0b0101,
    };

    let flags2 = CapabilityFlags {
        can_execute_tools: true,
        can_access_network: false,
        can_access_filesystem: false,
        can_read_environment: false,
        can_access_resources: false,
        custom_flags: 0b0001,
    };

    assert!(flags1.has_all(flags2));
    assert!(flags1.has_any(flags2));

    let flags3 = CapabilityFlags {
        can_execute_tools: false,
        can_access_network: false,
        can_access_filesystem: true,
        can_read_environment: false,
        can_access_resources: false,
        custom_flags: 0,
    };

    assert!(!flags1.has_all(flags3));
    assert!(!flags1.has_any(flags3));
}

#[test]
fn test_cache_functionality() {
    let mut cache = PermissionCache::new(10);

    let action = ActionHash::Tool("calculator".to_string());
    assert!(cache.check(&action).is_none());

    cache.insert(action.clone(), true);
    assert_eq!(cache.check(&action), Some(true));

    // Test specialized caches
    assert_eq!(cache.check_tool("calculator"), Some(true));
    assert!(cache.check_tool("unknown").is_none());

    cache.insert(ActionHash::Network("api.example.com".to_string()), true);
    assert_eq!(cache.check_network("api.example.com"), Some(true));

    let stats = cache.stats();
    assert_eq!(stats.hits, 3); // We have 3 cache hits total
    assert!(stats.misses > 0);
}

#[test]
fn test_glob_matching() {
    assert!(glob_match("*", "anything"));
    assert!(glob_match("calculator/*", "calculator/add"));
    assert!(glob_match("*.json", "config.json"));
    assert!(glob_match("*/test/*", "foo/test/bar"));
    assert!(!glob_match("calculator/*", "system/exec"));
    assert!(!glob_match("*.json", "config.yaml"));
}

// ----- further cases -----

#[test]
fn compiled_denied_tool_wins_over_allowed_name() {
    let mut policy = empty_policy("1.0");
    policy.extensions.push(("tools".to_string(), tools_section(&["calc"], &["calc"])));
    let compiled = CompiledPolicy::compile(&policy, &None, None).unwrap();
    assert!(!compiled.is_tool_allowed("calc"));
}

#[test]
fn compiled_mcp_tools_allowed_and_denied() {
    let mcp = McpPermissions {
        tools: Some(ToolPermissions {
            allow: vec![tool_rule("calculator"), tool_rule("math_*")],
            deny: vec![tool_rule("math_div")],
        }),
        prompts: None,
        resources: None,
        transport: None,
    };
    let policy = empty_policy("1.0");
    let compiled = CompiledPolicy::compile(&policy, &Some(mcp), None).unwrap();
    assert!(compiled.is_tool_allowed("calculator"));
    assert!(compiled.is_tool_allowed("math_add"));
    assert!(!compiled.is_tool_allowed("math_div"));
    assert!(!compiled.is_tool_allowed("other"));
    assert!(compiled.capabilities.can_execute_tools);
}

#[test]
fn compiled_capabilities_follow_sections() {
    let mut policy = empty_policy("1.0");
    policy.core.environment = Some(EnvironmentPermissions {
        allow: vec![EnvironmentRule { key: "HOME".to_string() }],
        deny: vec![EnvironmentRule { key: "SECRET".to_string() }],
    });
    let compiled = CompiledPolicy::compile(&policy, &None, None).unwrap();
    assert!(compiled.capabilities.can_read_environment);
    assert!(!compiled.capabilities.can_access_network);
    assert!(!compiled.capabilities.can_access_filesystem);
    assert!(!compiled.capabilities.can_execute_tools);
    assert!(compiled.is_env_allowed("HOME"));
    assert!(!compiled.is_env_allowed("SECRET"));
    assert!(!compiled.is_env_allowed("PATH"));
}

#[test]
fn compiled_cores_value_used_for_plain_cpu() {
    let policy = limits_policy(Some("2"), None, None);
    let compiled = CompiledPolicy::compile(&policy, &None, Some(2000)).unwrap();
    assert_eq!(compiled.resource_limits.cpu_millicores, Some(2000));
    match CompiledPolicy::compile(&policy, &None, None) {
        Err(PolicyError::ParseError(m)) => assert_eq!(m, "Invalid CPU limit: 2"),
        other => panic!("unexpected {:?}", other.is_ok()),
    }
}

#[test]
fn compiled_bad_memory_limit_is_parse_error() {
    let policy = limits_policy(None, Some("12Xi"), None);
    match CompiledPolicy::compile(&policy, &None, None) {
        Err(PolicyError::ParseError(m)) => assert_eq!(m, "Invalid memory limit: 12Xi"),
        _ => panic!("expected a parse error"),
    }
}

#[test]
fn compiled_invalid_tools_section_is_format_error() {
    let mut policy = empty_policy("1.0");
    policy.extensions.push(("tools".to_string(), ystr("everything")));
    match CompiledPolicy::compile(&policy, &None, None) {
        Err(PolicyError::InvalidFormat(_)) => {}
        _ => panic!("expected an invalid format error"),
    }
}

#[test]
fn compiled_invalid_glob_is_glob_error() {
    let mut policy = empty_policy("1.0");
    policy.core.network = Some(NetworkPermissions { allow: vec![host("a[*.com")], deny: vec![] });
    match CompiledPolicy::compile(&policy, &None, None) {
        Err(PolicyError::GlobError(_)) => {}
        _ => panic!("expected a glob error"),
    }
}

#[test]
fn limit_parsers_exact_values() {
    assert_eq!(parse_cpu_limit("250m", None).unwrap(), 250);
    assert_eq!(parse_cpu_limit("1", Some(1000)).unwrap(), 1000);
    assert!(parse_cpu_limit("x", None).is_err());
    assert_eq!(parse_memory_limit("1Ki").unwrap(), 1024);
    assert_eq!(parse_memory_limit("2Gi").unwrap(), 2 * 1024 * 1024 * 1024);
    assert!(parse_memory_limit("2GB").is_err());
    assert_eq!(parse_time_limit("1500ms").unwrap(), 1500);
    assert_eq!(parse_time_limit("2s").unwrap(), 2000);
    assert_eq!(parse_time_limit("3m").unwrap(), 180000);
    assert!(parse_time_limit("1h").is_err());
    assert!(parse_time_limit("xs").is_err());
}

#[test]
fn simple_tool_policy_reads_lists() {
    let v = tools_section(&["a", "b*"], &["c"]);
    let (allow, deny) = parse_simple_tool_policy(&v).unwrap();
    assert_eq!(allow, vec!["a".to_string(), "b*".to_string()]);
    assert_eq!(deny, vec!["c".to_string()]);
    let bad = YamlValue::Mapping(vec![(ystr("allow"), YamlValue::Number(YamlNumber::PosInt(3)))]);
    assert!(parse_simple_tool_policy(&bad).is_err());
}

#[test]
fn policy_extension_last_entry_wins() {
    let mut policy = empty_policy("1.0");
    policy.extensions.push(("x".to_string(), ystr("first")));
    policy.extensions.push(("x".to_string(), ystr("second")));
    assert_eq!(policy.extension("x").unwrap().as_str(), Some("second"));
    assert!(policy.extension("y").is_none());
}

#[test]
fn path_trie_deny_wins_and_unknown_is_none() {
    let mut trie = PathTrie::new();
    trie.insert("/data", true, false);
    trie.insert("/data/secret", false, true);
    assert_eq!(trie.check("/data"), Some(true));
    assert_eq!(trie.check("data/"), Some(true));
    assert_eq!(trie.check("/data/secret"), Some(false));
    trie.insert("/data/secret", true, false);
    assert_eq!(trie.check("/data/secret"), Some(false));
    assert_eq!(trie.check("/data/file"), None);
    assert_eq!(trie.check("/other"), None);
}

#[test]
fn runtime_checks_report_denials() {
    let mut policy = empty_policy("1.0");
    policy.extensions.push(("tools".to_string(), tools_section(&["ok"], &[])));
    let compiled = CompiledPolicy::compile(&policy, &None, None).unwrap();
    let rt = PolicyEnforcedRuntime { policy: Arc::new(compiled), backend: RuntimeBackend::Wasmtime };
    assert!(rt.check_tool_permission("ok").is_ok());
    match rt.check_tool_permission("no") {
        Err(PolicyError::PermissionDenied { action, resource }) => {
            assert_eq!(action, "tool_execute");
            assert_eq!(resource, "no");
        }
        _ => panic!("expected a denial"),
    }
    assert!(rt.check_network_permission("x.com").is_err());
    assert!(rt.check_env_permission("HOME").is_err());
    assert!(rt.check_storage_permission("/tmp/a", "read").is_err());
}

#[test]
fn mcp_prompts_and_resources() {
    let permission = McpPermissions {
        tools: None,
        prompts: Some(PromptPermissions {
            allow: vec![PromptRule { name: "greet".to_string(), max_length: None }],
            deny: vec![],
        }),
        resources: Some(ResourcePermissions {
            allow: vec![ResourceRule {
                uri: "file:///docs/*".to_string(),
                operations: vec!["read".to_string()],
            }],
            deny: vec![],
        }),
        transport: None,
    };
    assert!(permission.is_prompt_allowed("greet"));
    assert!(!permission.is_prompt_allowed("other"));
    assert!(permission.is_resource_allowed("file:///docs/a.txt", "read"));
    assert!(!permission.is_resource_allowed("file:///docs/a.txt", "write"));
    assert!(!permission.is_tool_allowed("anything"));
}

#[test]
fn mcp_validate_rejects_empty_tool_name() {
    let permission = McpPermissions {
        tools: Some(ToolPermissions { allow: vec![tool_rule("")], deny: vec![] }),
        prompts: None,
        resources: None,
        transport: None,
    };
    match McpExtension.validate(&permission) {
        Err(PolicyError::ValidationError(m)) => assert_eq!(m, "Tool name cannot be empty"),
        _ => panic!("expected a validation error"),
    }
}

#[test]
fn cache_with_closure_and_clear() {
    let mut cache = PermissionCache::new(0);
    let a = ActionHash::Environment("HOME".to_string());
    assert_eq!(check_with_cache(&mut cache, a.clone(), || Ok(true)).unwrap(), true);
    // The second call is answered from the cache, not by the closure.
    assert_eq!(check_with_cache(&mut cache, a.clone(), || Ok(false)).unwrap(), true);
    assert!(check_with_cache(&mut cache, ActionHash::Tool("t".to_string()), || {
        Err(PolicyError::Other("boom".to_string()))
    })
    .is_err());
    cache.insert(ActionHash::Storage("/tmp/a".to_string(), "read".to_string()), false);
    assert_eq!(cache.check_file("/tmp/a", AccessMode::Read), Some(false));
    clear_cache(&mut cache);
    let stats = cache.stats();
    assert_eq!(stats.hits, 0);
    assert_eq!(stats.misses, 0);
    assert_eq!(stats.total_items, 0);
    assert!(cache.check(&a).is_none());
}

#[test]
fn policy_error_messages() {
    assert_eq!(PolicyError::ParseError("x".to_string()).message(), "Failed to parse policy: x");
    assert_eq!(
        PolicyError::PermissionDenied { action: "read".to_string(), resource: "/a".to_string() }
            .message(),
        "Permission denied: read on /a"
    );
}

#[test]
fn limits_range_check() {
    assert!(limits_in_range(&limits_policy(None, Some("512Mi"), Some("30s")), None));
    assert!(!limits_in_range(&limits_policy(None, Some("18446744073709551615Gi"), None), None));
    assert!(!limits_in_range(&limits_policy(None, None, Some("18446744073709551615s")), None));
    // A CPU limit that does not parse stops compiling before the memory limit is read.
    assert!(limits_in_range(&limits_policy(Some("x"), Some("18446744073709551615Gi"), None), None));
    assert!(!memory_limit_fits("18446744073709551615Ki"));
    assert!(memory_limit_fits("12Xi"));
    assert!(time_limit_fits("5s"));
    assert!(!time_limit_fits("18446744073709551615m"));
}

#[test]
fn violation_log_records_in_order() {
    let mut log = ViolationLog::new();
    assert_eq!(log.total_violations(), 0);
    log.record_violation(Violation::ToolDenied { tool: "rm".to_string(), timestamp: 1 });
    log.record_violation(Violation::NetworkDenied { host: "x.com".to_string(), timestamp: 2 });
    assert_eq!(log.total_violations(), 2);
    assert_eq!(log.violations().len(), 2);
    match &log.violations()[0] {
        Violation::ToolDenied { tool, timestamp } => {
            assert_eq!(tool, "rm");
            assert_eq!(*timestamp, 1);
        }
        _ => panic!("expected the tool violation first"),
    }
}

#[test]
fn single_globs_and_glob_sets() {
    assert!(glob_is_match("*.json", "config.json"));
    assert!(!glob_is_match("*.json", "config.yaml"));
    assert!(!glob_is_match("a[", "a["));
    assert!(build_globset(&vec!["a[".to_string()]).is_err());
    assert!(build_globset(&vec!["*.json".to_string(), "/tmp/**".to_string()]).is_ok());
}

#[test]
fn permission_cache_evicts_least_recently_used() {
    let mut cache = PermissionCache::new(2);
    let a = ActionHash::Tool("a".to_string());
    let b = ActionHash::Tool("b".to_string());
    let c = ActionHash::Tool("c".to_string());
    cache.insert(a.clone(), true);
    cache.insert(b.clone(), false);
    // a lookup makes `a` the most recently used, so `b` goes when `c` comes in
    assert_eq!(cache.check(&a), Some(true));
    cache.insert(c.clone(), true);
    assert_eq!(cache.check(&b), None);
    assert_eq!(cache.check(&a), Some(true));
    assert_eq!(cache.check(&c), Some(true));
    // storing a known action again replaces its result and evicts nothing
    cache.insert(a.clone(), false);
    assert_eq!(cache.check(&a), Some(false));
    assert_eq!(cache.check(&c), Some(true));
}

#[test]
fn compiled_deny_patterns_refuse_tools() {
    let mcp = McpPermissions {
        tools: Some(ToolPermissions { allow: vec![tool_rule("*")], deny: vec![tool_rule("system_*")] }),
        prompts: None,
        resources: None,
        transport: None,
    };
    let policy = empty_policy("1.0");
    let compiled = CompiledPolicy::compile(&policy, &Some(mcp), None).unwrap();
    assert!(!compiled.is_tool_allowed("system_exec"));
    assert!(compiled.is_tool_allowed("calculator"));

    let mut policy = empty_policy("1.0");
    policy.extensions.push(("tools".to_string(), tools_section(&["*"], &["rm_*"])));
    let compiled = CompiledPolicy::compile(&policy, &None, None).unwrap();
    assert!(!compiled.is_tool_allowed("rm_rf"));
    assert!(compiled.is_tool_allowed("ls"));
}

#[test]
fn compiled_network_patterns_and_capability() {
    let mut policy = empty_policy("1.0");
    policy.core.network = Some(NetworkPermissions {
        allow: vec![host("*.internal.com")],
        deny: vec![host("secret*.internal.com")],
    });
    let compiled = CompiledPolicy::compile(&policy, &None, None).unwrap();
    assert!(compiled.is_network_allowed("test.internal.com"));
    assert!(!compiled.is_network_allowed("secret1.internal.com"));
    assert!(compiled.capabilities.can_access_network);
}

#[test]
fn check_with_cache_error_leaves_action_uncached() {
    let mut cache = PermissionCache::new(4);
    let a = ActionHash::Tool("t".to_string());
    assert!(check_with_cache(&mut cache, a.clone(), || Err(PolicyError::Other("boom".to_string()))).is_err());
    assert_eq!(cache.check(&a), None);
    assert_eq!(check_with_cache(&mut cache, a.clone(), || Ok(false)).unwrap(), false);
    assert_eq!(cache.check(&a), Some(false));
}

#[test]
fn cached_result_survives_fewer_other_actions_than_capacity() {
    let mut cache = PermissionCache::new(3);
    let a = ActionHash::Tool("a".to_string());
    assert_eq!(check_with_cache(&mut cache, a.clone(), || Ok(true)).unwrap(), true);
    cache.insert(ActionHash::Tool("b".to_string()), false);
    assert_eq!(cache.check(&ActionHash::Tool("zz".to_string())), None);
    assert_eq!(check_with_cache(&mut cache, a.clone(), || Ok(false)).unwrap(), true);
}

#[test]
fn glob_plain_patterns() {
    assert!(glob_match("read_file", "read_file"));
    assert!(!glob_match("read_file", "read_files"));
    assert!(glob_match("read_*", "read_file"));
    assert!(!glob_match("read_*", "write_file"));
    assert!(glob_match("*_file", "write_file"));
    assert!(glob_match("ab*ba", "abba"));
    assert!(!glob_match("ab*ba", "aba"));
}

#[test]
fn check_with_cache_keeps_other_entries_and_counts() {
    let mut cache = PermissionCache::new(2);
    let a = ActionHash::Tool("a".to_string());
    let b = ActionHash::Network("b.example.com".to_string());
    assert_eq!(check_with_cache(&mut cache, a.clone(), || Ok(true)).unwrap(), true);
    assert_eq!(check_with_cache(&mut cache, b.clone(), || Ok(false)).unwrap(), false);
    // a hit keeps every entry and makes `a` the most recently used
    assert_eq!(check_with_cache(&mut cache, a.clone(), || Ok(false)).unwrap(), true);
    assert_eq!(cache.check_network("b.example.com"), Some(false));
    let stats = cache.stats();
    assert_eq!((stats.hits, stats.misses), (2, 2));
    // a third action evicts `b`, the least recently used
    assert_eq!(check_with_cache(&mut cache, ActionHash::Tool("c".to_string()), || Ok(true)).unwrap(), true);
    assert_eq!(cache.check(&b), None);
    assert_eq!(cache.check(&a), Some(true));
}
