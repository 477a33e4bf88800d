use mcpkit_rs::policy::compiled::CompiledPolicy;
use mcpkit_rs::policy::permissions::{CorePermissions, Policy, StoragePermissions, StorageRule};
use mcpkit_rs::wasm::context::{CustomResourceLimiter, EnforcementMode, MeteringConfig, WasmContext};
use mcpkit_rs::wasm::execution::{
    execution_result, fuel_consumed, fuel_limit, metering_enabled, units_per_second, ExecOutcome,
};
use mcpkit_rs::wasm::fs::{FsPermissionMapper, WasiPerms};
use mcpkit_rs::wasm::manifest::{bundle_hash, CredentialRequirement, CredentialType, EnvVar, WasmToolManifest};
use mcpkit_rs::wasm::metering::{
    format_with_commas, ComputeUnits, DisplayFormat, MemoryLimits, RuntimeMetering, SamplingStrategy,
    WasmEdgeGas, WasmtimeFuel,
};
use mcpkit_rs::wasm::WasmError;
use std::sync::Arc;

fn manifest_with(credentials: Vec<CredentialRequirement>) -> WasmToolManifest {
    WasmToolManifest {
        name: "test".to_string(),
        version: "1.0.0".to_string(),
        description: None,
        wasm_module: "test.wasm".to_string(),
        credentials,
        input_schema: "{}".to_string(),
        output_schema: None,
        timeout_seconds: 30,
        max_memory_bytes: 50 * 1024 * 1024,
        max_fuel: None,
        env_vars: vec![],
    }
}

fn storage_policy(rules: Vec<(&str, Vec<&str>)>) -> CompiledPolicy {
    let policy = Policy {
        version: "1.0".to_string(),
        description: None,
        core: CorePermissions {
            storage: Some(StoragePermissions {
                allow: rules
                    .into_iter()
                    .map(|(uri, access)| StorageRule {
                        uri: uri.to_string(),
                        access: access.into_iter().map(|a| a.to_string()).collect(),
                    })
                    .collect(),
                deny: vec![],
            }),
            network: None,
            environment: None,
            resources: None,
        },
        extensions: Vec::new(),
    };
    CompiledPolicy::compile(&policy, &None, None).unwrap()
}

#[test]
fn test_read_permission_mapping() {
    let access = vec!["read".to_string()];
    let perms = FsPermissionMapper::map_to_wasi(&access);

    assert!(perms.dir_read);
    assert!(perms.file_read);
    assert!(!perms.dir_mutate);
    assert!(!perms.file_write);
}

#[test]
fn test_write_permission_mapping() {
    let access = vec!["write".to_string()];
    let perms = FsPermissionMapper::map_to_wasi(&access);

    assert!(perms.dir_read && perms.dir_mutate);
    assert!(perms.file_read && perms.file_write);
}

#[test]
fn test_combined_permissions() {
    let access = vec!["read".to_string(), "write".to_string()];
    let perms = FsPermissionMapper::map_to_wasi(&access);

    assert!(perms.dir_read && perms.dir_mutate);
    assert!(perms.file_read && perms.file_write);
}

#[test]
fn test_pattern_to_dir_path() {
    assert_eq!(FsPermissionMapper::pattern_to_dir_path("/tmp/test/**"), "/tmp/test");
    assert_eq!(FsPermissionMapper::pattern_to_dir_path("fs:///var/log/*.log"), "/var/log");
    assert_eq!(FsPermissionMapper::pattern_to_dir_path("/home/user/docs/"), "/home/user/docs");
}

#[test]
fn test_no_policy_returns_empty_dirs() {
    let mapper = FsPermissionMapper::new(None);
    let dirs = mapper.get_preopen_dirs();
    assert!(dirs.is_empty());
}

#[test]
fn test_credential_env_var_name() {
    let manifest = manifest_with(vec![
        CredentialRequirement {
            name: "api-key".to_string(),
            credential_type: CredentialType::ApiKey,
            required: true,
            env_var: Some("CUSTOM_API_KEY".to_string()),
            description: None,
        },
        CredentialRequirement {
            name: "github-token".to_string(),
            credential_type: CredentialType::BearerToken,
            required: true,
            env_var: None,
            description: None,
        },
    ]);

    assert_eq!(manifest.get_credential_env_var("api-key"), Some("CUSTOM_API_KEY".to_string()));
    assert_eq!(manifest.get_credential_env_var("github-token"), Some("GITHUB_TOKEN".to_string()));
}

#[test]
fn test_exact_formatting() {
    let cu = ComputeUnits::new(1_234_567);
    assert_eq!(cu.exact(), "1,234,567 CU");
}

#[test]
fn test_human_readable_parsing() {
    assert_eq!(MemoryLimits::parse_size("512Ki").unwrap(), 524_288);
    assert_eq!(MemoryLimits::parse_size("256Mi").unwrap(), 268_435_456);
    assert_eq!(MemoryLimits::parse_size("2Gi").unwrap(), 2_147_483_648);
    assert_eq!(MemoryLimits::parse_size("100").unwrap(), 100);
}

#[test]
fn test_invalid_format() {
    assert!(MemoryLimits::parse_size("ABC").is_err());
    assert!(MemoryLimits::parse_size("512Xi").is_err());
}

#[test]
fn test_sampling_strategy() {
    let strategy = SamplingStrategy::default();

    // Should not sample before time threshold
    assert!(!strategy.should_sample(200_000, 50, 1_000_000));

    // Should not sample before unit threshold
    assert!(!strategy.should_sample(50_000, 200, 1_000_000));

    // Should sample when both thresholds met
    assert!(strategy.should_sample(200_000, 200, 1_000_000));
}

#[test]
fn test_memory_limits_parsing() {
    // Test valid formats
    assert_eq!(MemoryLimits::parse_size("512Ki").unwrap(), 524_288);
    assert_eq!(MemoryLimits::parse_size("256Mi").unwrap(), 268_435_456);
    assert_eq!(MemoryLimits::parse_size("1Gi").unwrap(), 1_073_741_824);
    assert_eq!(MemoryLimits::parse_size("100").unwrap(), 100);

    // Test invalid formats
    assert!(MemoryLimits::parse_size("abc").is_err());
    assert!(MemoryLimits::parse_size("512Xi").is_err());
}

// ----- further cases -----

#[test]
fn parse_size_messages_and_decimal_units() {
    assert_eq!(MemoryLimits::parse_size("2K").unwrap(), 2000);
    assert_eq!(MemoryLimits::parse_size("3M").unwrap(), 3_000_000);
    assert_eq!(MemoryLimits::parse_size("512Xi").unwrap_err(), "Unknown unit: Xi");
    assert_eq!(
        MemoryLimits::parse_size("ABC").unwrap_err(),
        "Invalid number: cannot parse integer from empty string"
    );
}

#[test]
fn commas_and_units() {
    assert_eq!(format_with_commas(0), "0");
    assert_eq!(format_with_commas(999), "999");
    assert_eq!(format_with_commas(1000), "1,000");
    assert_eq!(format_with_commas(12_345_678_901), "12,345,678,901");
    assert_eq!(WasmtimeFuel(42).to_compute_units().0, 42);
    assert_eq!(WasmEdgeGas(7).native_units(), 7);
    assert_eq!(WasmtimeFuel(1).unit_name(), "fuel");
    assert_eq!(WasmEdgeGas(1).unit_name(), "gas");
}

#[test]
fn adaptive_sampling_waits_for_more_units() {
    let strategy = SamplingStrategy::default();
    let t = strategy.unit_threshold;
    assert!(!strategy.should_sample(t * 5, 1000, 2_000_000_000));
    assert!(strategy.should_sample(t * 10 + 1, 1000, 2_000_000_000));
}

#[test]
fn manifest_validation() {
    let mut m = manifest_with(vec![]);
    assert!(m.validate().is_ok());
    m.name = String::new();
    match m.validate() {
        Err(WasmError::ManifestError(msg)) => assert_eq!(msg, "Tool name cannot be empty"),
        _ => panic!("expected a manifest error"),
    }
    let mut m = manifest_with(vec![]);
    m.timeout_seconds = 0;
    assert!(m.validate().is_err());
    let m = manifest_with(vec![]);
    assert_eq!(m.get_credential_env_var("missing"), None);
    let _ = EnvVar { name: "A".to_string(), value: "b".to_string() };
}

#[test]
fn preopen_dirs_follow_policy() {
    let compiled = storage_policy(vec![
        ("fs:///data/**", vec!["read"]),
        ("fs:///data/*.txt", vec!["write"]),
        ("fs:///logs/*.log", vec!["read", "write"]),
    ]);
    let mapper = FsPermissionMapper::new(Some(Arc::new(compiled)));
    let dirs = mapper.get_preopen_dirs();
    assert_eq!(dirs.len(), 2);
    assert_eq!(dirs[0].host_path, "/data");
    assert_eq!(dirs[0].guest_path, "/data");
    assert_eq!(
        dirs[0].perms,
        WasiPerms { dir_read: true, dir_mutate: false, file_read: true, file_write: false }
    );
    assert_eq!(dirs[1].host_path, "/logs");
    assert!(dirs[1].perms.file_write);
    assert!(mapper.is_operation_allowed("/data/a.bin", "read"));
    assert!(!mapper.is_operation_allowed("/data/a.bin", "write"));
    assert!(!FsPermissionMapper::new(None).is_operation_allowed("/data/a.bin", "read"));
}

#[test]
fn bundle_hash_covers_parts_in_order() {
    let parts = vec![b"ab".to_vec(), Vec::new(), b"c".to_vec()];
    assert_eq!(
        bundle_hash(&parts),
        "ba7816bf8f01cfea414140de5dae2223b00361a396177a9cb410ff61f20015ad"
    );
    assert_ne!(bundle_hash(&vec![b"c".to_vec(), b"ab".to_vec()]), bundle_hash(&parts));
}

fn env_value(ctx: &WasmContext, key: &str) -> Option<String> {
    ctx.env_vars.iter().find(|(k, _)| k == key).map(|(_, v)| v.clone())
}

#[test]
fn test_context_builder() {
    let context = WasmContext::new()
        .with_stdin(b"test input".to_vec())
        .with_env("TEST_VAR".to_string(), "test_value".to_string())
        .with_timeout(60_000);

    assert_eq!(context.stdin, b"test input");
    assert_eq!(env_value(&context, "TEST_VAR"), Some("test_value".to_string()));
    assert_eq!(context.timeout_ms, 60_000);
}

#[test]
fn test_context_with_metering() {
    let metering_config = MeteringConfig {
        enabled: true,
        max_compute_units: Some(5_000_000),
        memory_limits: MemoryLimits {
            max_memory: 1024 * 1024 * 10,
            soft_limit: Some(1024 * 1024 * 8),
            max_tables: 5,
            max_instances: 2,
        },
        enable_monitoring: true,
        sampling: SamplingStrategy::default(),
        display_format: DisplayFormat::Detailed,
        enforcement: EnforcementMode::Strict,
    };

    let context = WasmContext::new().with_metering(metering_config);

    assert_eq!(context.max_fuel, Some(5_000_000));
    assert_eq!(context.max_memory_bytes, 10 * 1024 * 1024);
    assert!(context.metering.is_some());

    let metering = context.metering.unwrap();
    assert!(metering.enabled);
    assert_eq!(metering.max_compute_units, Some(5_000_000));
    assert_eq!(metering.enforcement, EnforcementMode::Strict);
}

#[test]
fn test_custom_resource_limiter() {
    let mut limiter = CustomResourceLimiter::new(1024 * 1024); // 1MB

    // Should allow growth within limit
    assert!(limiter.memory_growing(0, 512 * 1024, None));
    assert!(limiter.memory_growing(512 * 1024, 1024 * 1024, None));

    // Should deny growth beyond limit
    assert!(!limiter.memory_growing(1024 * 1024, 2 * 1024 * 1024, None));

    // Check memory tracking
    assert_eq!(limiter.memory_used(), 1024 * 1024);
}

#[test]
fn context_defaults_and_replaced_env() {
    let ctx = WasmContext::new();
    assert_eq!(ctx.timeout_ms, 30_000);
    assert_eq!(ctx.max_memory_bytes, 50 * 1024 * 1024);
    assert_eq!(ctx.max_fuel, None);
    assert!(ctx.metering.unwrap().enabled);
    let ctx = ctx
        .with_env("A".to_string(), "1".to_string())
        .with_env("B".to_string(), "2".to_string())
        .with_env("A".to_string(), "3".to_string())
        .with_max_fuel(9)
        .without_metering();
    assert_eq!(ctx.env_vars.len(), 2);
    assert_eq!(env_value(&ctx, "A"), Some("3".to_string()));
    assert_eq!(env_value(&ctx, "B"), Some("2".to_string()));
    assert_eq!(ctx.max_fuel, Some(9));
    assert!(ctx.metering.is_none());
    let limiter = CustomResourceLimiter::new(10);
    assert!(limiter.table_growing(0, 10, None));
    assert!(!limiter.table_growing(0, 11, None));
    assert!(limiter.table_growing(0, 11, Some(20)));
    let defaults = MeteringConfig::default();
    assert!(!defaults.enabled);
    assert_eq!(defaults.enforcement, EnforcementMode::Tracking);
}

#[test]
fn fuel_limits_by_enforcement() {
    // Tracking (the default) sets no effective limit.
    let ctx = WasmContext::new();
    assert_eq!(fuel_limit(&ctx), u64::MAX / 2);
    assert!(metering_enabled(&ctx));
    // Without metering: 100 units per KiB of memory (50 MiB here).
    let ctx = WasmContext::new().without_metering();
    assert_eq!(fuel_limit(&ctx), 51200 * 100);
    assert!(!metering_enabled(&ctx));
    // A small memory gets the minimum of a million.
    let mut small = WasmContext::new().without_metering();
    small.max_memory_bytes = 1024;
    assert_eq!(fuel_limit(&small), 1_000_000);
    // Strict enforcement uses the configured limit.
    let mut cfg = MeteringConfig::default();
    cfg.enforcement = EnforcementMode::Strict;
    cfg.max_compute_units = Some(10_000);
    let ctx = WasmContext::new().with_metering(cfg);
    assert_eq!(fuel_limit(&ctx), 10_000);
}

#[test]
fn fuel_accounting() {
    assert_eq!(fuel_consumed(1000, Some(400), true), 600);
    assert_eq!(fuel_consumed(1000, None, true), 1000);
    assert_eq!(fuel_consumed(1000, Some(400), false), 0);
    assert_eq!(units_per_second(1000, 2, 2_000_000_000), 500);
    assert_eq!(units_per_second(1000, 0, 500_000_000), 2000);
    assert_eq!(units_per_second(1000, 0, 0), 0);
}

#[test]
fn execution_outcomes() {
    assert!(execution_result(&ExecOutcome::Completed).is_ok());
    assert!(execution_result(&ExecOutcome::Exited(0)).is_ok());
    match execution_result(&ExecOutcome::Exited(-3)) {
        Err(WasmError::RuntimeError(m)) => assert_eq!(m, "Execution exited with status -3"),
        _ => panic!("expected a runtime error"),
    }
    match execution_result(&ExecOutcome::Exited(42)) {
        Err(WasmError::RuntimeError(m)) => assert_eq!(m, "Execution exited with status 42"),
        _ => panic!("expected a runtime error"),
    }
    let trap = ExecOutcome::Trapped { trap: "all fuel consumed".to_string(), error: "e".to_string() };
    match execution_result(&trap) {
        Err(WasmError::RuntimeError(m)) => {
            assert_eq!(m, "Execution exceeded fuel limit (possible DOS attempt)")
        }
        _ => panic!("expected a runtime error"),
    }
    let trap = ExecOutcome::Trapped { trap: "unreachable".to_string(), error: "wasm trap".to_string() };
    match execution_result(&trap) {
        Err(WasmError::RuntimeError(m)) => assert_eq!(m, "Execution failed: wasm trap"),
        _ => panic!("expected a runtime error"),
    }
    match execution_result(&ExecOutcome::Failed("boom".to_string())) {
        Err(WasmError::RuntimeError(m)) => assert_eq!(m, "Execution failed: boom"),
        _ => panic!("expected a runtime error"),
    }
}

#[test]
fn consumed_fuel_stays_within_limit() {
    assert_eq!(fuel_consumed(100_000, Some(40_000), true), 60_000);
    assert_eq!(fuel_consumed(100_000, None, true), 100_000);
    assert_eq!(fuel_consumed(100_000, Some(40_000), false), 0);
}
