use mcpkit_rs::config::defaults::{default_config, PACKAGE_VERSION};
use mcpkit_rs::config::error::ConfigError;
use mcpkit_rs::config::loader::{apply_env_overrides, config_format, ConfigFormat, ConfigLoader, EnvOverrides};
use mcpkit_rs::config::types::{
    Config,
    HttpSettings, McpCapabilities, ResourceLimits, RuntimeType, TlsConfig, ToolConfig,
    TransportSettings, TransportType,
};
use mcpkit_rs::config::validation::{
    is_valid_cpu_limit, is_valid_memory_limit, is_valid_time_limit, referenced_paths,
    validate_config, validate_resource_limits, validate_version,
};
use mcpkit_rs::policy::permissions::{CorePermissions, Policy};

#[test]
fn test_default_config() {
    let config = Config::default();
    assert_eq!(config.version, "1.0");
    assert_eq!(config.server.name, "mcpkit-rs-server");
    assert_eq!(config.transport.transport_type, TransportType::Stdio);
}

#[test]
fn tests_test_config_merge() {
    let mut config1 = default_config();

    let mut config2 = default_config();
    config2.server.name = "merged-server".to_string();
    config2.server.version = "2.0.0".to_string();
    config2.server.bind = "0.0.0.0".to_string();
    config2.server.port = 8080;
    config2.transport.transport_type = TransportType::Http;
    config2.transport.settings = TransportSettings::Http(HttpSettings {
        cors_enabled: Some(true),
        cors_origins: None,
        max_body_size: None,
        compression: None,
        tls: None,
    });
    config2.runtime.runtime_type = RuntimeType::Wasmtime;
    assert!(validate_config(&config2, &Vec::new()).is_ok());

    config1.merge(config2).unwrap();

    assert_eq!(config1.server.name, "merged-server");
    assert_eq!(config1.server.port, 8080);
    assert_eq!(config1.transport.transport_type, TransportType::Http);
}

#[test]
fn test_version_mismatch() {
    let mut config1 = Config::default();
    config1.version = "1.0".to_string();

    let mut config2 = Config::default();
    config2.version = "2.0".to_string();

    let result = config1.merge(config2);
    assert!(result.is_err());

    if let Err(ConfigError::VersionMismatch { expected, found }) = result {
        assert_eq!(expected, "1.0");
        assert_eq!(found, "2.0");
    } else {
        panic!("Expected version mismatch error");
    }
}

#[test]
fn test_validation_empty_server_name() {
    let mut config = default_config();
    config.server.name = "".to_string();
    config.server.version = "0.1.0".to_string();
    config.server.bind = "127.0.0.1".to_string();
    config.server.port = 3000;
    config.runtime.runtime_type = RuntimeType::Native;

    let result = validate_config(&config, &Vec::new());
    assert!(result.is_err());
}

#[test]
fn test_validation_invalid_port() {
    let mut config = default_config();
    config.server.name = "test".to_string();
    config.server.version = "0.1.0".to_string();
    config.server.bind = "127.0.0.1".to_string();
    config.server.port = 0;
    config.runtime.runtime_type = RuntimeType::Native;

    let result = validate_config(&config, &Vec::new());
    assert!(result.is_err());
}

#[test]
fn test_resource_limits_validation() {
    let mut config = default_config();
    config.server.name = "test".to_string();
    config.server.port = 3000;
    config.runtime.runtime_type = RuntimeType::Native;
    config.runtime.limits = Some(ResourceLimits {
        cpu: Some("500m".to_string()),
        memory: Some("512Mi".to_string()),
        execution_time: Some("30s".to_string()),
        max_requests_per_minute: Some(100),
    });
    assert!(validate_config(&config, &Vec::new()).is_ok());

    let limits = config.runtime.limits.unwrap();
    assert_eq!(limits.cpu, Some("500m".to_string()));
    assert_eq!(limits.memory, Some("512Mi".to_string()));
    assert_eq!(limits.execution_time, Some("30s".to_string()));
}

// ----- further cases -----

fn validation_message(r: Result<(), ConfigError>) -> String {
    match r {
        Err(ConfigError::ValidationError(m)) => m,
        _ => panic!("expected a validation error"),
    }
}

#[test]
fn default_config_is_valid_and_versioned() {
    let config = default_config();
    assert!(validate_config(&config, &Vec::new()).is_ok());
    assert_eq!(config.server.version, PACKAGE_VERSION);
    assert_eq!(config.runtime.runtime_type, RuntimeType::Native);
}

#[test]
fn validation_messages_are_exact() {
    let mut config = default_config();
    config.server.port = 0;
    assert_eq!(validation_message(validate_config(&config, &Vec::new())), "Server port cannot be 0");

    let mut config = default_config();
    config.server.version = "one".to_string();
    assert_eq!(
        validation_message(validate_config(&config, &Vec::new())),
        "Invalid server version format: one"
    );

    let mut config = default_config();
    config.server.log_level = Some("loud".to_string());
    assert_eq!(validation_message(validate_config(&config, &Vec::new())), "Invalid log level: loud");

    assert_eq!(validation_message(validate_version("2.0")), "Unsupported configuration version: 2.0");
}

#[test]
fn mismatched_transport_settings_are_refused() {
    let mut config = default_config();
    config.transport.transport_type = TransportType::Http;
    assert!(validate_config(&config, &Vec::new()).is_err());
}

#[test]
fn tls_files_must_exist() {
    let mut config = default_config();
    config.transport.transport_type = TransportType::Http;
    config.transport.settings = TransportSettings::Http(HttpSettings {
        cors_enabled: None,
        cors_origins: None,
        max_body_size: None,
        compression: None,
        tls: Some(TlsConfig {
            cert_file: "cert.pem".to_string(),
            key_file: "key.pem".to_string(),
            ca_file: None,
            verify_client: None,
        }),
    });
    assert_eq!(referenced_paths(&config), vec!["cert.pem".to_string(), "key.pem".to_string()]);
    assert!(validate_config(&config, &Vec::new()).is_err());
    let present = vec!["cert.pem".to_string(), "key.pem".to_string()];
    assert!(validate_config(&config, &present).is_ok());
}

#[test]
fn tool_without_description_is_refused() {
    let mut config = default_config();
    config.mcp.tools = Some(vec![ToolConfig {
        name: "calc".to_string(),
        description: "".to_string(),
        input_schema: "{}".to_string(),
        handler: None,
    }]);
    assert_eq!(
        validation_message(validate_config(&config, &Vec::new())),
        "Tool calc must have a description"
    );
}

#[test]
fn policy_version_checked_in_config() {
    let mut config = default_config();
    config.policy = Some(Policy {
        version: "2.0".to_string(),
        description: None,
        core: CorePermissions::default(),
        extensions: Vec::new(),
    });
    match validate_config(&config, &Vec::new()) {
        Err(ConfigError::PolicyError(_)) => {}
        _ => panic!("expected a policy error"),
    }
}

#[test]
fn limit_syntax_checks() {
    assert!(is_valid_cpu_limit("500m"));
    assert!(is_valid_cpu_limit("1.5"));
    assert!(!is_valid_cpu_limit("fast"));
    assert!(is_valid_memory_limit("512Mi"));
    assert!(is_valid_memory_limit("1024"));
    assert!(!is_valid_memory_limit("lots"));
    assert!(is_valid_time_limit("30s"));
    assert!(!is_valid_time_limit("30"));
    let bad = ResourceLimits {
        cpu: None,
        memory: Some("lots".to_string()),
        execution_time: None,
        max_requests_per_minute: None,
    };
    assert_eq!(validation_message(validate_resource_limits(&bad)), "Invalid memory limit format: lots");
}

#[test]
fn merge_keeps_policy_when_other_has_none() {
    let mut config1 = default_config();
    config1.policy = Some(Policy {
        version: "1.0".to_string(),
        description: Some("kept".to_string()),
        core: CorePermissions::default(),
        extensions: Vec::new(),
    });
    config1.extensions.push(("a".to_string(), "1".to_string()));
    let mut config2 = default_config();
    config2.extensions.push(("a".to_string(), "2".to_string()));
    config1.merge(config2).unwrap();
    assert_eq!(config1.policy.unwrap().description, Some("kept".to_string()));
    assert_eq!(config1.extensions.last().unwrap().1, "2");
}

#[test]
fn capabilities_list_and_struct() {
    let list = McpCapabilities::List(vec!["tools".to_string(), "logging".to_string()]);
    assert!(list.has_tools());
    assert!(list.has_logging());
    assert!(!list.has_prompts());
    let st = McpCapabilities::Struct {
        tools: Some(true),
        prompts: Some(false),
        resources: None,
        logging: None,
        experimental: None,
    };
    assert!(st.has_tools());
    assert!(!st.has_prompts());
    assert!(!st.has_resources());
}

#[test]
fn loader_candidates_and_env_names() {
    let mut loader = ConfigLoader::new(vec![".".to_string()]);
    loader.add_search_path("/etc/mcpkit").set_env_prefix("APP");
    let files = loader.candidate_files();
    assert_eq!(files.len(), 18);
    assert_eq!(files[0], "./mcpkit.yaml");
    assert_eq!(files[9], "/etc/mcpkit/mcpkit.yaml");
    let (bind, port, debug, level) = loader.env_var_names();
    assert_eq!(bind, "APP_SERVER_BIND");
    assert_eq!(port, "APP_SERVER_PORT");
    assert_eq!(debug, "APP_DEBUG");
    assert_eq!(level, "APP_LOG_LEVEL");
}

#[test]
fn config_format_by_extension() {
    assert_eq!(config_format("yml").unwrap(), ConfigFormat::Yaml);
    assert_eq!(config_format("json").unwrap(), ConfigFormat::Json);
    match config_format("toml") {
        Err(ConfigError::ValidationError(m)) => assert_eq!(m, "Unsupported config file extension: toml"),
        _ => panic!("expected an error"),
    }
}

#[test]
fn env_overrides_apply_and_reject_bad_port() {
    let mut config = default_config();
    let env = EnvOverrides {
        bind: Some("0.0.0.0".to_string()),
        port: Some("9000".to_string()),
        debug: Some("TRUE".to_string()),
        log_level: Some("debug".to_string()),
    };
    apply_env_overrides(&mut config, &env).unwrap();
    assert_eq!(config.server.bind, "0.0.0.0");
    assert_eq!(config.server.port, 9000);
    assert!(config.server.debug);
    assert_eq!(config.server.log_level, Some("debug".to_string()));

    let bad = EnvOverrides { bind: None, port: Some("70000".to_string()), debug: None, log_level: None };
    match apply_env_overrides(&mut config, &bad) {
        Err(ConfigError::ValidationError(m)) => assert_eq!(m, "Invalid port number from env: 70000"),
        _ => panic!("expected an error"),
    }
}

#[test]
fn config_error_texts() {
    assert_eq!(
        ConfigError::ValidationError("Server name cannot be empty".to_string()).message(),
        "Configuration validation error: Server name cannot be empty"
    );
    assert_eq!(
        ConfigError::VersionMismatch { expected: "1.0".to_string(), found: "2.0".to_string() }.message(),
        "Version mismatch: expected 1.0, found 2.0"
    );
    assert_eq!(
        ConfigError::InvalidValue { field: "port".to_string(), value: "x".to_string() }.message(),
        "Invalid value for port: x"
    );
    assert_eq!(ConfigError::NotFound("/etc/mcp.yaml".to_string()).message(), "Configuration not found at path: /etc/mcp.yaml");
    assert_eq!(ConfigError::Other("boom".to_string()).message(), "Other error: boom");
}
