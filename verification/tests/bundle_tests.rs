use mcpkit_rs::bundle::cache::{BundleCache, CacheError};
use mcpkit_rs::bundle::oci::{
    build_manifest, create_oci_config, env_var_name, expand_env_var, find_layer, next_auth_step,
    upload_failure, upload_put_url, upload_step, AuthContext, AuthStep, BearerChallenge, OciError, RegistryUrl,
    UploadState, MEDIA_TYPE_CONFIG_YAML, MEDIA_TYPE_WASM,
};
use mcpkit_rs::bundle::{compute_digest, parse_oci_uri, verify_digest, Bundle, BundleError};

#[test]
fn test_parse_oci_uri() {
    // Test with tag
    let (registry, repo, tag) = parse_oci_uri("oci://ghcr.io/org/tool:v1.0.0").unwrap();
    assert_eq!(registry, "ghcr.io");
    assert_eq!(repo, "org/tool");
    assert_eq!(tag, Some("v1.0.0".to_string()));

    // Test with digest
    let (registry, repo, tag) = parse_oci_uri("oci://docker.io/org/tool@sha256:abc123").unwrap();
    assert_eq!(registry, "docker.io");
    assert_eq!(repo, "org/tool");
    assert_eq!(tag, Some("sha256:abc123".to_string()));

    // Test without tag
    let (registry, repo, tag) = parse_oci_uri("oci://ghcr.io/org/tool").unwrap();
    assert_eq!(registry, "ghcr.io");
    assert_eq!(repo, "org/tool");
    assert_eq!(tag, None);

    // Test invalid URI
    assert!(parse_oci_uri("https://ghcr.io/org/tool").is_err());
}

#[test]
fn test_compute_digest() {
    let content = b"test content";
    let digest = compute_digest(content);
    assert!(digest.starts_with("sha256:"));
    assert_eq!(digest.len(), 71); // "sha256:" + 64 hex chars
}

#[test]
fn test_verify_digest() {
    let content = b"test content";
    let digest = compute_digest(content);

    // Valid digest
    assert!(verify_digest(content, &digest).is_ok());

    // Invalid digest
    assert!(verify_digest(b"different content", &digest).is_err());
}

#[test]
fn test_bundle_creation() {
    let wasm = vec![0x00, 0x61, 0x73, 0x6d]; // WASM magic number
    let config = b"version: 1.0".to_vec();

    let bundle = Bundle::new(
        wasm.clone(),
        config.clone(),
        "ghcr.io/test/bundle".to_string(),
        "1.0.0".to_string(),
        0,
    );

    assert_eq!(bundle.wasm, wasm);
    assert_eq!(bundle.config, config);
    assert_eq!(bundle.metadata.registry, "ghcr.io/test/bundle");
    assert_eq!(bundle.metadata.version, "1.0.0");

    // Verify integrity
    assert!(bundle.verify().is_ok());
}

#[test]
fn test_media_types() {
    assert_eq!(MEDIA_TYPE_WASM, "application/vnd.mcpkit.wasm.module.v1");
    assert_eq!(MEDIA_TYPE_CONFIG_YAML, "application/vnd.mcpkit.config.v1+yaml");
}

#[test]
fn test_oci_config_creation() {
    let config = create_oci_config("2024-01-01T00:00:00Z".to_string());

    assert_eq!(config.architecture, "wasm");
    assert_eq!(config.os, "wasi");
    assert_eq!(config.root_fs.fs_type, "layers");
    assert_eq!(config.history.len(), 1);
    assert_eq!(config.history[0].created_by, "mcpkit-rs");
}

#[test]
fn test_env_var_expansion() {
    assert_eq!(
        expand_env_var("${TEST_VAR}", Some("test_value".to_string())).unwrap(),
        "test_value"
    );
    assert_eq!(expand_env_var("plain_text", None).unwrap(), "plain_text");

    // Test missing env var produces clear error
    let result = expand_env_var("${NONEXISTENT}", None);
    assert!(result.is_err());
    let err_msg = match result {
        Err(BundleError::ConfigError(m)) => m,
        _ => panic!("expected a configuration error"),
    };
    assert!(err_msg.contains("NONEXISTENT"));
    assert!(err_msg.contains("not set"));
}

#[test]
fn test_cache_path_conversion() {
    let cache = BundleCache::new("/tmp/cache".to_string());

    let test_cases = vec![
        ("oci://ghcr.io/org/tool:latest", "ghcr.io/org/tool/latest"),
        ("oci://docker.io/user/app:v2.0", "docker.io/user/app/v2.0"),
        ("oci://localhost:5000/test/bundle:tag", "localhost:5000/test/bundle/tag"),
    ];

    for (uri, expected_suffix) in test_cases {
        let path = cache.uri_to_path(uri).unwrap();
        assert!(path.ends_with(expected_suffix));
    }
}

// ----- further cases -----

#[test]
fn digest_is_known_sha256() {
    assert_eq!(
        compute_digest(b"abc"),
        "sha256:ba7816bf8f01cfea414140de5dae2223b00361a396177a9cb410ff61f20015ad"
    );
    assert_ne!(compute_digest(b"abc"), compute_digest(b"abd"));
}

#[test]
fn verify_digest_reports_both_digests() {
    match verify_digest(b"x", "sha256:00") {
        Err(BundleError::DigestMismatch { expected, computed }) => {
            assert_eq!(expected, "sha256:00");
            assert_eq!(computed, compute_digest(b"x"));
        }
        _ => panic!("expected a mismatch"),
    }
}

#[test]
fn oci_uri_errors_are_exact() {
    match parse_oci_uri("https://x") {
        Err(BundleError::InvalidUri(m)) => assert_eq!(m, "URI must start with 'oci://': https://x"),
        _ => panic!("expected an invalid URI"),
    }
    match parse_oci_uri("oci://registry-only") {
        Err(BundleError::InvalidUri(m)) => assert_eq!(m, "Invalid OCI URI format: registry-only"),
        _ => panic!("expected an invalid URI"),
    }
}

#[test]
fn tampered_bundle_fails_verification() {
    let mut bundle = Bundle::new(vec![1, 2, 3], b"a: 1".to_vec(), "r".to_string(), "v".to_string(), 7);
    assert_eq!(bundle.metadata.pulled_at, 7);
    bundle.wasm.push(4);
    assert!(bundle.verify().is_err());
}

#[test]
fn cache_round_trip_and_index() {
    let mut cache = BundleCache::new("/tmp/cache".to_string());
    let uri = "oci://ghcr.io/org/tool:v1.0.0";
    let path = cache.uri_to_path(uri).unwrap();
    assert_eq!(path, "/tmp/cache/ghcr.io/org/tool/v1.0.0");
    assert_eq!(cache.path_to_uri(&path), Some(uri.to_string()));

    assert!(!cache.has_bundle(uri));
    match cache.get(uri) {
        Err(CacheError::NotFound(u)) => assert_eq!(u, uri),
        _ => panic!("expected not found"),
    }
    cache.index_put(uri, path.clone());
    assert!(cache.has_bundle(uri));
    assert_eq!(cache.get(uri).unwrap(), path);
    assert_eq!(cache.list(), vec![uri.to_string()]);
    assert_eq!(cache.indexed_paths(), vec![path.clone()]);

    let good = Bundle::new(vec![0], vec![1], "r".to_string(), "v".to_string(), 0);
    assert!(cache.verify(&vec![Some(good)]).is_empty());
    assert_eq!(cache.verify(&vec![None]), vec![uri.to_string()]);

    assert_eq!(cache.index_remove(uri), Some(path));
    assert!(cache.list().is_empty());
    cache.index_put(uri, "/x".to_string());
    assert_eq!(cache.index_clear(), vec!["/x".to_string()]);
    assert!(!cache.has_bundle(uri));
}

#[test]
fn registry_urls() {
    let local = RegistryUrl::new("localhost:5000", "test/repo", None);
    assert_eq!(local.base_url(), "http://localhost:5000");
    assert_eq!(local.manifest_url("latest"), "http://localhost:5000/v2/test/repo/manifests/latest");
    assert_eq!(local.blob_url("sha256:ab"), "http://localhost:5000/v2/test/repo/blobs/sha256:ab");
    assert_eq!(local.upload_initiation_url(), "http://localhost:5000/v2/test/repo/blobs/uploads/");
    assert_eq!(local.scope("pull,push"), "repository:test/repo:pull,push");

    let remote = RegistryUrl::new("ghcr.io", "org/tool", None);
    assert_eq!(remote.base_url(), "https://ghcr.io");
    assert!(RegistryUrl::is_insecure_registry("myreg:5000", Some(" other , MYREG:5000 ")));
    assert!(RegistryUrl::is_insecure_registry("myreg:5000", Some("myreg")));
    assert!(!RegistryUrl::is_insecure_registry("ghcr.io", Some("docker.io")));
}

#[test]
fn bearer_challenge_and_auth_steps() {
    let c = BearerChallenge::parse(r#"Bearer realm="https://auth.io/token",service="reg",scope="repository:a:pull""#)
        .unwrap();
    assert_eq!(c.realm, "https://auth.io/token");
    assert_eq!(c.service, Some("reg".to_string()));
    assert_eq!(c.scope, Some("repository:a:pull".to_string()));
    assert!(BearerChallenge::parse("Basic realm=\"x\"").is_none());

    assert!(matches!(next_auth_step(200, 0, true, None), AuthStep::Respond));
    assert!(matches!(next_auth_step(401, 3, true, Some("Bearer realm=\"r\"")), AuthStep::Refuse));
    assert!(matches!(next_auth_step(401, 0, false, Some("Bearer realm=\"r\"")), AuthStep::Refuse));
    match next_auth_step(401, 0, true, Some("Bearer realm=\"r\"")) {
        AuthStep::Refresh(c) => assert_eq!(c.realm, "r"),
        _ => panic!("expected a refresh"),
    }
}

#[test]
fn auth_context_tokens() {
    let mut anon = AuthContext::anonymous();
    assert!(anon.basic_credentials().is_none());
    assert!(anon.bearer_token().is_none());
    assert!(anon.accept_token(None, Some("tok".to_string())).is_ok());
    assert_eq!(anon.bearer_token(), Some("tok"));

    let mut basic = AuthContext::with_basic("u".to_string(), "p".to_string());
    assert_eq!(basic.basic_credentials(), Some(("u", "p")));
    assert!(basic.can_fetch_token());
    match basic.accept_token(None, None) {
        Err(OciError::AuthenticationRequired) => {}
        _ => panic!("expected authentication to be required"),
    }
    assert!(basic.accept_token(Some("t1".to_string()), Some("t2".to_string())).is_ok());
    assert_eq!(basic.bearer_token(), Some("t1"));
}

#[test]
fn env_reference_names() {
    assert_eq!(env_var_name("${HOME}"), Some("HOME".to_string()));
    assert_eq!(env_var_name("HOME"), None);
    assert_eq!(env_var_name("${}"), Some(String::new()));
    assert_eq!(env_var_name("${A"), None);
}

#[test]
fn upload_failures() {
    assert!(matches!(upload_failure(401, String::new(), "u"), OciError::AuthenticationRequired));
    match upload_failure(500, "boom".to_string(), "u") {
        OciError::RegistryError { status, message } => {
            assert_eq!(status, 500);
            assert_eq!(message, "boom");
        }
        _ => panic!("expected a registry error"),
    }
}

#[test]
fn manifest_layers_found_by_media_type() {
    let m = build_manifest("sha256:c", 10, "sha256:w", 20, "sha256:y", 30, "v1");
    assert_eq!(m.schema_version, 2);
    assert_eq!(find_layer(&m, MEDIA_TYPE_WASM, "WASM layer").unwrap().digest, "sha256:w");
    assert_eq!(find_layer(&m, MEDIA_TYPE_CONFIG_YAML, "config layer").unwrap().size, 30);
    match find_layer(&m, "other", "other layer") {
        Err(OciError::LayerNotFound(w)) => assert_eq!(w, "other layer"),
        _ => panic!("expected a missing layer"),
    }
}

#[test]
fn upload_urls() {
    assert_eq!(
        upload_put_url("https://r.io", "/v2/a/blobs/uploads/123", "sha256:d"),
        "https://r.io/v2/a/blobs/uploads/123?digest=sha256:d"
    );
    assert_eq!(
        upload_put_url("https://r.io", "https://up.io/x?y=1", "sha256:d"),
        "https://up.io/x?y=1&digest=sha256:d"
    );
}

#[test]
fn bundle_error_texts_and_answers() {
    let e = BundleError::OciError(OciError::RegistryError { status: 404, message: "missing".to_string() });
    assert_eq!(e.message(), "OCI operation failed: Registry returned error: 404 - missing");
    let d = e.into_error_data();
    assert_eq!(d.code, -32603);
    assert_eq!(d.message, "OCI operation failed: Registry returned error: 404 - missing");

    let e = BundleError::CacheError(CacheError::LockPoisoned);
    assert_eq!(e.message(), "Cache operation failed: Lock poisoned");
    let e = BundleError::DigestMismatch { expected: "sha256:a".to_string(), computed: "sha256:b".to_string() };
    assert_eq!(e.message(), "Digest mismatch - expected: sha256:a, computed: sha256:b");

    let d = BundleError::NotFound("oci://r/x:1".to_string()).into_error_data();
    assert_eq!((d.code, d.message.as_str()), (-32600, "Bundle not found: oci://r/x:1"));
    let d = BundleError::AuthenticationFailed("bad token".to_string()).into_error_data();
    assert_eq!((d.code, d.message.as_str()), (-32600, "Authentication failed: bad token"));
    let d = BundleError::InvalidUri("x".to_string()).into_error_data();
    assert_eq!((d.code, d.message.as_str()), (-32603, "Invalid URI: x"));

    assert_eq!(
        OciError::AuthenticationRequired.message(),
        "Authentication required. Set GITHUB_USER and GITHUB_TOKEN environment variables or use --auth flag"
    );
    assert_eq!(CacheError::NotFound("u".to_string()).message(), "Bundle not found in cache: u");
    assert_eq!(OciError::LayerNotFound("wasm".to_string()).message(), "Layer not found: wasm");
}

#[test]
fn upload_steps() {
    let reg = RegistryUrl::new("ghcr.io", "org/tool", None);
    let d = "sha256:abc";
    // the registry has the blob: nothing is uploaded
    let (st, next) = upload_step(UploadState::Checking, &reg, d, 200, None, String::new()).unwrap();
    assert_eq!(st, UploadState::Done);
    assert_eq!(next, None);
    // it has not: an upload is started
    let (st, next) = upload_step(UploadState::Checking, &reg, d, 404, None, String::new()).unwrap();
    assert_eq!(st, UploadState::Starting);
    assert_eq!(next, Some("https://ghcr.io/v2/org/tool/blobs/uploads/".to_string()));
    // a started upload without a location fails
    match upload_step(UploadState::Starting, &reg, d, 202, None, String::new()) {
        Err(OciError::InvalidManifest(m)) => assert_eq!(m, "Missing upload location"),
        _ => panic!("expected a missing location"),
    }
    let (st, next) = upload_step(UploadState::Starting, &reg, d, 202, Some("/v2/org/tool/blobs/uploads/u1"), String::new()).unwrap();
    assert_eq!(st, UploadState::Sending);
    assert_eq!(next, Some("https://ghcr.io/v2/org/tool/blobs/uploads/u1?digest=sha256:abc".to_string()));
    assert!(matches!(
        upload_step(UploadState::Starting, &reg, d, 401, None, String::new()),
        Err(OciError::AuthenticationRequired)
    ));
    match upload_step(UploadState::Sending, &reg, d, 500, None, "boom".to_string()) {
        Err(OciError::RegistryError { status, message }) => {
            assert_eq!(status, 500);
            assert_eq!(message, "boom");
        }
        _ => panic!("expected a registry error"),
    }
    let (st, _) = upload_step(UploadState::Sending, &reg, d, 201, None, String::new()).unwrap();
    assert_eq!(st, UploadState::Done);
}

#[test]
fn bundle_cache_history() {
    let mut cache = BundleCache::new("/cache".to_string());
    let uri = "oci://ghcr.io/org/tool:v1";
    assert!(!cache.has_bundle(uri));
    cache.index_put(uri, "/cache/a".to_string());
    assert!(cache.has_bundle(uri));
    cache.index_remove(uri);
    assert!(!cache.has_bundle(uri));
    cache.index_put(uri, "/cache/a".to_string());
    cache.index_clear();
    assert!(!cache.has_bundle(uri));
}
