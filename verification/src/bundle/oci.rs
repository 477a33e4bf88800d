use vstd::prelude::*;

use crate::bundle::BundleError;
use crate::config::types::DistributionConfig;
use crate::text::{
    ascii_ci_eq, ascii_ci_eq_range, chars_of, concat_str, contains_char, ends_with, first_index,
    first_index_of, has_char, has_prefix, has_suffix, push_char, split_on, split_vec, starts_with,
    str_eq, string_from_chars, sub_vec, trim_quotes, trim_quotes_vec, trim_vec, trim_ws,
};

verus! {

/// OCI-specific errors. Failures of the HTTP client are carried as their messages.
#[derive(Debug)]
pub enum OciError {
    /// HTTP request failed
    HttpError(String),
    /// Registry returned an error status
    RegistryError {
        /// The HTTP status
        status: u16,
        /// The message
        message: String,
    },
    /// Invalid manifest format
    InvalidManifest(String),
    /// Layer not found
    LayerNotFound(String),
    /// Authentication required
    AuthenticationRequired,
    /// Unsupported media type
    UnsupportedMediaType(String),
}

/// OCI manifest structure
#[derive(Debug, Clone)]
pub struct OciManifest {
    /// Schema version
    pub schema_version: u32,
    /// Media type
    pub media_type: String,
    /// The config descriptor
    pub config: OciDescriptor,
    /// The layer descriptors
    pub layers: Vec<OciDescriptor>,
    /// Annotations by name
    pub annotations: Option<Vec<(String, String)>>,
}

/// OCI descriptor for layers and config
#[derive(Debug, Clone)]
pub struct OciDescriptor {
    /// Media type
    pub media_type: String,
    /// Digest
    pub digest: String,
    /// Size in bytes
    pub size: i64,
    /// Annotations by name
    pub annotations: Option<Vec<(String, String)>>,
}

/// OCI config structure
#[derive(Debug, Clone)]
pub struct OciConfig {
    /// Architecture
    pub architecture: String,
    /// Operating system
    pub os: String,
    /// Root file system
    pub root_fs: RootFs,
    /// History
    pub history: Vec<History>,
}

/// The root file system of an OCI config
#[derive(Debug, Clone)]
pub struct RootFs {
    /// File system type
    pub fs_type: String,
    /// Layer diff ids
    pub diff_ids: Vec<String>,
}

/// A history entry of an OCI config
#[derive(Debug, Clone)]
pub struct History {
    /// Creation time
    pub created: String,
    /// Creator
    pub created_by: String,
}

/// Media type of the WASM module layer
pub const MEDIA_TYPE_WASM: &'static str = "application/vnd.mcpkit.wasm.module.v1";

/// Media type of the configuration layer
pub const MEDIA_TYPE_CONFIG_YAML: &'static str = "application/vnd.mcpkit.config.v1+yaml";

/// Media type of OCI manifests
pub const MEDIA_TYPE_OCI_MANIFEST: &'static str = "application/vnd.oci.image.manifest.v1+json";

/// Media type of OCI configs
pub const MEDIA_TYPE_OCI_CONFIG: &'static str = "application/vnd.oci.image.config.v1+json";

// ----- registry URLs -----

/// OCI Registry URL builder
#[derive(Debug, Clone)]
pub struct RegistryUrl {
    /// Registry host (and port)
    pub registry: String,
    /// Repository path
    pub repository: String,
    /// `http` or `https`
    pub scheme: String,
}

/// A registry on the local machine, by its name's start.
pub open spec fn local_registry(r: Seq<char>) -> bool {
    has_prefix(r, "localhost"@) || has_prefix(r, "127."@) || has_prefix(r, "0.0.0.0"@) || has_prefix(
        r,
        "[::1]"@,
    )
}

/// Loopback registries are reached over plain HTTP: a registry whose name starts with
/// `localhost`, `127.`, `0.0.0.0` or `[::1]` is insecure whatever the list says; and with
/// no list, those are the only insecure registries.
pub proof fn lemma_loopback_insecure(r: Seq<char>, list: Option<Seq<char>>)
    ensures
        (has_prefix(r, "localhost"@) || has_prefix(r, "127."@) || has_prefix(r, "0.0.0.0"@)
            || has_prefix(r, "[::1]"@)) ==> insecure(r, list),
        insecure(r, None) <==> (has_prefix(r, "localhost"@) || has_prefix(r, "127."@) || has_prefix(
            r,
            "0.0.0.0"@,
        ) || has_prefix(r, "[::1]"@)),
{
}

/// The host of `host[:port]`: what comes before the first `:`.
pub open spec fn host_part(s: Seq<char>) -> Seq<char> {
    match first_index_of(s, ':') {
        Some(i) => s.subrange(0, i),
        None => s,
    }
}

/// An item of the insecure-registry list names the registry: equal but for ASCII case,
/// or with an equal host.
pub open spec fn item_names(r: Seq<char>, item: Seq<char>) -> bool {
    let it = trim_ws(item);
    it.len() > 0 && (ascii_ci_eq(r, it) || (host_part(it).len() > 0 && ascii_ci_eq(
        host_part(r),
        host_part(it),
    )))
}

/// A registry reached over plain HTTP: a local one, or one that the comma-separated list
/// (the `MCPKIT_INSECURE_REGISTRIES` variable, when set) names.
pub open spec fn insecure(r: Seq<char>, list: Option<Seq<char>>) -> bool {
    local_registry(r) || match list {
        Some(l) => listed(r, l),
        None => false,
    }
}

/// Some item of the comma-separated list names the registry.
pub open spec fn listed(r: Seq<char>, l: Seq<char>) -> bool {
    exists|i: int| 0 <= i < split_on(l, ',').len() && item_names(r, #[trigger] split_on(l, ',')[i])
}

fn host_of(v: &Vec<char>) -> (r: Vec<char>)
    ensures
        r@ == host_part(v@),
{
    match first_index(v, ':') {
        Some(i) => sub_vec(v, 0, i),
        None => sub_vec(v, 0, v.len()),
    }
}

fn names_registry(r: &Vec<char>, item: &Vec<char>) -> (b: bool)
    ensures
        b == item_names(r@, item@),
{
    let it = trim_vec(item);
    if it.len() == 0 {
        return false;
    }
    if ascii_ci_eq_range(r, 0, r.len(), &it) {
        assert(r@.subrange(0, r.len() as int) =~= r@);
        return true;
    }
    assert(r@.subrange(0, r.len() as int) =~= r@);
    let ih = host_of(&it);
    let rh = host_of(r);
    let same = ih.len() > 0 && ascii_ci_eq_range(&rh, 0, rh.len(), &ih);
    assert(rh@.subrange(0, rh.len() as int) =~= rh@);
    same
}

impl RegistryUrl {
    /// Whether a registry is reached over plain HTTP. `insecure_list` is the value of the
    /// `MCPKIT_INSECURE_REGISTRIES` variable, when it is set.
    pub fn is_insecure_registry(registry: &str, insecure_list: Option<&str>) -> (r: bool)
        ensures
            r == insecure(
                registry@,
                match insecure_list {
                    Some(l) => Some(l@),
                    None => None,
                },
            ),
    {
        if starts_with(registry, "localhost") || starts_with(registry, "127.") || starts_with(
            registry,
            "0.0.0.0",
        ) || starts_with(registry, "[::1]") {
            return true;
        }
        match insecure_list {
            None => false,
            Some(list) => {
                let reg = chars_of(registry);
                let items = split_vec(&chars_of(list), ',');
                let ghost pieces = split_on(list@, ',');
                let mut i: usize = 0;
                while i < items.len()
                    invariant
                        i <= items.len(),
                        reg@ == registry@,
                        insecure_list == Some(list),
                        !local_registry(registry@),
                        items@.map_values(|x: Vec<char>| x@) == pieces,
                        pieces == split_on(list@, ','),
                        forall|k: int| 0 <= k < i ==> !item_names(reg@, #[trigger] pieces[k]),
                    decreases items.len() - i,
                {
                    assert(pieces[i as int] == items@[i as int]@);
                    if names_registry(&reg, &items[i]) {
                        assert(item_names(registry@, split_on(list@, ',')[i as int]));
                        return true;
                    }
                    i = i + 1;
                }
                false
            },
        }
    }

    /// The URLs of a repository, over HTTP for insecure registries and HTTPS otherwise
    pub fn new(registry: &str, repository: &str, insecure_list: Option<&str>) -> (r: RegistryUrl)
        ensures
            r.registry@ == registry@,
            r.repository@ == repository@,
            r.scheme@ == (if insecure(
                registry@,
                match insecure_list {
                    Some(l) => Some(l@),
                    None => None,
                },
            ) {
                "http"@
            } else {
                "https"@
            }),
    {
        let scheme = if Self::is_insecure_registry(registry, insecure_list) {
            "http"
        } else {
            "https"
        };
        RegistryUrl {
            registry: registry.to_string(),
            repository: repository.to_string(),
            scheme: scheme.to_string(),
        }
    }

    /// The base URL: scheme and registry.
    pub open spec fn spec_base_url(self) -> Seq<char> {
        self.scheme@ + "://"@ + self.registry@
    }

    /// The registry's base URL
    pub fn base_url(&self) -> (r: String)
        ensures
            r@ == self.spec_base_url(),
    {
        let a = concat_str(self.scheme.as_str(), "://");
        concat_str(a.as_str(), self.registry.as_str())
    }

    fn repo_url(&self, middle: &str, last: &str) -> (r: String)
        ensures
            r@ == self.spec_base_url() + "/v2/"@ + self.repository@ + middle@ + last@,
    {
        let a = self.base_url();
        let b = concat_str(a.as_str(), "/v2/");
        let c = concat_str(b.as_str(), self.repository.as_str());
        let d = concat_str(c.as_str(), middle);
        concat_str(d.as_str(), last)
    }

    /// The URL of a blob
    pub fn blob_url(&self, digest: &str) -> (r: String)
        ensures
            r@ == self.spec_base_url() + "/v2/"@ + self.repository@ + "/blobs/"@ + digest@,
    {
        self.repo_url("/blobs/", digest)
    }

    /// The URL that starts a blob upload
    pub fn upload_initiation_url(&self) -> (r: String)
        ensures
            r@ == self.spec_base_url() + "/v2/"@ + self.repository@ + "/blobs/uploads/"@ + ""@,
    {
        self.repo_url("/blobs/uploads/", "")
    }

    /// The URL of a manifest
    pub fn manifest_url(&self, tag: &str) -> (r: String)
        ensures
            r@ == self.spec_base_url() + "/v2/"@ + self.repository@ + "/manifests/"@ + tag@,
    {
        self.repo_url("/manifests/", tag)
    }

    /// The token scope for actions on the repository
    pub fn scope(&self, actions: &str) -> (r: String)
        ensures
            r@ == "repository:"@ + self.repository@ + ":"@ + actions@,
    {
        let a = concat_str("repository:", self.repository.as_str());
        let b = concat_str(a.as_str(), ":");
        concat_str(b.as_str(), actions)
    }
}

// ----- authentication -----

/// The credentials of registry requests
#[derive(Debug, Default)]
pub struct AuthContext {
    /// User name and password
    pub basic: Option<(String, String)>,
    /// Bearer token
    pub bearer: Option<String>,
}

impl AuthContext {
    /// No credentials
    pub fn anonymous() -> (r: AuthContext)
        ensures
            r.basic is None,
            r.bearer is None,
    {
        AuthContext { basic: None, bearer: None }
    }

    /// A user name and password
    pub fn with_basic(username: String, password: String) -> (r: AuthContext)
        ensures
            r.basic == Some((username, password)),
            r.bearer is None,
    {
        AuthContext { basic: Some((username, password)), bearer: None }
    }

    /// The user name and password, if any
    pub fn basic_credentials(&self) -> (r: Option<(&str, &str)>)
        ensures
            match self.basic {
                Some((u, p)) => r matches Some((a, b)) && a@ == u@ && b@ == p@,
                None => r is None,
            },
    {
        match &self.basic {
            Some((u, p)) => Some((u.as_str(), p.as_str())),
            None => None,
        }
    }

    /// The bearer token, if any
    pub fn bearer_token(&self) -> (r: Option<&str>)
        ensures
            match self.bearer {
                Some(t) => r matches Some(a) && a@ == t@,
                None => r is None,
            },
    {
        match &self.bearer {
            Some(t) => Some(t.as_str()),
            None => None,
        }
    }

    /// Whether a bearer token can be fetched: only with a user name and password
    pub fn can_fetch_token(&self) -> (r: bool)
        ensures
            r == self.basic is Some,
    {
        self.basic.is_some()
    }

    /// Takes the token of a token response: `token`, else `access_token`; without either,
    /// authentication is required.
    pub fn accept_token(&mut self, token: Option<String>, access_token: Option<String>) -> (r: Result<(), OciError>)
        ensures
            final(self).basic == old(self).basic,
            match token {
                Some(t) => r is Ok && final(self).bearer == Some(t),
                None => match access_token {
                    Some(t) => r is Ok && final(self).bearer == Some(t),
                    None => r matches Err(OciError::AuthenticationRequired) && final(self).bearer
                        == old(self).bearer,
                },
            },
    {
        let chosen = match token {
            Some(t) => t,
            None => match access_token {
                Some(t) => t,
                None => {
                    return Err(OciError::AuthenticationRequired);
                },
            },
        };
        self.bearer = Some(chosen);
        Ok(())
    }
}

/// A bearer authentication challenge (`WWW-Authenticate: Bearer realm=...`)
#[derive(Debug, Clone)]
pub struct BearerChallenge {
    /// Where tokens are fetched
    pub realm: String,
    /// The service
    pub service: Option<String>,
    /// The scope
    pub scope: Option<String>,
}

/// The key of a challenge parameter: before the first `=`, trimmed.
pub open spec fn param_key(t: Seq<char>) -> Seq<char> {
    match first_index_of(t, '=') {
        Some(i) => trim_ws(t.subrange(0, i)),
        None => trim_ws(t),
    }
}

/// The value of a challenge parameter: after the first `=`, trimmed and unquoted; empty
/// without `=`.
pub open spec fn param_value(t: Seq<char>) -> Seq<char> {
    match first_index_of(t, '=') {
        Some(i) => trim_quotes(trim_ws(t.subrange(i + 1, t.len() as int))),
        None => seq![],
    }
}

/// The value of the last parameter named `key`.
pub open spec fn param_of(parts: Seq<Seq<char>>, key: Seq<char>) -> Option<Seq<char>>
    decreases parts.len(),
{
    if parts.len() == 0 {
        None
    } else if param_key(trim_ws(parts.last())) == key {
        Some(param_value(trim_ws(parts.last())))
    } else {
        param_of(parts.drop_last(), key)
    }
}

/// The parameters of a challenge: the comma-separated list after the scheme.
pub open spec fn challenge_params(header: Seq<char>) -> Option<Seq<Seq<char>>> {
    let h = trim_ws(header);
    match first_index_of(h, ' ') {
        None => None,
        Some(i) => if ascii_ci_eq(h.subrange(0, i), "bearer"@) {
            Some(split_on(h.subrange(i + 1, h.len() as int), ','))
        } else {
            None
        },
    }
}

/// The name of the realm parameter.
pub open spec fn realm_name() -> Seq<char> {
    seq!['r', 'e', 'a', 'l', 'm']
}

/// The name of the service parameter.
pub open spec fn service_name() -> Seq<char> {
    seq!['s', 'e', 'r', 'v', 'i', 'c', 'e']
}

/// The name of the scope parameter.
pub open spec fn scope_name() -> Seq<char> {
    seq!['s', 'c', 'o', 'p', 'e']
}

/// A challenge read from a header: realm, service and scope, when the scheme is `Bearer`
/// and there is a realm.
pub open spec fn challenge_of(header: Seq<char>) -> Option<(Seq<char>, Option<Seq<char>>, Option<Seq<char>>)> {
    match challenge_params(header) {
        None => None,
        Some(parts) => match param_of(parts, realm_name()) {
            None => None,
            Some(r) => Some((r, param_of(parts, service_name()), param_of(parts, scope_name()))),
        },
    }
}

/// The text of an optional value.
pub open spec fn opt_text(o: Option<String>) -> Option<Seq<char>> {
    match o {
        Some(s) => Some(s@),
        None => None,
    }
}

fn parse_param(part: &Vec<char>) -> (r: (Vec<char>, Vec<char>))
    ensures
        r.0@ == param_key(trim_ws(part@)),
        r.1@ == param_value(trim_ws(part@)),
{
    let t = trim_vec(part);
    match first_index(&t, '=') {
        Some(i) => {
            let key = trim_vec(&sub_vec(&t, 0, i));
            let value = trim_quotes_vec(&trim_vec(&sub_vec(&t, i + 1, t.len())));
            (key, value)
        },
        None => {
            let key = trim_vec(&t);
            (key, Vec::new())
        },
    }
}

impl BearerChallenge {
    /// Parse a `WWW-Authenticate` header
    pub fn parse(header: &str) -> (r: Option<BearerChallenge>)
        ensures
            match challenge_of(header@) {
                Some((realm, service, scope)) => r matches Some(c) && c.realm@ == realm
                    && opt_text(c.service) == service && opt_text(c.scope) == scope,
                None => r is None,
            },
    {
        let h = trim_vec(&chars_of(header));
        let sp = match first_index(&h, ' ') {
            Some(i) => i,
            None => {
                return None;
            },
        };
        let bearer = chars_of("bearer");
        if !ascii_ci_eq_range(&h, 0, sp, &bearer) {
            return None;
        }
        let params = sub_vec(&h, sp + 1, h.len());
        let parts = split_vec(&params, ',');
        let ghost ps = split_on(params@, ',');
        let realm_key = vec!['r', 'e', 'a', 'l', 'm'];
        let service_key = vec!['s', 'e', 'r', 'v', 'i', 'c', 'e'];
        let scope_key = vec!['s', 'c', 'o', 'p', 'e'];
        let mut realm: Option<String> = None;
        let mut service: Option<String> = None;
        let mut scope: Option<String> = None;
        let mut i: usize = 0;
        assert(ps.subrange(0, 0) =~= Seq::<Seq<char>>::empty());
        while i < parts.len()
            invariant
                i <= parts.len(),
                parts@.map_values(|x: Vec<char>| x@) == ps,
                realm_key@ == realm_name(),
                service_key@ == service_name(),
                scope_key@ == scope_name(),
                opt_text(realm) == param_of(ps.subrange(0, i as int), realm_name()),
                opt_text(service) == param_of(ps.subrange(0, i as int), service_name()),
                opt_text(scope) == param_of(ps.subrange(0, i as int), scope_name()),
            decreases parts.len() - i,
        {
            let ghost next = ps.subrange(0, i + 1);
            assert(next.drop_last() =~= ps.subrange(0, i as int));
            assert(next.last() == parts@[i as int]@);
            let (key, value) = parse_param(&parts[i]);
            if crate::text::chars_eq(&key, &realm_key) {
                realm = Some(string_from_chars(&value));
            } else if crate::text::chars_eq(&key, &service_key) {
                service = Some(string_from_chars(&value));
            } else if crate::text::chars_eq(&key, &scope_key) {
                scope = Some(string_from_chars(&value));
            }
            i = i + 1;
        }
        assert(ps.subrange(0, i as int) =~= ps);
        proof {
            assert(h@.subrange(0, sp as int) =~= h@.subrange(0, sp as int));
        }
        match realm {
            Some(r) => Some(BearerChallenge { realm: r, service, scope }),
            None => None,
        }
    }
}

/// What to do with the answer to a registry request.
#[derive(Debug, Clone)]
pub enum AuthStep {
    /// Take the response as it is
    Respond,
    /// Fail: authentication is required
    Refuse,
    /// Fetch a bearer token for the challenge, then send the request again
    Refresh(BearerChallenge),
}

/// Decides what follows a response with HTTP status `status` on the `attempts`-th try: any
/// answer but 401 is taken; a 401 fails without credentials to fetch a token with, after
/// three tries, or without a bearer challenge in `www_authenticate`; otherwise a token is
/// fetched for the challenge.
pub fn next_auth_step(status: u16, attempts: u32, can_fetch: bool, www_authenticate: Option<&str>) -> (r: AuthStep)
    ensures
        status != 401 ==> r is Respond,
        status == 401 && (!can_fetch || attempts >= 3) ==> r is Refuse,
        status == 401 && can_fetch && attempts < 3 ==> match www_authenticate {
            None => r is Refuse,
            Some(h) => match challenge_of(h@) {
                None => r is Refuse,
                Some((realm, service, scope)) => r matches AuthStep::Refresh(c) && c.realm@
                    == realm && opt_text(c.service) == service && opt_text(c.scope) == scope,
            },
        },
{
    if status != 401 {
        return AuthStep::Respond;
    }
    if !can_fetch || attempts >= 3 {
        return AuthStep::Refuse;
    }
    match www_authenticate {
        None => AuthStep::Refuse,
        Some(h) => match BearerChallenge::parse(h) {
            Some(c) => AuthStep::Refresh(c),
            None => AuthStep::Refuse,
        },
    }
}

// ----- requests and their answers -----

/// The name of an environment variable that a value refers to as `${NAME}`.
pub open spec fn env_reference(v: Seq<char>) -> Option<Seq<char>> {
    if has_prefix(v, "${"@) && has_suffix(v, "}"@) && v.len() >= 3 {
        Some(v.subrange(2, v.len() - 1))
    } else {
        None
    }
}

/// The environment variable that a value refers to as `${NAME}`, if it does.
pub fn env_var_name(value: &str) -> (r: Option<String>)
    ensures
        opt_text(r) == env_reference(value@),
{
    proof {
        reveal_strlit("${");
        reveal_strlit("}");
    }
    if starts_with(value, "${") && ends_with(value, "}") {
        let v = chars_of(value);
        if v.len() >= 3 {
            return Some(string_from_chars(&sub_vec(&v, 2, v.len() - 1)));
        }
    }
    None
}

/// Expands a value that refers to an environment variable as `${NAME}`: `var_value` is
/// the variable's value when it is set. Any other value stands for itself.
pub fn expand_env_var(value: &str, var_value: Option<String>) -> (r: Result<String, BundleError>)
    ensures
        match env_reference(value@) {
            None => r matches Ok(s) && s@ == value@,
            Some(name) => match var_value {
                Some(x) => r == Ok::<String, BundleError>(x),
                None => r matches Err(BundleError::ConfigError(m)) && m@ == "Required environment variable '"@
                    + name + "' is not set. Please set it before running this command."@,
            },
        },
{
    match env_var_name(value) {
        None => Ok(value.to_string()),
        Some(name) => match var_value {
            Some(x) => Ok(x),
            None => {
                let a = concat_str("Required environment variable '", name.as_str());
                Err(
                    BundleError::ConfigError(
                        concat_str(
                            a.as_str(),
                            "' is not set. Please set it before running this command.",
                        ),
                    ),
                )
            },
        },
    }
}

/// The OCI config of a bundle made at the time `created` (RFC 3339)
pub fn create_oci_config(created: String) -> (r: OciConfig)
    ensures
        r.architecture@ == "wasm"@,
        r.os@ == "wasi"@,
        r.root_fs.fs_type@ == "layers"@,
        r.root_fs.diff_ids@.len() == 0,
        r.history@.len() == 1,
        r.history@[0].created == created,
        r.history@[0].created_by@ == "mcpkit-rs"@,
{
    let mut history: Vec<History> = Vec::new();
    history.push(History { created, created_by: "mcpkit-rs".to_string() });
    OciConfig {
        architecture: "wasm".to_string(),
        os: "wasi".to_string(),
        root_fs: RootFs { fs_type: "layers".to_string(), diff_ids: Vec::new() },
        history,
    }
}

fn descriptor(media_type: &str, digest: &str, size: u64) -> (r: OciDescriptor)
    requires
        size <= i64::MAX,
    ensures
        r.media_type@ == media_type@,
        r.digest@ == digest@,
        r.size == size,
        r.annotations is None,
{
    OciDescriptor {
        media_type: media_type.to_string(),
        digest: digest.to_string(),
        size: size as i64,
        annotations: None,
    }
}

/// The manifest of a pushed bundle: the OCI config, then the WASM module and the
/// configuration as layers, annotated with the bundle's version (its tag).
pub fn build_manifest(
    config_digest: &str,
    config_size: u64,
    wasm_digest: &str,
    wasm_size: u64,
    yaml_digest: &str,
    yaml_size: u64,
    tag: &str,
) -> (r: OciManifest)
    requires
        config_size <= i64::MAX,
        wasm_size <= i64::MAX,
        yaml_size <= i64::MAX,
    ensures
        r.schema_version == 2,
        r.media_type@ == MEDIA_TYPE_OCI_MANIFEST@,
        r.config.media_type@ == MEDIA_TYPE_OCI_CONFIG@,
        r.config.digest@ == config_digest@,
        r.config.size == config_size,
        r.layers@.len() == 2,
        r.layers@[0].media_type@ == MEDIA_TYPE_WASM@,
        r.layers@[0].digest@ == wasm_digest@,
        r.layers@[0].size == wasm_size,
        r.layers@[1].media_type@ == MEDIA_TYPE_CONFIG_YAML@,
        r.layers@[1].digest@ == yaml_digest@,
        r.layers@[1].size == yaml_size,
        r.annotations matches Some(a) && a@.len() == 1 && a@[0].0@ == "org.mcpkit.bundle.version"@
            && a@[0].1@ == tag@,
{
    let mut layers: Vec<OciDescriptor> = Vec::new();
    layers.push(descriptor(MEDIA_TYPE_WASM, wasm_digest, wasm_size));
    layers.push(descriptor(MEDIA_TYPE_CONFIG_YAML, yaml_digest, yaml_size));
    let mut annotations: Vec<(String, String)> = Vec::new();
    annotations.push(("org.mcpkit.bundle.version".to_string(), tag.to_string()));
    OciManifest {
        schema_version: 2,
        media_type: MEDIA_TYPE_OCI_MANIFEST.to_string(),
        config: descriptor(MEDIA_TYPE_OCI_CONFIG, config_digest, config_size),
        layers,
        annotations: Some(annotations),
    }
}

/// The first layer with the media type.
pub open spec fn layer_index(layers: Seq<OciDescriptor>, media_type: Seq<char>) -> Option<int>
    decreases layers.len(),
{
    if layers.len() == 0 {
        None
    } else if layers[0].media_type@ == media_type {
        Some(0)
    } else {
        match layer_index(layers.drop_first(), media_type) {
            Some(i) => Some(i + 1),
            None => None,
        }
    }
}

/// Finds the first layer of a manifest with a media type; `what` names it in the error.
pub fn find_layer<'a>(manifest: &'a OciManifest, media_type: &str, what: &str) -> (r: Result<
    &'a OciDescriptor,
    OciError,
>)
    ensures
        match layer_index(manifest.layers@, media_type@) {
            Some(i) => r matches Ok(d) && *d == manifest.layers@[i],
            None => r matches Err(OciError::LayerNotFound(m)) && m@ == what@,
        },
{
    let mut i: usize = 0;
    assert(manifest.layers@.skip(0) =~= manifest.layers@);
    while i < manifest.layers.len()
        invariant
            i <= manifest.layers.len(),
            forall|j: int| 0 <= j < i ==> (#[trigger] manifest.layers@[j]).media_type@ != media_type@,
            layer_index(manifest.layers@, media_type@) == match layer_index(
                manifest.layers@.skip(i as int),
                media_type@,
            ) {
                Some(k) => Some(k + i),
                None => None::<int>,
            },
        decreases manifest.layers.len() - i,
    {
        assert(manifest.layers@.skip(i as int).drop_first() =~= manifest.layers@.skip(i + 1));
        if str_eq(manifest.layers[i].media_type.as_str(), media_type) {
            return Ok(&manifest.layers[i]);
        }
        i = i + 1;
    }
    Err(OciError::LayerNotFound(what.to_string()))
}

/// The URL that an upload's content is put to, from the `location` the registry gave:
/// absolute (`http...`) as it is, otherwise relative to the base URL (with a leading `/`),
/// and then `digest=<digest>` as a further query parameter.
pub open spec fn put_url(base: Seq<char>, location: Seq<char>, digest: Seq<char>) -> Seq<char> {
    let (url, has_query) = if has_prefix(location, "http"@) {
        (location, has_char(location, '?'))
    } else {
        let relative = if location.len() > 0 && location[0] == '/' {
            location
        } else {
            seq!['/'] + location
        };
        (base + relative, has_char(relative, '?'))
    };
    url + seq![if has_query {
        '&'
    } else {
        '?'
    }] + "digest="@ + digest
}

/// Builds the URL that an upload's content is put to
pub fn upload_put_url(base_url: &str, location: &str, digest: &str) -> (r: String)
    ensures
        r@ == put_url(base_url@, location@, digest@),
{
    let (mut url, has_query) = if starts_with(location, "http") {
        (location.to_string(), contains_char(&chars_of(location), '?'))
    } else {
        let lv = chars_of(location);
        let relative = if lv.len() > 0 && lv[0] == '/' {
            location.to_string()
        } else {
            let mut r = String::new();
            push_char(&mut r, '/');
            concat_str(r.as_str(), location)
        };
        let q = contains_char(&chars_of(relative.as_str()), '?');
        (concat_str(base_url, relative.as_str()), q)
    };
    push_char(&mut url, if has_query {
        '&'
    } else {
        '?'
    });
    let u = concat_str(url.as_str(), "digest=");
    concat_str(u.as_str(), digest)
}

/// Whether `e` is the error for a failed upload start with HTTP status `status` and
/// response `body`: authentication is required on 401, the token lacks a scope on 403,
/// the method is not allowed on 405, and otherwise the registry's own answer.
pub open spec fn start_refused(e: OciError, status: u16, body: Seq<char>, upload_url: Seq<char>) -> bool {
    &&& status == 401 ==> e is AuthenticationRequired
    &&& status == 403 ==> (e matches OciError::RegistryError { status: s, message: m } && s == 403
        && m@ == "Permission denied. Check your access token has 'write:packages' scope."@)
    &&& status == 405 ==> (e matches OciError::RegistryError { status: s, message: m } && s == 405
        && m@ == "Method not allowed. Registry may not support this operation. URL: "@ + upload_url
        + ", Error: "@ + body)
    &&& status != 401 && status != 403 && status != 405 ==> (e matches OciError::RegistryError {
        status: s,
        message: m,
    } && s == status && m@ == body)
}

/// The error for a failed upload start with HTTP status `status` and response `body`.
pub fn upload_failure(status: u16, body: String, upload_url: &str) -> (r: OciError)
    ensures
        start_refused(r, status, body@, upload_url@),
{
    if status == 401 {
        OciError::AuthenticationRequired
    } else if status == 403 {
        OciError::RegistryError {
            status: 403,
            message: "Permission denied. Check your access token has 'write:packages' scope.".to_string(),
        }
    } else if status == 405 {
        let a = concat_str(
            "Method not allowed. Registry may not support this operation. URL: ",
            upload_url,
        );
        let b = concat_str(a.as_str(), ", Error: ");
        OciError::RegistryError { status: 405, message: concat_str(b.as_str(), body.as_str()) }
    } else {
        OciError::RegistryError { status, message: body }
    }
}

/// Where a blob upload stands: which request was last sent.
#[derive(Debug, Clone, Copy, PartialEq, Eq, Structural)]
pub enum UploadState {
    /// Asked whether the registry has the blob already (`HEAD` on the blob's URL)
    Checking,
    /// Started an upload (`POST` to the upload URL)
    Starting,
    /// Sent the content (`PUT` to the URL the registry gave)
    Sending,
    /// The registry holds the blob
    Done,
}

/// An HTTP status that reports success.
pub open spec fn success(status: u16) -> bool {
    200 <= status && status < 300
}

/// The URL that starts a blob upload.
pub open spec fn spec_upload_url(reg: RegistryUrl) -> Seq<char> {
    reg.spec_base_url() + "/v2/"@ + reg.repository@ + "/blobs/uploads/"@
}

/// The next step of a blob upload from the registry's answer (`status`, the `location`
/// header when it has one, and the `body`) to the request last sent in `state`, with the
/// URL of the next request:
/// - a blob the registry already has is not uploaded again;
/// - otherwise an upload is started at the upload URL;
/// - a started upload sends the content to the URL built from its location, and fails
///   when the registry gives no location or refuses the start;
/// - a sent content that the registry refuses fails with its answer.
pub fn upload_step(
    state: UploadState,
    reg: &RegistryUrl,
    digest: &str,
    status: u16,
    location: Option<&str>,
    body: String,
) -> (r: Result<(UploadState, Option<String>), OciError>)
    ensures
        match state {
            UploadState::Checking => if success(status) {
                r matches Ok((UploadState::Done, None))
            } else {
                r matches Ok((UploadState::Starting, Some(u))) && u@ == spec_upload_url(*reg)
            },
            UploadState::Starting => if !success(status) {
                r matches Err(e) && start_refused(e, status, body@, spec_upload_url(*reg))
            } else {
                match location {
                    None => r matches Err(OciError::InvalidManifest(m)) && m@
                        == "Missing upload location"@,
                    Some(l) => r matches Ok((UploadState::Sending, Some(u))) && u@ == put_url(
                        reg.spec_base_url(),
                        l@,
                        digest@,
                    ),
                }
            },
            UploadState::Sending => if success(status) {
                r matches Ok((UploadState::Done, None))
            } else {
                r matches Err(OciError::RegistryError { status: s, message: m }) && s == status && m
                    == body
            },
            UploadState::Done => r matches Ok((UploadState::Done, None)),
        },
{
    let ok = 200 <= status && status < 300;
    match state {
        UploadState::Checking => {
            if ok {
                Ok((UploadState::Done, None))
            } else {
                let u = reg.upload_initiation_url();
                proof {
                    reveal_strlit("");
                    assert(u@ =~= spec_upload_url(*reg));
                }
                Ok((UploadState::Starting, Some(u)))
            }
        },
        UploadState::Starting => {
            if !ok {
                let u = reg.upload_initiation_url();
                proof {
                    reveal_strlit("");
                    assert(u@ =~= spec_upload_url(*reg));
                }
                Err(upload_failure(status, body, u.as_str()))
            } else {
                match location {
                    None => Err(OciError::InvalidManifest("Missing upload location".to_string())),
                    Some(l) => {
                        let base = reg.base_url();
                        Ok((UploadState::Sending, Some(upload_put_url(base.as_str(), l, digest))))
                    },
                }
            }
        },
        UploadState::Sending => {
            if ok {
                Ok((UploadState::Done, None))
            } else {
                Err(OciError::RegistryError { status, message: body })
            }
        },
        UploadState::Done => Ok((UploadState::Done, None)),
    }
}

/// The URI a bundle is pushed to when none is given: `oci://<registry>:<tag>`, with the
/// distribution's first tag, or `latest` when it has none.
pub fn distribution_uri(dist: &DistributionConfig) -> (r: String)
    ensures
        r@ == "oci://"@ + dist.registry@ + ":"@ + if dist.tags@.len() > 0 {
            dist.tags@[0]@
        } else {
            "latest"@
        },
{
    let head = concat_str("oci://", dist.registry.as_str());
    let head = concat_str(head.as_str(), ":");
    if dist.tags.len() > 0 {
        concat_str(head.as_str(), dist.tags[0].as_str())
    } else {
        concat_str(head.as_str(), "latest")
    }
}

} // verus!
