//! The decisions of running a WASM tool for a client: the policy gate, the context a tool
//! runs in, the credentials' environment variables, and how a failure or an output is
//! answered.

use vstd::prelude::*;

use std::sync::Arc;

use crate::server::policy::ErrorData;
use crate::server::settings::{last_value, wasm_fuel, wasm_limits_fit, wasm_memory_bytes, ServerConfig};
use crate::text::{concat_str, str_eq};
use crate::wasm::context::{tracking_metering, value_of, EnforcementMode, MeteringConfig, WasmContext};
use crate::wasm::execution::{default_fuel, fuel_limit_of};
use crate::wasm::manifest::{
    credential_env, credential_index, dashes_to_underscores, default_env_name, CredentialRequirement,
    EnvVar, WasmToolManifest,
};
use crate::text::to_uppercase;
use crate::wasm::WasmError;

verus! {

/// The text of an error.
pub open spec fn wasm_error_text(e: WasmError) -> Seq<char> {
    match e {
        WasmError::LoadError(s) => "Failed to load WASM module: "@ + s@,
        WasmError::CompileError(s) => "Failed to compile WASM module: "@ + s@,
        WasmError::RuntimeError(s) => "Runtime error: "@ + s@,
        WasmError::CredentialError(s) => "Credential resolution failed: "@ + s@,
        WasmError::Timeout => "Tool execution timeout"@,
        WasmError::ManifestError(s) => "Invalid manifest: "@ + s@,
        WasmError::ToolNotFound(s) => "Tool not found: "@ + s@,
        WasmError::InvalidOutput(s) => "Invalid output from WASM tool: "@ + s@,
    }
}

/// The answer for a tool that is not loaded: an invalid request (-32600).
pub open spec fn not_found(d: ErrorData, name: Seq<char>) -> bool {
    d.code == -32600 && d.message@ == "WASM tool not found: "@ + name && d.data is None
}

/// Whether `d` is how the error `e` is answered to a client: a missing tool as an invalid
/// request (-32600), anything else as an internal error (-32603).
pub open spec fn answers(e: WasmError, d: ErrorData) -> bool {
    &&& d.data is None
    &&& match e {
        WasmError::ToolNotFound(name) => not_found(d, name@),
        WasmError::Timeout => d.code == -32603 && d.message@ == "WASM tool execution timeout"@,
        _ => d.code == -32603 && d.message@ == wasm_error_text(e),
    }
}

impl WasmError {
    /// The error's text
    pub fn message(&self) -> (r: String)
        ensures
            r@ == wasm_error_text(*self),
    {
        match self {
            WasmError::LoadError(s) => concat_str("Failed to load WASM module: ", s.as_str()),
            WasmError::CompileError(s) => concat_str("Failed to compile WASM module: ", s.as_str()),
            WasmError::RuntimeError(s) => concat_str("Runtime error: ", s.as_str()),
            WasmError::CredentialError(s) => concat_str("Credential resolution failed: ", s.as_str()),
            WasmError::Timeout => "Tool execution timeout".to_string(),
            WasmError::ManifestError(s) => concat_str("Invalid manifest: ", s.as_str()),
            WasmError::ToolNotFound(s) => concat_str("Tool not found: ", s.as_str()),
            WasmError::InvalidOutput(s) => concat_str("Invalid output from WASM tool: ", s.as_str()),
        }
    }

    /// The error as answered to a client
    pub fn into_error_data(self) -> (r: ErrorData)
        ensures
            answers(self, r),
    {
        match &self {
            WasmError::ToolNotFound(name) => ErrorData {
                code: -32600,
                message: concat_str("WASM tool not found: ", name.as_str()),
                data: None,
            },
            WasmError::Timeout => ErrorData {
                code: -32603,
                message: "WASM tool execution timeout".to_string(),
                data: None,
            },
            _ => ErrorData { code: -32603, message: self.message(), data: None },
        }
    }
}

/// The answer to a call of a tool that the policy refuses: an invalid request (-32600).
pub open spec fn tool_refused(d: ErrorData, name: Seq<char>) -> bool {
    d.code == -32600 && d.message@ == "Tool '"@ + name + "' is not allowed by policy"@ && d.data is None
}

/// Whether a configuration's policy lets a tool run (always without a configuration or
/// without a policy).
pub open spec fn config_allows(config: Option<&ServerConfig>, name: Seq<char>) -> bool {
    match config {
        Some(c) => match c.compiled_policy {
            Some(p) => p.spec_tool_allowed(name),
            None => true,
        },
        None => true,
    }
}

/// The policy gate in front of a tool call: refused exactly when a configuration is given
/// and its policy does not allow the tool.
pub fn check_tool_policy(config: Option<&ServerConfig>, tool_name: &str) -> (r: Result<(), ErrorData>)
    ensures
        r is Ok <==> config_allows(config, tool_name@),
        r matches Err(d) ==> tool_refused(d, tool_name@),
{
    if let Some(c) = config {
        if !c.is_tool_allowed(tool_name) {
            let a = concat_str("Tool '", tool_name);
            return Err(
                ErrorData {
                    code: -32600,
                    message: concat_str(a.as_str(), "' is not allowed by policy"),
                    data: None,
                },
            );
        }
    }
    Ok(())
}

/// The value given last to a name among a tool's environment variables.
pub open spec fn last_env(vars: Seq<EnvVar>, k: Seq<char>) -> Option<String>
    decreases vars.len(),
{
    if vars.len() == 0 {
        None
    } else if vars.last().name@ == k {
        Some(vars.last().value)
    } else {
        last_env(vars.drop_last(), k)
    }
}

/// The environment a tool is given for a name: its manifest's value, else (under a
/// configuration) the value passed through from the process environment.
pub open spec fn tool_env_value(
    config: Option<&ServerConfig>,
    env: Seq<(String, String)>,
    vars: Seq<EnvVar>,
    k: Seq<char>,
) -> Option<String> {
    match last_env(vars, k) {
        Some(v) => Some(v),
        None => match config {
            Some(_) => last_value(env, k),
            None => None,
        },
    }
}

/// Whether `ctx` is the context a tool with `manifest` runs in for the input `input`:
/// under a configuration, the configuration's context (see
/// [`ServerConfig::create_wasm_context`], with the process environment `env` that it lets
/// through), else a default context; then the input on stdin, the manifest's timeout, its
/// fuel limit where it sets one, and its environment variables. Metering is on and its
/// limits are enforced (see [`tool_metering`]).
pub open spec fn runs_in(
    ctx: WasmContext,
    config: Option<&ServerConfig>,
    env: Seq<(String, String)>,
    manifest: WasmToolManifest,
    input: Seq<u8>,
) -> bool {
    &&& ctx.stdin@ == input
    &&& ctx.timeout_ms == manifest.timeout_seconds * 1000
    &&& ctx.max_fuel == match manifest.max_fuel {
        Some(f) => Some(f),
        None => match config {
            Some(c) => wasm_fuel(*c.config),
            None => None,
        },
    }
    &&& ctx.max_memory_bytes == match config {
        Some(c) => wasm_memory_bytes(*c.config),
        None => 52428800int,
    }
    &&& forall|k: Seq<char>| #[trigger] value_of(ctx.env_vars@, k) == tool_env_value(
        config,
        env,
        manifest.env_vars@,
        k,
    )
    &&& ctx.metering == Some(tool_metering())
    &&& ctx.policy is None
}

/// The metering a tool runs under: that of a new context, with its limits enforced, so
/// that the manifest's fuel limit (or the default for the tool's memory) bounds a run.
pub open spec fn tool_metering() -> MeteringConfig {
    MeteringConfig { enforcement: EnforcementMode::Strict, ..tracking_metering() }
}

/// A tool's run is bounded by fuel: the manifest's fuel limit when it sets one, else the
/// configuration's, else the default for the tool's memory.
pub proof fn lemma_tool_fuel_bounded(
    ctx: WasmContext,
    config: Option<&ServerConfig>,
    env: Seq<(String, String)>,
    manifest: WasmToolManifest,
    input: Seq<u8>,
)
    requires
        runs_in(ctx, config, env, manifest, input),
    ensures
        fuel_limit_of(ctx) == match ctx.max_fuel {
            Some(f) => f,
            None => default_fuel(ctx.max_memory_bytes),
        },
        manifest.max_fuel matches Some(f) ==> fuel_limit_of(ctx) == f,
{
}

/// The context a tool runs in (see [`runs_in`]).
pub fn tool_context(
    config: Option<&ServerConfig>,
    env: &Vec<(String, String)>,
    manifest: &WasmToolManifest,
    input: Vec<u8>,
) -> (r: WasmContext)
    requires
        config matches Some(c) ==> wasm_limits_fit(*c.config),
    ensures
        runs_in(r, config, env@, *manifest, input@),
{
    let base = match config {
        Some(c) => c.create_wasm_context(env),
        None => WasmContext::new(),
    };
    let timeout_ms: u128 = manifest.timeout_seconds as u128 * 1000;
    let mut ctx = base.with_stdin(input).with_timeout(timeout_ms);
    if let Some(fuel) = manifest.max_fuel {
        ctx = ctx.with_max_fuel(fuel);
    }
    if let Some(m) = ctx.metering {
        ctx.metering = Some(MeteringConfig { enforcement: EnforcementMode::Strict, ..m });
    }
    let vars = &manifest.env_vars;
    let mut i: usize = 0;
    assert(vars@.subrange(0, 0).len() == 0);
    while i < vars.len()
        invariant
            i <= vars.len(),
            vars == &manifest.env_vars,
            config matches Some(c) ==> wasm_limits_fit(*c.config),
            ctx.stdin@ == input@,
            ctx.timeout_ms == manifest.timeout_seconds * 1000,
            ctx.max_fuel == match manifest.max_fuel {
                Some(f) => Some(f),
                None => match config {
                    Some(c) => wasm_fuel(*c.config),
                    None => None,
                },
            },
            ctx.max_memory_bytes == match config {
                Some(c) => wasm_memory_bytes(*c.config),
                None => 52428800int,
            },
            forall|k: Seq<char>| #[trigger] value_of(ctx.env_vars@, k) == tool_env_value(
                config,
                env@,
                vars@.subrange(0, i as int),
                k,
            ),
            ctx.metering == Some(tool_metering()),
            ctx.policy is None,
        decreases vars.len() - i,
    {
        let ghost prev = ctx.env_vars@;
        ctx = ctx.with_env(vars[i].name.clone(), vars[i].value.clone());
        proof {
            let sub = vars@.subrange(0, i + 1);
            assert(sub.drop_last() =~= vars@.subrange(0, i as int));
            assert(sub.last() == vars@[i as int]);
        }
        i = i + 1;
    }
    assert(vars@.subrange(0, vars@.len() as int) =~= vars@);
    ctx
}

/// The environment variable a credential is given in: the one the manifest names for the
/// first credential of that name, else the name in upper case with `_` for `-`.
pub fn credential_env_name(manifest: &WasmToolManifest, cred_name: &str) -> (r: String)
    ensures
        r@ == match credential_index(manifest.credentials@, cred_name@) {
            Some(i) => credential_env(manifest.credentials@[i]),
            None => default_env_name(cred_name@),
        },
{
    match manifest.get_credential_env_var(cred_name) {
        Some(v) => v,
        None => dashes_to_underscores(to_uppercase(cred_name).as_str()),
    }
}

/// A resolved credential given to a tool: its value under `env_name`, then the further
/// variables `extra` that the credential brings (a later value for a name replaces an
/// earlier one).
pub fn with_credential(
    ctx: WasmContext,
    env_name: String,
    value: String,
    extra: &Vec<(String, String)>,
) -> (r: WasmContext)
    ensures
        forall|k: Seq<char>| #[trigger] value_of(r.env_vars@, k) == match last_value(extra@, k) {
            Some(v) => Some(v),
            None => if k == env_name@ {
                Some(value)
            } else {
                value_of(ctx.env_vars@, k)
            },
        },
        r == (WasmContext { env_vars: r.env_vars, ..ctx }),
{
    let ghost old_env = ctx.env_vars@;
    let ghost name = env_name@;
    let ghost val = value;
    let mut c = ctx.with_env(env_name, value);
    let mut i: usize = 0;
    while i < extra.len()
        invariant
            i <= extra.len(),
            forall|k: Seq<char>| #[trigger] value_of(c.env_vars@, k) == match last_value(
                extra@.subrange(0, i as int),
                k,
            ) {
                Some(v) => Some(v),
                None => if k == name {
                    Some(val)
                } else {
                    value_of(old_env, k)
                },
            },
            c == (WasmContext { env_vars: c.env_vars, ..ctx }),
        decreases extra.len() - i,
    {
        c = c.with_env(extra[i].0.clone(), extra[i].1.clone());
        proof {
            let sub = extra@.subrange(0, i + 1);
            assert(sub.drop_last() =~= extra@.subrange(0, i as int));
            assert(sub.last() == extra@[i as int]);
        }
        i = i + 1;
    }
    assert(extra@.subrange(0, extra@.len() as int) =~= extra@);
    c
}

/// The answer when a required credential could not be resolved: an internal error
/// (-32603).
pub open spec fn credential_refused(d: ErrorData, name: Seq<char>, error: Seq<char>) -> bool {
    &&& d.code == -32603
    &&& d.message@ == "Failed to resolve required credential '"@ + name + "': "@ + error
    &&& d.data is None
}

/// What a failure to resolve a credential (with the error text `error`) does to a call:
/// a required credential ends it with an error; an optional one is passed over.
pub fn credential_failure(req: &CredentialRequirement, error: &str) -> (r: Option<ErrorData>)
    ensures
        r is Some <==> req.required,
        r matches Some(d) ==> credential_refused(d, req.name@, error@),
{
    if req.required {
        let a = concat_str("Failed to resolve required credential '", req.name.as_str());
        let b = concat_str(a.as_str(), "': ");
        Some(ErrorData { code: -32603, message: concat_str(b.as_str(), error), data: None })
    } else {
        None
    }
}

/// The answer when a tool's run fails: an internal error (-32603), which names a timeout
/// as such.
pub open spec fn run_failure(d: ErrorData, name: Seq<char>, e: WasmError) -> bool {
    &&& d.code == -32603
    &&& d.data is None
    &&& d.message@ == match e {
        WasmError::Timeout => "Tool '"@ + name + "' execution timeout"@,
        _ => "Tool '"@ + name + "' execution failed: "@ + wasm_error_text(e),
    }
}

/// The answer when the tool `tool_name` failed to run with `err`
pub fn execution_failure(tool_name: &str, err: &WasmError) -> (d: ErrorData)
    ensures
        run_failure(d, tool_name@, *err),
{
    let a = concat_str("Tool '", tool_name);
    let message = match err {
        WasmError::Timeout => concat_str(a.as_str(), "' execution timeout"),
        _ => {
            let b = concat_str(a.as_str(), "' execution failed: ");
            concat_str(b.as_str(), err.message().as_str())
        },
    };
    ErrorData { code: -32603, message, data: None }
}

/// The answer when the arguments of a call could not be written as JSON (with the error
/// text `error`): invalid params (-32602).
pub fn input_failure(error: &str) -> (d: ErrorData)
    ensures
        d.code == -32602,
        d.message@ == "Failed to serialize input: "@ + error@,
        d.data is None,
{
    ErrorData { code: -32602, message: concat_str("Failed to serialize input: ", error), data: None }
}

/// The answer when the tool `tool_name` wrote output that is not JSON (with the parser's
/// error text `error`): an internal error (-32603).
pub fn invalid_output(tool_name: &str, error: &str) -> (d: ErrorData)
    ensures
        d.code == -32603,
        d.message@ == "Tool '"@ + tool_name@ + "' produced invalid JSON output: "@ + error@,
        d.data is None,
{
    let a = concat_str("Tool '", tool_name);
    let b = concat_str(a.as_str(), "' produced invalid JSON output: ");
    ErrorData { code: -32603, message: concat_str(b.as_str(), error), data: None }
}

/// What a tool wrote, read as JSON: what the answer to the call depends on
pub enum ToolOutput {
    /// A JSON object
    Object {
        /// Its `error` field, when that is a string
        error: Option<String>,
        /// Its `content` field, as JSON text
        content: Option<String>,
        /// The whole object, as JSON text
        text: String,
    },
    /// Any other JSON value, as JSON text
    Other {
        /// The value, as JSON text
        text: String,
    },
}

/// The result of a tool call
#[derive(Debug, Clone)]
pub struct CallToolResult {
    /// The text contents
    pub content: Vec<String>,
    /// Whether the call failed
    pub is_error: Option<bool>,
}

/// The result of a call from the tool's output: an object's `error` text makes it a
/// failed call; otherwise the call succeeds with the object's `content` (as JSON text)
/// when it has one, else with the whole output (as JSON text).
pub fn tool_result(output: ToolOutput) -> (r: CallToolResult)
    ensures
        match output {
            ToolOutput::Object { error: Some(e), .. } => r.content@ == seq![e] && r.is_error
                == Some(true),
            ToolOutput::Object { error: None, content: Some(c), .. } => r.content@ == seq![c]
                && r.is_error == Some(false),
            ToolOutput::Object { error: None, content: None, text } => r.content@ == seq![text]
                && r.is_error == Some(false),
            ToolOutput::Other { text } => r.content@ == seq![text] && r.is_error == Some(false),
        },
{
    match output {
        ToolOutput::Object { error: Some(e), .. } => CallToolResult {
            content: vec![e],
            is_error: Some(true),
        },
        ToolOutput::Object { error: None, content: Some(c), .. } => CallToolResult {
            content: vec![c],
            is_error: Some(false),
        },
        ToolOutput::Object { error: None, content: None, text } => CallToolResult {
            content: vec![text],
            is_error: Some(false),
        },
        ToolOutput::Other { text } => CallToolResult { content: vec![text], is_error: Some(false) },
    }
}

/// The first tool of a name.
pub open spec fn tool_index(tools: Seq<WasmToolManifest>, name: Seq<char>) -> Option<int>
    decreases tools.len(),
{
    if tools.len() == 0 {
        None
    } else if tools[0].name@ == name {
        Some(0)
    } else {
        match tool_index(tools.drop_first(), name) {
            Some(i) => Some(i + 1),
            None => None,
        }
    }
}

/// Executor for WASM tools: the loaded tools, by their manifests, and the server
/// configuration whose policy and limits apply, if any
pub struct WasmToolExecutor {
    tools: Vec<WasmToolManifest>,
    config: Option<Arc<ServerConfig>>,
}

impl WasmToolExecutor {
    /// The loaded tools' manifests.
    pub closed spec fn tools(&self) -> Seq<WasmToolManifest> {
        self.tools@
    }

    /// The server configuration, if any.
    pub closed spec fn settings(&self) -> Option<&ServerConfig> {
        match self.config {
            Some(c) => Some(&*c),
            None => None,
        }
    }

    /// Create a new executor for the loaded tools
    pub fn new(tools: Vec<WasmToolManifest>) -> (r: WasmToolExecutor)
        ensures
            r.tools() == tools@,
            r.settings() is None,
    {
        WasmToolExecutor { tools, config: None }
    }

    /// Create a new executor with configuration
    pub fn with_config(tools: Vec<WasmToolManifest>, config: Arc<ServerConfig>) -> (r: WasmToolExecutor)
        ensures
            r.tools() == tools@,
            r.settings() == Some(&*config),
    {
        WasmToolExecutor { tools, config: Some(config) }
    }

    /// The first loaded tool of the name
    fn find_tool(&self, name: &str) -> (r: Option<usize>)
        ensures
            match tool_index(self.tools(), name@) {
                Some(i) => r matches Some(k) && k == i,
                None => r is None,
            },
            r matches Some(i) ==> i < self.tools().len(),
    {
        let mut i: usize = 0;
        assert(self.tools@.skip(0) =~= self.tools@);
        while i < self.tools.len()
            invariant
                i <= self.tools.len(),
                tool_index(self.tools@, name@) == match tool_index(self.tools@.skip(i as int), name@) {
                    Some(k) => Some(k + i),
                    None => None::<int>,
                },
            decreases self.tools.len() - i,
        {
            assert(self.tools@.skip(i as int).drop_first() =~= self.tools@.skip(i + 1));
            if str_eq(self.tools[i].name.as_str(), name) {
                return Some(i);
            }
            i = i + 1;
        }
        None
    }

    /// Check if a tool is available
    pub fn has_tool(&self, name: &str) -> (r: bool)
        ensures
            r == tool_index(self.tools(), name@) is Some,
    {
        self.find_tool(name).is_some()
    }

    /// The names of the available tools, in order
    pub fn list_tools(&self) -> (r: Vec<String>)
        ensures
            r@.len() == self.tools().len(),
            forall|i: int| 0 <= i < r@.len() ==> #[trigger] r@[i]@ == self.tools()[i].name@,
    {
        let mut out: Vec<String> = Vec::new();
        let mut i: usize = 0;
        while i < self.tools.len()
            invariant
                i <= self.tools.len(),
                out@.len() == i,
                forall|k: int| 0 <= k < i ==> #[trigger] out@[k]@ == self.tools@[k].name@,
            decreases self.tools.len() - i,
        {
            out.push(self.tools[i].name.clone());
            i = i + 1;
        }
        out
    }

    /// The start of a call of `tool_name` with the JSON input `input`: refused when the
    /// configuration's policy does not allow the tool, an error when no such tool is
    /// loaded, else the context the tool runs in (see [`runs_in`]; `env` is the process
    /// environment that the configuration lets through).
    pub fn prepare(&self, tool_name: &str, input: Vec<u8>, env: &Vec<(String, String)>) -> (r: Result<
        WasmContext,
        ErrorData,
    >)
        requires
            config_allows(self.settings(), tool_name@) ==> (self.settings() matches Some(c)
                ==> wasm_limits_fit(*c.config)),
        ensures
            !config_allows(self.settings(), tool_name@) ==> (r matches Err(d) && tool_refused(
                d,
                tool_name@,
            )),
            config_allows(self.settings(), tool_name@) ==> match tool_index(self.tools(), tool_name@) {
                None => r matches Err(d) && not_found(d, tool_name@),
                Some(i) => r matches Ok(ctx) && runs_in(
                    ctx,
                    self.settings(),
                    env@,
                    self.tools()[i],
                    input@,
                ),
            },
    {
        let config: Option<&ServerConfig> = match &self.config {
            Some(c) => Some(&**c),
            None => None,
        };
        check_tool_policy(config, tool_name)?;
        match self.find_tool(tool_name) {
            None => Err(WasmError::ToolNotFound(tool_name.to_string()).into_error_data()),
            Some(i) => Ok(tool_context(config, env, &self.tools[i], input)),
        }
    }
}

} // verus!
