use vstd::prelude::*;

use std::sync::Arc;

use crate::config::types::{Config, RuntimeType, TransportType};
use crate::policy::compiled::env_allow;
use crate::policy::permissions::EnvironmentRule;
use crate::wasm::context::{tracking_metering, value_of, WasmContext};
use crate::policy::compiled::{compiled_from, compiles, compile_failure, limits_fit, CompiledPolicy};
use crate::policy::error::PolicyError;
use crate::policy::mcp::McpPermissions;
use crate::text::{chars_of, concat_str, ends_with, spec_parse_u64, sub_vec, parse_u64_chars, push_char, has_suffix, string_from_chars, texts};
use crate::wasm::metering::{decimal_string, decimal_text};

verus! {

/// Server configuration with policy enforcement
pub struct ServerConfig {
    /// The configuration
    pub config: Arc<Config>,
    /// The configuration's policy, compiled
    pub compiled_policy: Option<Arc<CompiledPolicy>>,
}

impl ServerConfig {
    /// Create from a configuration, compiling its policy (see [`CompiledPolicy::compile`]
    /// for `mcp` and `cpu_cores`)
    pub fn from_config(config: Config, mcp: &Option<McpPermissions>, cpu_cores: Option<u64>) -> (r: Result<
        ServerConfig,
        PolicyError,
    >)
        requires
            config.policy matches Some(p) ==> limits_fit(p, cpu_cores),
        ensures
            match config.policy {
                None => r matches Ok(s) && s.compiled_policy is None && *s.config == config,
                Some(p) => (r is Ok <==> compiles(p, *mcp, cpu_cores)) && (r matches Ok(s)
                    ==> (*s.config == config && (s.compiled_policy matches Some(c) && compiled_from(
                    *c,
                    p,
                    *mcp,
                    cpu_cores,
                )))) && (r matches Err(e) ==> compile_failure(p, *mcp, cpu_cores, e)),
            },
    {
        let compiled_policy = match &config.policy {
            Some(policy) => Some(Arc::new(CompiledPolicy::compile(policy, mcp, cpu_cores)?)),
            None => None,
        };
        Ok(ServerConfig { config: Arc::new(config), compiled_policy })
    }

    /// Get server bind address: `<bind>:<port>`
    pub fn bind_address(&self) -> (r: String)
        ensures
            r@ == self.config.server.bind@ + ":"@ + decimal_text(self.config.server.port as nat),
    {
        let a = concat_str(self.config.server.bind.as_str(), ":");
        let p = string_from_chars(&decimal_string(self.config.server.port as u64));
        concat_str(a.as_str(), p.as_str())
    }

    /// Check if debug mode is enabled
    pub fn is_debug(&self) -> (r: bool)
        ensures
            r == self.config.server.debug,
    {
        self.config.server.debug
    }

    /// Get log level (`info` when none is set)
    pub fn log_level(&self) -> (r: &str)
        ensures
            r@ == match self.config.server.log_level {
                Some(l) => l@,
                None => "info"@,
            },
    {
        match &self.config.server.log_level {
            Some(l) => l.as_str(),
            None => "info",
        }
    }

    /// Get transport type
    pub fn transport_type(&self) -> (r: TransportType)
        ensures
            r == self.config.transport.transport_type,
    {
        self.config.transport.transport_type
    }

    /// Get runtime type
    pub fn runtime_type(&self) -> (r: RuntimeType)
        ensures
            r == self.config.runtime.runtime_type,
    {
        self.config.runtime.runtime_type
    }

    /// Check if a tool is allowed by policy; without a policy everything is allowed
    pub fn is_tool_allowed(&self, tool_name: &str) -> (r: bool)
        ensures
            r == match self.compiled_policy {
                Some(p) => p.spec_tool_allowed(tool_name@),
                None => true,
            },
    {
        match &self.compiled_policy {
            Some(p) => p.is_tool_allowed(tool_name),
            None => true,
        }
    }

    /// Check if network access is allowed; without a policy everything is allowed
    pub fn is_network_allowed(&self, host: &str) -> (r: bool)
        ensures
            r == match self.compiled_policy {
                Some(p) => p.spec_network_allowed(host@),
                None => true,
            },
    {
        match &self.compiled_policy {
            Some(p) => p.is_network_allowed(host),
            None => true,
        }
    }

    /// Check if file access is allowed; without a policy everything is allowed
    pub fn is_storage_allowed(&self, path: &str, operation: &str) -> (r: bool)
        ensures
            r == match self.compiled_policy {
                Some(p) => p.spec_storage_allowed(path@, operation@),
                None => true,
            },
    {
        match &self.compiled_policy {
            Some(p) => p.is_storage_allowed(path, operation),
            None => true,
        }
    }
}

/// The number before a suffix, when the text ends with it.
pub open spec fn number_before(s: Seq<char>, suf: Seq<char>) -> Option<Option<u64>> {
    if has_suffix(s, suf) {
        Some(spec_parse_u64(s.subrange(0, s.len() - suf.len())))
    } else {
        None
    }
}

/// `Some(n)` times a factor.
pub open spec fn scaled(v: Option<u64>, f: int) -> Option<int> {
    match v {
        Some(n) => Some(n * f),
        None => None,
    }
}

/// A duration in milliseconds: a number with `ms`, `s`, `m` or `h`.
pub open spec fn duration_ms(s: Seq<char>) -> Option<int> {
    match number_before(s, "ms"@) {
        Some(v) => scaled(v, 1),
        None => match number_before(s, "s"@) {
            Some(v) => scaled(v, 1000),
            None => match number_before(s, "m"@) {
                Some(v) => scaled(v, 60000),
                None => match number_before(s, "h"@) {
                    Some(v) => scaled(v, 3600000),
                    None => None,
                },
            },
        },
    }
}

/// The seconds a duration is built from fit in 64 bits (minutes and hours are turned into
/// seconds).
pub open spec fn duration_fits(s: Seq<char>) -> bool {
    &&& number_before(s, "ms"@) is None ==> (number_before(s, "s"@) is None ==> (number_before(s, "m"@) matches Some(Some(v)) ==> v * 60 <= u64::MAX))
    &&& number_before(s, "ms"@) is None ==> (number_before(s, "s"@) is None ==> (number_before(s, "m"@) is None ==> (number_before(s, "h"@) matches Some(Some(v)) ==> v * 3600 <= u64::MAX)))
}

fn number_with_suffix(s: &str, suf: &str) -> (r: Option<Option<u64>>)
    ensures
        r == number_before(s@, suf@),
{
    if !ends_with(s, suf) {
        return None;
    }
    let c = chars_of(s);
    let n = chars_of(suf).len();
    Some(parse_u64_chars(&sub_vec(&c, 0, c.len() - n)))
}

/// Parse duration string (e.g., "30s", "5m", "1h") into milliseconds
pub fn parse_duration(s: &str) -> (r: Option<u128>)
    requires
        duration_fits(s@),
    ensures
        match duration_ms(s@) {
            Some(v) => r == Some(v as u128),
            None => r is None,
        },
{
    match number_with_suffix(s, "ms") {
        Some(v) => match v {
            Some(n) => Some(n as u128),
            None => None,
        },
        None => match number_with_suffix(s, "s") {
            Some(v) => match v {
                Some(n) => Some(n as u128 * 1000),
                None => None,
            },
            None => match number_with_suffix(s, "m") {
                Some(v) => match v {
                    Some(n) => Some((n * 60) as u128 * 1000),
                    None => None,
                },
                None => match number_with_suffix(s, "h") {
                    Some(v) => match v {
                        Some(n) => Some((n * 3600) as u128 * 1000),
                        None => None,
                    },
                    None => None,
                },
            },
        },
    }
}

/// A memory size in bytes: a number with `Ki`, `Mi` or `Gi`, or a plain number.
pub open spec fn memory_size(s: Seq<char>) -> Option<int> {
    match number_before(s, "Ki"@) {
        Some(v) => scaled(v, 1024),
        None => match number_before(s, "Mi"@) {
            Some(v) => scaled(v, 1048576),
            None => match number_before(s, "Gi"@) {
                Some(v) => scaled(v, 1073741824),
                None => match spec_parse_u64(s) {
                    Some(n) => Some(n as int),
                    None => None,
                },
            },
        },
    }
}

/// Parse memory limit string (e.g., "512Mi", "2Gi") into bytes
pub fn parse_memory_limit(s: &str) -> (r: Option<usize>)
    requires
        memory_size(s@) matches Some(v) ==> v <= usize::MAX,
    ensures
        match memory_size(s@) {
            Some(v) => r == Some(v as usize),
            None => r is None,
        },
{
    let (v, unit): (Option<u64>, usize) = match number_with_suffix(s, "Ki") {
        Some(v) => (v, 1024),
        None => match number_with_suffix(s, "Mi") {
            Some(v) => (v, 1048576),
            None => match number_with_suffix(s, "Gi") {
                Some(v) => (v, 1073741824),
                None => (crate::text::parse_u64(s), 1),
            },
        },
    };
    match v {
        Some(n) => {
            if n > usize::MAX as u64 {
                return None;
            }
            Some(n as usize * unit)
        },
        None => None,
    }
}

/// Whether the minutes or hours of a duration, turned into seconds, fit in 64 bits.
pub fn duration_in_range(s: &str) -> (r: bool)
    ensures
        r == duration_fits(s@),
{
    match number_with_suffix(s, "ms") {
        Some(_) => true,
        None => match number_with_suffix(s, "s") {
            Some(_) => true,
            None => match number_with_suffix(s, "m") {
                Some(Some(v)) => v.checked_mul(60).is_some(),
                Some(None) => true,
                None => match number_with_suffix(s, "h") {
                    Some(Some(v)) => v.checked_mul(3600).is_some(),
                    _ => true,
                },
            },
        },
    }
}

/// Whether a memory size, where the text has one, fits in a `usize`.
pub fn memory_size_in_range(s: &str) -> (r: bool)
    ensures
        r == (memory_size(s@) matches Some(v) ==> v <= usize::MAX),
{
    let (v, unit): (Option<u64>, usize) = match number_with_suffix(s, "Ki") {
        Some(v) => (v, 1024),
        None => match number_with_suffix(s, "Mi") {
            Some(v) => (v, 1048576),
            None => match number_with_suffix(s, "Gi") {
                Some(v) => (v, 1073741824),
                None => (crate::text::parse_u64(s), 1),
            },
        },
    };
    match v {
        Some(n) => {
            if n > usize::MAX as u64 {
                return false;
            }
            (n as usize).checked_mul(unit).is_some()
        },
        None => true,
    }
}

/// The limits that a WASM context takes from a configuration are in range: the timeout's
/// seconds fit in 64 bits, the memory size and the memory pages in bytes in a `usize`.
pub open spec fn wasm_limits_fit(c: Config) -> bool {
    &&& c.runtime.limits matches Some(l) ==> (l.execution_time matches Some(t) ==> duration_fits(t@))
    &&& c.runtime.limits matches Some(l) ==> (l.memory matches Some(m) ==> (memory_size(m@) matches Some(
        v,
    ) ==> v <= usize::MAX))
    &&& c.runtime.wasm matches Some(w) ==> (w.memory_pages matches Some(p) ==> p * 65536 <= usize::MAX)
}

/// The timeout of a WASM context in milliseconds: the configured execution time when it
/// reads as a duration, else 30 seconds.
pub open spec fn wasm_timeout_ms(c: Config) -> int {
    match c.runtime.limits {
        Some(l) => match l.execution_time {
            Some(t) => match duration_ms(t@) {
                Some(v) => v,
                None => 30000,
            },
            None => 30000,
        },
        None => 30000,
    }
}

/// The memory limit of a WASM context: the configured memory pages (64 KiB each), else the
/// configured memory size when it reads as one, else 50 MiB.
pub open spec fn wasm_memory_bytes(c: Config) -> int {
    let from_limits = match c.runtime.limits {
        Some(l) => match l.memory {
            Some(m) => match memory_size(m@) {
                Some(v) => v,
                None => 52428800,
            },
            None => 52428800,
        },
        None => 52428800,
    };
    match c.runtime.wasm {
        Some(w) => match w.memory_pages {
            Some(p) => p * 65536,
            None => from_limits,
        },
        None => from_limits,
    }
}

/// The fuel limit of a WASM context: the configured fuel, if any.
pub open spec fn wasm_fuel(c: Config) -> Option<u64> {
    match c.runtime.wasm {
        Some(w) => w.fuel,
        None => None,
    }
}

/// The value given last for a name in a list of named values.
pub open spec fn last_value(v: Seq<(String, String)>, k: Seq<char>) -> Option<String>
    decreases v.len(),
{
    if v.len() == 0 {
        None
    } else if v.last().0@ == k {
        Some(v.last().1)
    } else {
        last_value(v.drop_last(), k)
    }
}

impl ServerConfig {
    /// The environment variables that a WASM tool may be given: those the policy allows,
    /// in its order (none without a policy).
    pub fn wasm_env_keys(&self) -> (r: Vec<String>)
        ensures
            texts(r@) == match self.config.policy {
                Some(p) => env_allow(p),
                None => Seq::<Seq<char>>::empty(),
            },
    {
        let mut out: Vec<String> = Vec::new();
        if let Some(policy) = &self.config.policy {
            if let Some(env) = &policy.core.environment {
                let mut i: usize = 0;
                while i < env.allow.len()
                    invariant
                        i <= env.allow.len(),
                        texts(out@) == env.allow@.subrange(0, i as int).map_values(
                            |r: EnvironmentRule| r.key@,
                        ),
                    decreases env.allow.len() - i,
                {
                    let ghost before = texts(out@);
                    out.push(env.allow[i].key.clone());
                    assert(texts(out@) =~= before.push(env.allow@[i as int].key@));
                    assert(env.allow@.subrange(0, i + 1).map_values(|r: EnvironmentRule| r.key@)
                        =~= env.allow@.subrange(0, i as int).map_values(|r: EnvironmentRule| r.key@).push(
                        env.allow@[i as int].key@,
                    ));
                    i = i + 1;
                }
                assert(env.allow@.subrange(0, i as int) =~= env.allow@);
            } else {
                assert(texts(out@) =~= Seq::<Seq<char>>::empty());
            }
        } else {
            assert(texts(out@) =~= Seq::<Seq<char>>::empty());
        }
        out
    }

    /// Whether the configuration's limits are in range for [`ServerConfig::create_wasm_context`].
    pub fn wasm_limits_in_range(&self) -> (r: bool)
        ensures
            r == wasm_limits_fit(*self.config),
    {
        let limits_ok = match &self.config.runtime.limits {
            Some(l) => {
                let time_ok = match &l.execution_time {
                    Some(t) => duration_in_range(t.as_str()),
                    None => true,
                };
                let memory_ok = match &l.memory {
                    Some(m) => memory_size_in_range(m.as_str()),
                    None => true,
                };
                time_ok && memory_ok
            },
            None => true,
        };
        let pages_ok = match &self.config.runtime.wasm {
            Some(w) => match w.memory_pages {
                Some(p) => (p as usize).checked_mul(65536).is_some(),
                None => true,
            },
            None => true,
        };
        limits_ok && pages_ok
    }

    /// The context a WASM tool runs in under this configuration: its timeout, memory and
    /// fuel limits, and the environment variables `env` (the allowed ones that are set,
    /// see [`ServerConfig::wasm_env_keys`]; a later value for a name replaces an earlier
    /// one).
    pub fn create_wasm_context(&self, env: &Vec<(String, String)>) -> (r: WasmContext)
        requires
            wasm_limits_fit(*self.config),
        ensures
            r.timeout_ms == wasm_timeout_ms(*self.config),
            r.max_memory_bytes == wasm_memory_bytes(*self.config),
            r.max_fuel == wasm_fuel(*self.config),
            forall|k: Seq<char>| #[trigger] value_of(r.env_vars@, k) == last_value(env@, k),
            r.stdin@.len() == 0,
            r.metering == Some(tracking_metering()),
            r.policy is None,
    {
        let mut ctx = WasmContext::new();
        if let Some(limits) = &self.config.runtime.limits {
            if let Some(t) = &limits.execution_time {
                if let Some(d) = parse_duration(t.as_str()) {
                    ctx = ctx.with_timeout(d);
                }
            }
            if let Some(m) = &limits.memory {
                if let Some(bytes) = parse_memory_limit(m.as_str()) {
                    ctx.max_memory_bytes = bytes;
                }
            }
        }
        if let Some(wasm) = &self.config.runtime.wasm {
            if let Some(fuel) = wasm.fuel {
                ctx = ctx.with_max_fuel(fuel);
            }
            if let Some(pages) = wasm.memory_pages {
                ctx.max_memory_bytes = pages as usize * 65536;
            }
        }
        let mut i: usize = 0;
        assert forall|k: Seq<char>| #[trigger] value_of(ctx.env_vars@, k) == last_value(
            env@.subrange(0, 0),
            k,
        ) by {
            assert(env@.subrange(0, 0).len() == 0);
        }
        while i < env.len()
            invariant
                i <= env.len(),
                ctx.timeout_ms == wasm_timeout_ms(*self.config),
                ctx.max_memory_bytes == wasm_memory_bytes(*self.config),
                ctx.max_fuel == wasm_fuel(*self.config),
                ctx.stdin@.len() == 0,
                ctx.metering == Some(tracking_metering()),
                ctx.policy is None,
                forall|k: Seq<char>| #[trigger] value_of(ctx.env_vars@, k) == last_value(
                    env@.subrange(0, i as int),
                    k,
                ),
            decreases env.len() - i,
        {
            let ghost prev = ctx.env_vars@;
            ctx = ctx.with_env(env[i].0.clone(), env[i].1.clone());
            proof {
                let sub = env@.subrange(0, i + 1);
                assert(sub.drop_last() =~= env@.subrange(0, i as int));
                assert(sub.last() == env@[i as int]);
            }
            i = i + 1;
        }
        assert(env@.subrange(0, i as int) =~= env@);
        ctx
    }
}

} // verus!
