use vstd::prelude::*;

use std::sync::Arc;

use crate::policy::compiled::CompiledPolicy;
use crate::text::str_eq;
use crate::wasm::metering::{DisplayFormat, MemoryLimits, SamplingStrategy};

verus! {

/// How metering limits are enforced
#[derive(Debug, Clone, Copy, PartialEq, Eq, Structural)]
pub enum EnforcementMode {
    /// Fail execution when limits exceeded
    Strict,
    /// Track but don't enforce limits
    Tracking,
    /// No tracking or enforcement
    Disabled,
}

impl Default for EnforcementMode {
    fn default() -> (r: Self)
        ensures
            r == EnforcementMode::Tracking,
    {
        EnforcementMode::Tracking
    }
}

/// Metering configuration
#[derive(Debug, Clone, Copy)]
pub struct MeteringConfig {
    /// Enable metering
    pub enabled: bool,
    /// Maximum compute units allowed
    pub max_compute_units: Option<u64>,
    /// Memory limits
    pub memory_limits: MemoryLimits,
    /// Enable real-time monitoring
    pub enable_monitoring: bool,
    /// Sampling strategy for monitoring
    pub sampling: SamplingStrategy,
    /// Display format preference
    pub display_format: DisplayFormat,
    /// Enforcement mode
    pub enforcement: EnforcementMode,
}

/// Whether metering is on unless a configuration says otherwise
pub fn default_enabled() -> (r: bool)
    ensures
        !r,
{
    false
}

impl Default for MeteringConfig {
    fn default() -> (r: Self)
        ensures
            !r.enabled,
            r.max_compute_units is None,
            !r.enable_monitoring,
            r.display_format == DisplayFormat::Minimal,
            r.enforcement == EnforcementMode::Tracking,
            r.memory_limits.max_memory == 512 * 1024 * 1024,
    {
        MeteringConfig {
            enabled: default_enabled(),
            max_compute_units: None,
            memory_limits: MemoryLimits::default(),
            enable_monitoring: false,
            sampling: SamplingStrategy::default(),
            display_format: DisplayFormat::default(),
            enforcement: EnforcementMode::default(),
        }
    }
}

/// The value held for `k` in a list of named values: the first entry named `k`.
pub open spec fn value_of<V>(v: Seq<(String, V)>, k: Seq<char>) -> Option<V>
    decreases v.len(),
{
    if v.len() == 0 {
        None
    } else if v[0].0@ == k {
        Some(v[0].1)
    } else {
        value_of(v.drop_first(), k)
    }
}

proof fn lemma_value_update<V>(v0: Seq<(String, V)>, i: int, k: Seq<char>, x: V, v1: Seq<(String, V)>)
    requires
        0 <= i < v0.len(),
        v1.len() == v0.len(),
        v1[i].0@ == k,
        v1[i].1 == x,
        v0[i].0@ == k,
        forall|j: int| 0 <= j < v0.len() && j != i ==> v1[j] == v0[j],
        forall|j: int| 0 <= j < i ==> (#[trigger] v0[j]).0@ != k,
    ensures
        value_of(v1, k) == Some(x),
        forall|y: Seq<char>| y != k ==> #[trigger] value_of(v1, y) == value_of(v0, y),
    decreases i,
{
    if i > 0 {
        assert forall|j: int| 0 <= j < i - 1 implies (#[trigger] v0.drop_first()[j]).0@ != k by {
            assert(v0.drop_first()[j] == v0[j + 1]);
        }
        lemma_value_update(v0.drop_first(), i - 1, k, x, v1.drop_first());
        assert(v1[0] == v0[0]);
        assert forall|y: Seq<char>| y != k implies #[trigger] value_of(v1, y) == value_of(v0, y) by {
            if v0[0].0@ != y {
                assert(value_of(v1.drop_first(), y) == value_of(v0.drop_first(), y));
            }
        }
    } else {
        assert(v1.drop_first() =~= v0.drop_first()) by {
            assert forall|j: int| 0 <= j < v1.drop_first().len() implies v1.drop_first()[j]
                == v0.drop_first()[j] by {
                assert(v1[j + 1] == v0[j + 1]);
            }
        }
        assert forall|y: Seq<char>| y != k implies #[trigger] value_of(v1, y) == value_of(v0, y) by {
            assert(value_of(v1.drop_first(), y) == value_of(v0.drop_first(), y));
        }
    }
}

proof fn lemma_value_push<V>(v0: Seq<(String, V)>, k: Seq<char>, x: V, v1: Seq<(String, V)>)
    requires
        v1.len() == v0.len() + 1,
        forall|j: int| 0 <= j < v0.len() ==> v1[j] == v0[j],
        v1[v0.len() as int].0@ == k,
        v1[v0.len() as int].1 == x,
        forall|j: int| 0 <= j < v0.len() ==> (#[trigger] v0[j]).0@ != k,
    ensures
        value_of(v1, k) == Some(x),
        forall|y: Seq<char>| y != k ==> #[trigger] value_of(v1, y) == value_of(v0, y),
    decreases v0.len(),
{
    if v0.len() > 0 {
        assert forall|j: int| 0 <= j < v0.len() - 1 implies (#[trigger] v0.drop_first()[j]).0@ != k by {
            assert(v0.drop_first()[j] == v0[j + 1]);
        }
        lemma_value_push(v0.drop_first(), k, x, v1.drop_first());
        assert(v1[0] == v0[0]);
        assert forall|y: Seq<char>| y != k implies #[trigger] value_of(v1, y) == value_of(v0, y) by {
            if v0[0].0@ != y {
                assert(value_of(v1.drop_first(), y) == value_of(v0.drop_first(), y));
            }
        }
    } else {
        assert forall|y: Seq<char>| y != k implies #[trigger] value_of(v1, y) == value_of(v0, y) by {
            assert(v1.drop_first().len() == 0);
            assert(value_of(v1.drop_first(), y) is None);
        }
    }
}

/// Sets the value for a name: the entry with the name is updated, or a new entry is added.
fn put_value(v: &mut Vec<(String, String)>, k: String, x: String)
    ensures
        value_of(final(v)@, k@) == Some(x),
        forall|y: Seq<char>| y != k@ ==> #[trigger] value_of(final(v)@, y) == value_of(old(v)@, y),
{
    let ghost v0 = v@;
    let mut i: usize = 0;
    while i < v.len()
        invariant
            i <= v.len(),
            v@ == v0,
            v0 == old(v)@,
            forall|j: int| 0 <= j < i ==> (#[trigger] v0[j]).0@ != k@,
        decreases v.len() - i,
    {
        if str_eq(v[i].0.as_str(), k.as_str()) {
            let ghost kv = k@;
            let ghost xv = x;
            v.set(i, (k, x));
            proof {
                lemma_value_update(v0, i as int, kv, xv, v@);
            }
            return;
        }
        i = i + 1;
    }
    let ghost kv = k@;
    let ghost xv = x;
    v.push((k, x));
    proof {
        lemma_value_push(v0, kv, xv, v@);
    }
}

/// The metering of a new context: on, tracking only, without a unit limit or monitoring,
/// shown minimally, with the default memory limits and sampling.
pub open spec fn tracking_metering() -> MeteringConfig {
    MeteringConfig {
        enabled: true,
        max_compute_units: None,
        memory_limits: MemoryLimits {
            max_memory: 536870912,
            soft_limit: None,
            max_tables: 10,
            max_instances: 100,
        },
        enable_monitoring: false,
        sampling: SamplingStrategy { unit_threshold: 100_000, time_threshold_ms: 100, adaptive: true },
        display_format: DisplayFormat::Minimal,
        enforcement: EnforcementMode::Tracking,
    }
}

/// Execution context for WASM tools
pub struct WasmContext {
    /// Input to provide via stdin
    pub stdin: Vec<u8>,
    /// Captured stdout
    pub stdout: Vec<u8>,
    /// Captured stderr
    pub stderr: Vec<u8>,
    /// Environment variables, by name
    pub env_vars: Vec<(String, String)>,
    /// Execution timeout in milliseconds
    pub timeout_ms: u128,
    /// Maximum memory in bytes
    pub max_memory_bytes: usize,
    /// Maximum fuel (instruction count)
    pub max_fuel: Option<u64>,
    /// Metering configuration
    pub metering: Option<MeteringConfig>,
    /// Policy for filesystem access
    pub policy: Option<Arc<CompiledPolicy>>,
}

impl WasmContext {
    /// A context with no input, no environment, a 30 second timeout, 50 MiB of memory, no
    /// fuel limit, metering on (tracking only) and no policy.
    pub fn new() -> (r: WasmContext)
        ensures
            r.stdin@.len() == 0,
            r.stdout@.len() == 0,
            r.stderr@.len() == 0,
            r.env_vars@.len() == 0,
            r.timeout_ms == 30000,
            r.max_memory_bytes == 50 * 1024 * 1024,
            r.max_fuel is None,
            r.metering == Some(tracking_metering()),
            r.policy is None,
    {
        let default_metering = MeteringConfig {
            enabled: true,
            max_compute_units: None,
            memory_limits: MemoryLimits::default(),
            enable_monitoring: false,
            sampling: SamplingStrategy::default(),
            display_format: DisplayFormat::default(),
            enforcement: EnforcementMode::Tracking,
        };
        WasmContext {
            stdin: Vec::new(),
            stdout: Vec::new(),
            stderr: Vec::new(),
            env_vars: Vec::new(),
            timeout_ms: 30000,
            max_memory_bytes: 50 * 1024 * 1024,
            max_fuel: None,
            metering: Some(default_metering),
            policy: None,
        }
    }

    /// Set stdin data
    pub fn with_stdin(self, data: Vec<u8>) -> (r: WasmContext)
        ensures
            r == (WasmContext { stdin: data, ..self }),
    {
        WasmContext { stdin: data, ..self }
    }

    /// Add an environment variable (replacing an earlier value of the same name)
    pub fn with_env(self, key: String, value: String) -> (r: WasmContext)
        ensures
            value_of(r.env_vars@, key@) == Some(value),
            forall|y: Seq<char>| y != key@ ==> #[trigger] value_of(r.env_vars@, y) == value_of(
                self.env_vars@,
                y,
            ),
            r == (WasmContext { env_vars: r.env_vars, ..self }),
    {
        let mut s = self;
        put_value(&mut s.env_vars, key, value);
        s
    }

    /// Set the timeout, in milliseconds
    pub fn with_timeout(self, timeout_ms: u128) -> (r: WasmContext)
        ensures
            r == (WasmContext { timeout_ms, ..self }),
    {
        WasmContext { timeout_ms, ..self }
    }

    /// Set the fuel limit
    pub fn with_max_fuel(self, max_fuel: u64) -> (r: WasmContext)
        ensures
            r == (WasmContext { max_fuel: Some(max_fuel), ..self }),
    {
        WasmContext { max_fuel: Some(max_fuel), ..self }
    }

    /// Set the metering configuration: its compute unit limit (if any) becomes the fuel
    /// limit and its memory limit the memory limit.
    pub fn with_metering(self, config: MeteringConfig) -> (r: WasmContext)
        ensures
            r == (WasmContext {
                max_fuel: match config.max_compute_units {
                    Some(n) => Some(n),
                    None => self.max_fuel,
                },
                max_memory_bytes: config.memory_limits.max_memory,
                metering: Some(config),
                ..self
            }),
    {
        let max_fuel = match config.max_compute_units {
            Some(n) => Some(n),
            None => self.max_fuel,
        };
        WasmContext {
            max_fuel,
            max_memory_bytes: config.memory_limits.max_memory,
            metering: Some(config),
            ..self
        }
    }

    /// Turn metering off
    pub fn without_metering(self) -> (r: WasmContext)
        ensures
            r == (WasmContext { metering: None, ..self }),
    {
        WasmContext { metering: None, ..self }
    }

    /// Set the policy for filesystem access
    pub fn with_policy(self, policy: Arc<CompiledPolicy>) -> (r: WasmContext)
        ensures
            r == (WasmContext { policy: Some(policy), ..self }),
    {
        WasmContext { policy: Some(policy), ..self }
    }
}

/// Resource limiter: memory may grow up to a limit, tables up to their maximum (10 when
/// none is given).
pub struct CustomResourceLimiter {
    memory_limit: usize,
    memory_used: u64,
}

impl CustomResourceLimiter {
    /// The memory limit.
    pub closed spec fn limit(self) -> usize {
        self.memory_limit
    }

    /// The memory size last allowed.
    pub closed spec fn used(self) -> u64 {
        self.memory_used
    }

    /// A limiter with a memory limit and nothing used
    pub fn new(memory_limit: usize) -> (r: CustomResourceLimiter)
        ensures
            r.limit() == memory_limit,
            r.used() == 0,
    {
        CustomResourceLimiter { memory_limit, memory_used: 0 }
    }

    /// Whether memory may grow to `desired` bytes: when it is within the limit, in which
    /// case it is recorded as used.
    pub fn memory_growing(&mut self, current: usize, desired: usize, maximum: Option<usize>) -> (r: bool)
        ensures
            r == (desired <= old(self).limit()),
            final(self).limit() == old(self).limit(),
            final(self).used() == if r {
                desired as u64
            } else {
                old(self).used()
            },
    {
        let allowed = desired <= self.memory_limit;
        if allowed {
            self.memory_used = desired as u64;
        }
        allowed
    }

    /// Whether a table may grow to `desired` elements: up to its maximum, 10 without one.
    pub fn table_growing(&self, current: u32, desired: u32, maximum: Option<u32>) -> (r: bool)
        ensures
            r == (desired <= match maximum {
                Some(m) => m,
                None => 10,
            }),
    {
        let max = match maximum {
            Some(m) => m,
            None => 10,
        };
        desired <= max
    }

    /// The memory size last allowed
    pub fn memory_used(&self) -> (r: u64)
        ensures
            r == self.used(),
    {
        self.memory_used
    }
}

} // verus!
