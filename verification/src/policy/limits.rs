use vstd::prelude::*;

use crate::policy::error::PolicyError;
use crate::text::{chars_of, concat_str, ends_with, has_suffix, parse_u64_chars, spec_parse_u64, sub_vec};

verus! {

/// Compiled resource limits
#[derive(Debug, Clone, Copy)]
pub struct ResourceLimits {
    /// CPU limit in millicores (1000 = 1 CPU core)
    pub cpu_millicores: Option<u64>,
    /// Memory limit in bytes
    pub memory_bytes: Option<u64>,
    /// Execution time limit in milliseconds
    pub execution_time_ms: Option<u64>,
    /// WebAssembly fuel limit
    pub fuel: Option<u64>,
}

/// The number written before the suffix `suf`, when `s` ends with it: `None` when it does
/// not end with it, `Some(None)` when what comes before is no number.
pub open spec fn value_before(s: Seq<char>, suf: Seq<char>) -> Option<Option<u64>> {
    if has_suffix(s, suf) {
        Some(spec_parse_u64(s.subrange(0, s.len() - suf.len())))
    } else {
        None
    }
}

/// A CPU limit in millicores: `<n>m` is `n` millicores; any other text is a number of
/// cores, which the caller reads (`cores`, already in millicores, or `None` when it is no
/// number).
pub open spec fn cpu_limit_value(cpu: Seq<char>, cores: Option<u64>) -> Option<u64> {
    match value_before(cpu, "m"@) {
        Some(v) => v,
        None => cores,
    }
}

/// `Some(n)` as a number of `unit`s, without bound.
pub open spec fn times(v: Option<u64>, unit: int) -> Option<int> {
    match v {
        Some(n) => Some(n * unit),
        None => None,
    }
}

/// A memory limit in bytes: a number with the suffix `Ki`, `Mi` or `Gi`.
pub open spec fn memory_limit_value(m: Seq<char>) -> Option<int> {
    match value_before(m, "Ki"@) {
        Some(v) => times(v, 1024),
        None => match value_before(m, "Mi"@) {
            Some(v) => times(v, 1048576),
            None => match value_before(m, "Gi"@) {
                Some(v) => times(v, 1073741824),
                None => None,
            },
        },
    }
}

/// An execution time limit in milliseconds: a number with the suffix `ms`, `s` or `m`.
pub open spec fn time_limit_value(t: Seq<char>) -> Option<int> {
    match value_before(t, "ms"@) {
        Some(v) => times(v, 1),
        None => match value_before(t, "s"@) {
            Some(v) => times(v, 1000),
            None => match value_before(t, "m"@) {
                Some(v) => times(v, 60000),
                None => None,
            },
        },
    }
}

/// The value fits in 64 bits, where there is one.
pub open spec fn fits_u64(v: Option<int>) -> bool {
    v matches Some(n) ==> n <= u64::MAX
}

/// The error that a failed limit parse gives: a parse error naming the limit.
pub open spec fn limit_error(e: PolicyError, what: Seq<char>, text: Seq<char>) -> bool {
    e matches PolicyError::ParseError(m) && m@ == what + text
}

/// The number before the suffix `suf`, when `s` ends with it.
fn parse_before(s: &str, suf: &str) -> (r: Option<Option<u64>>)
    ensures
        r == value_before(s@, suf@),
{
    if !ends_with(s, suf) {
        return None;
    }
    let c = chars_of(s);
    let n = chars_of(suf).len();
    let head = sub_vec(&c, 0, c.len() - n);
    Some(parse_u64_chars(&head))
}

/// Parse a CPU limit: `<n>m` in millicores; any other text is a number of cores, which the
/// caller has read (in millicores) as `cores`, `None` when it is no number.
pub fn parse_cpu_limit(cpu: &str, cores: Option<u64>) -> (r: Result<u64, PolicyError>)
    ensures
        match cpu_limit_value(cpu@, cores) {
            Some(v) => r == Ok::<u64, PolicyError>(v),
            None => r matches Err(e) && limit_error(e, "Invalid CPU limit: "@, cpu@),
        },
{
    let v = match parse_before(cpu, "m") {
        Some(v) => v,
        None => cores,
    };
    match v {
        Some(v) => Ok(v),
        None => Err(PolicyError::ParseError(concat_str("Invalid CPU limit: ", cpu))),
    }
}

/// Parse a memory limit (`Ki`, `Mi` or `Gi`) into bytes.
pub fn parse_memory_limit(memory: &str) -> (r: Result<u64, PolicyError>)
    requires
        fits_u64(memory_limit_value(memory@)),
    ensures
        match memory_limit_value(memory@) {
            Some(v) => r matches Ok(x) && x == v,
            None => r matches Err(e) && limit_error(e, "Invalid memory limit: "@, memory@),
        },
{
    let (v, unit): (Option<u64>, u64) = match parse_before(memory, "Ki") {
        Some(v) => (v, 1024),
        None => match parse_before(memory, "Mi") {
            Some(v) => (v, 1024 * 1024),
            None => match parse_before(memory, "Gi") {
                Some(v) => (v, 1024 * 1024 * 1024),
                None => {
                    return Err(PolicyError::ParseError(concat_str("Invalid memory limit: ", memory)));
                },
            },
        },
    };
    match v {
        Some(n) => Ok(n * unit),
        None => Err(PolicyError::ParseError(concat_str("Invalid memory limit: ", memory))),
    }
}

/// Parse an execution time limit (`ms`, `s` or `m`) into milliseconds.
pub fn parse_time_limit(time: &str) -> (r: Result<u64, PolicyError>)
    requires
        fits_u64(time_limit_value(time@)),
    ensures
        match time_limit_value(time@) {
            Some(v) => r matches Ok(x) && x == v,
            None => r matches Err(e) && limit_error(e, "Invalid time limit: "@, time@),
        },
{
    let (v, unit): (Option<u64>, u64) = match parse_before(time, "ms") {
        Some(v) => (v, 1),
        None => match parse_before(time, "s") {
            Some(v) => (v, 1000),
            None => match parse_before(time, "m") {
                Some(v) => (v, 60000),
                None => {
                    return Err(PolicyError::ParseError(concat_str("Invalid time limit: ", time)));
                },
            },
        },
    };
    match v {
        Some(n) => Ok(n * unit),
        None => Err(PolicyError::ParseError(concat_str("Invalid time limit: ", time))),
    }
}

/// Whether the value of a memory limit, where it has one, fits in 64 bits.
pub fn memory_limit_fits(memory: &str) -> (r: bool)
    ensures
        r == fits_u64(memory_limit_value(memory@)),
{
    let (v, unit): (Option<u64>, u64) = match parse_before(memory, "Ki") {
        Some(v) => (v, 1024),
        None => match parse_before(memory, "Mi") {
            Some(v) => (v, 1024 * 1024),
            None => match parse_before(memory, "Gi") {
                Some(v) => (v, 1024 * 1024 * 1024),
                None => {
                    return true;
                },
            },
        },
    };
    match v {
        Some(n) => n.checked_mul(unit).is_some(),
        None => true,
    }
}

/// Whether the value of an execution time limit, where it has one, fits in 64 bits.
pub fn time_limit_fits(time: &str) -> (r: bool)
    ensures
        r == fits_u64(time_limit_value(time@)),
{
    let (v, unit): (Option<u64>, u64) = match parse_before(time, "ms") {
        Some(v) => (v, 1),
        None => match parse_before(time, "s") {
            Some(v) => (v, 1000),
            None => match parse_before(time, "m") {
                Some(v) => (v, 60000),
                None => {
                    return true;
                },
            },
        },
    };
    match v {
        Some(n) => n.checked_mul(unit).is_some(),
        None => true,
    }
}

} // verus!
