//! The decisions around running a WASM module: the fuel it starts with, what it consumed,
//! its rate, and how the way it ended becomes a result.

use vstd::prelude::*;

use crate::text::{chars_of, concat_str, find_from, occurs_at, string_from_chars};
use crate::wasm::context::{EnforcementMode, WasmContext};
use crate::wasm::metering::{decimal_string, decimal_text};
use crate::wasm::WasmError;

verus! {

/// The fuel a context allows without a configured limit: 100 units per KiB of memory, and
/// at least a million.
pub open spec fn default_fuel(max_memory_bytes: usize) -> u64 {
    let by_memory = ((max_memory_bytes as u64 / 1024) * 100) as u64;
    if by_memory > 1_000_000 {
        by_memory
    } else {
        1_000_000
    }
}

/// The fuel an execution starts with: half the largest `u64` when metering only tracks
/// (so that no limit is met); otherwise the context's fuel limit, or the default for its
/// memory.
pub open spec fn fuel_limit_of(ctx: WasmContext) -> u64 {
    let configured = match ctx.max_fuel {
        Some(f) => f,
        None => default_fuel(ctx.max_memory_bytes),
    };
    match ctx.metering {
        Some(m) => if m.enforcement == EnforcementMode::Tracking {
            (u64::MAX / 2) as u64
        } else {
            configured
        },
        None => configured,
    }
}

/// Metering is on in the context.
pub open spec fn metering_on(ctx: WasmContext) -> bool {
    match ctx.metering {
        Some(m) => m.enabled,
        None => false,
    }
}

/// The fuel an execution starts with (see [`fuel_limit_of`])
pub fn fuel_limit(ctx: &WasmContext) -> (r: u64)
    ensures
        r == fuel_limit_of(*ctx),
{
    let per_kib = ctx.max_memory_bytes as u64 / 1024;
    assert(per_kib * 100 <= u64::MAX) by (nonlinear_arith)
        requires
            per_kib == ctx.max_memory_bytes as u64 / 1024,
    ;
    let by_memory = per_kib * 100;
    let default = if by_memory > 1_000_000 {
        by_memory
    } else {
        1_000_000
    };
    let configured = match ctx.max_fuel {
        Some(f) => f,
        None => default,
    };
    match &ctx.metering {
        Some(m) => match m.enforcement {
            EnforcementMode::Tracking => u64::MAX / 2,
            _ => configured,
        },
        None => configured,
    }
}

/// Whether metering is on in the context
pub fn metering_enabled(ctx: &WasmContext) -> (r: bool)
    ensures
        r == metering_on(*ctx),
{
    match &ctx.metering {
        Some(m) => m.enabled,
        None => false,
    }
}

/// The units a run consumed from `limit`, with `remaining` left (all of it when the
/// remainder cannot be read); nothing is counted without metering.
pub open spec fn consumed_units(limit: u64, remaining: Option<u64>, metering_enabled: bool) -> int {
    if metering_enabled {
        match remaining {
            Some(x) => limit - x,
            None => limit as int,
        }
    } else {
        0
    }
}

/// A run's fuel bound: unless metering only tracks, a run starts with the context's fuel
/// limit (or the default for its memory), and the units it consumed, with the engine
/// leaving no more than it was given, never exceed that limit.
pub proof fn lemma_fuel_bound(ctx: WasmContext, remaining: Option<u64>)
    requires
        ctx.metering matches Some(m) ==> m.enforcement != EnforcementMode::Tracking,
        remaining matches Some(x) ==> x <= fuel_limit_of(ctx),
    ensures
        fuel_limit_of(ctx) == match ctx.max_fuel {
            Some(f) => f,
            None => default_fuel(ctx.max_memory_bytes),
        },
        0 <= consumed_units(fuel_limit_of(ctx), remaining, metering_on(ctx)) <= fuel_limit_of(ctx),
{
}

/// The fuel consumed: the limit less what remains (all of it when the remainder cannot be
/// read); nothing is counted without metering.
pub fn fuel_consumed(limit: u64, remaining: Option<u64>, metering_enabled: bool) -> (r: u64)
    requires
        remaining matches Some(x) ==> x <= limit,
    ensures
        r == consumed_units(limit, remaining, metering_enabled),
{
    if !metering_enabled {
        return 0;
    }
    match remaining {
        Some(x) => limit - x,
        None => limit,
    }
}

/// Units per second: by whole seconds when at least one passed, else by nanoseconds (the
/// quotient cut to 64 bits), else 0.
pub fn units_per_second(consumed: u64, secs: u64, nanos: u128) -> (r: u64)
    ensures
        r == if secs > 0 {
            consumed / secs
        } else if nanos > 0 {
            ((consumed * 1_000_000_000) / (nanos as int)) as u64
        } else {
            0
        },
{
    if secs > 0 {
        consumed / secs
    } else if nanos > 0 {
        assert(consumed as u128 * 1_000_000_000u128 <= u128::MAX) by (nonlinear_arith)
            requires
                consumed <= u64::MAX,
        ;
        let rate: u128 = (consumed as u128 * 1_000_000_000u128) / nanos;
        #[verifier::truncate]
        (rate as u64)
    } else {
        0
    }
}

/// How an execution ended
pub enum ExecOutcome {
    /// The start function returned
    Completed,
    /// The module exited with a status
    Exited(i32),
    /// A trap stopped it: the trap's text and the error's text
    Trapped {
        /// The trap, as text
        trap: String,
        /// The error, as text
        error: String,
    },
    /// Any other failure, by its text
    Failed(String),
}

/// A status code as decimal text.
pub open spec fn status_text(code: i32) -> Seq<char> {
    if code < 0 {
        seq!['-'] + decimal_text((-code) as nat)
    } else {
        decimal_text(code as nat)
    }
}

/// `needle` occurs somewhere in `hay`.
pub open spec fn mentions(hay: Seq<char>, needle: Seq<char>) -> bool {
    exists|i: int| occurs_at(hay, needle, i)
}

fn status_string(code: i32) -> (r: String)
    ensures
        r@ == status_text(code),
{
    if code < 0 {
        let digits = decimal_string((-(code as i64)) as u64);
        let text = string_from_chars(&digits);
        proof {
            reveal_strlit("-");
        }
        assert("-"@ =~= seq!['-']);
        concat_str("-", text.as_str())
    } else {
        string_from_chars(&decimal_string(code as u64))
    }
}

/// The result of an execution by how it ended: success when it returned or exited with
/// status 0; otherwise a runtime error that names the status, the fuel limit (for a trap
/// that mentions fuel) or the failure.
pub fn execution_result(outcome: &ExecOutcome) -> (r: Result<(), WasmError>)
    ensures
        match outcome {
            ExecOutcome::Completed => r is Ok,
            ExecOutcome::Exited(code) => if *code == 0 {
                r is Ok
            } else {
                r matches Err(WasmError::RuntimeError(m)) && m@ == "Execution exited with status "@
                    + status_text(*code)
            },
            ExecOutcome::Trapped { trap, error } => r matches Err(WasmError::RuntimeError(m)) && m@
                == if mentions(trap@, "fuel"@) {
                "Execution exceeded fuel limit (possible DOS attempt)"@
            } else {
                "Execution failed: "@ + error@
            },
            ExecOutcome::Failed(error) => r matches Err(WasmError::RuntimeError(m)) && m@
                == "Execution failed: "@ + error@,
        },
{
    match outcome {
        ExecOutcome::Completed => Ok(()),
        ExecOutcome::Exited(code) => {
            if *code == 0 {
                Ok(())
            } else {
                let text = status_string(*code);
                Err(WasmError::RuntimeError(concat_str("Execution exited with status ", text.as_str())))
            }
        },
        ExecOutcome::Trapped { trap, error } => {
            let t = chars_of(trap.as_str());
            let fuel = chars_of("fuel");
            match find_from(&t, 0, &fuel) {
                Some(_) => Err(
                    WasmError::RuntimeError(
                        "Execution exceeded fuel limit (possible DOS attempt)".to_string(),
                    ),
                ),
                None => {
                    assert(!mentions(trap@, "fuel"@)) by {
                        if mentions(trap@, "fuel"@) {
                            let i = choose|i: int| occurs_at(trap@, "fuel"@, i);
                            assert(0 <= i);
                        }
                    }
                    Err(WasmError::RuntimeError(concat_str("Execution failed: ", error.as_str())))
                },
            }
        },
        ExecOutcome::Failed(error) => Err(
            WasmError::RuntimeError(concat_str("Execution failed: ", error.as_str())),
        ),
    }
}

} // verus!
