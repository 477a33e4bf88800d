use vstd::prelude::*;

use crate::text::{chars_of, is_digit, push_char, spec_parse_u64, all_digits, decimal_value, parse_u64_chars, string_from_chars, sub_vec, concat_str};

verus! {

/// Universal compute unit measurement
#[derive(Debug, Clone, Copy, PartialEq, Eq, Structural)]
pub struct ComputeUnits(pub u64);

/// The decimal digits of a number.
pub open spec fn decimal_text(n: nat) -> Seq<char>
    decreases n,
{
    if n < 10 {
        seq![(48 + n) as char]
    } else {
        decimal_text(n / 10) + seq![(48 + n % 10) as char]
    }
}

/// Digits grouped in threes from the right, separated by commas.
pub open spec fn with_commas(s: Seq<char>) -> Seq<char>
    decreases s.len(),
{
    if s.len() <= 3 {
        s
    } else {
        with_commas(s.subrange(0, s.len() - 3)) + seq![','] + s.subrange(s.len() - 3, s.len() as int)
    }
}

/// The decimal digits of a number (`u64::to_string`).
pub fn decimal_string(n: u64) -> (r: Vec<char>)
    ensures
        r@ == decimal_text(n as nat),
    decreases n,
{
    let d = (n % 10) as u8;
    let c: char = if d == 0 {
        '0'
    } else if d == 1 {
        '1'
    } else if d == 2 {
        '2'
    } else if d == 3 {
        '3'
    } else if d == 4 {
        '4'
    } else if d == 5 {
        '5'
    } else if d == 6 {
        '6'
    } else if d == 7 {
        '7'
    } else if d == 8 {
        '8'
    } else {
        '9'
    };
    assert(c == (48 + (n as nat) % 10) as char);
    if n < 10 {
        let mut v: Vec<char> = Vec::new();
        v.push(c);
        assert(v@ =~= seq![c]);
        v
    } else {
        let mut v = decimal_string(n / 10);
        v.push(c);
        v
    }
}

fn group_digits(v: &Vec<char>, n: usize) -> (r: Vec<char>)
    requires
        n <= v.len(),
    ensures
        r@ == with_commas(v@.subrange(0, n as int)),
    decreases n,
{
    if n <= 3 {
        return sub_vec(v, 0, n);
    }
    let mut r = group_digits(v, n - 3);
    r.push(',');
    let mut i: usize = n - 3;
    let ghost head = r@;
    while i < n
        invariant
            3 < n <= v.len(),
            n - 3 <= i <= n,
            r@ == head + v@.subrange(n - 3, i as int),
        decreases n - i,
    {
        r.push(v[i]);
        assert(r@ =~= head + v@.subrange(n - 3, i + 1));
        i = i + 1;
    }
    proof {
        let s = v@.subrange(0, n as int);
        assert(s.subrange(0, s.len() - 3) =~= v@.subrange(0, n - 3));
        assert(s.subrange(s.len() - 3, s.len() as int) =~= v@.subrange(n - 3, n as int));
    }
    r
}

/// Helper to format numbers with comma separators
pub fn format_with_commas(n: u64) -> (r: String)
    ensures
        r@ == with_commas(decimal_text(n as nat)),
{
    let digits = decimal_string(n);
    let grouped = group_digits(&digits, digits.len());
    assert(digits@.subrange(0, digits.len() as int) =~= digits@);
    string_from_chars(&grouped)
}

impl ComputeUnits {
    /// Create from raw units
    pub fn new(units: u64) -> (r: ComputeUnits)
        ensures
            r.0 == units,
    {
        ComputeUnits(units)
    }

    /// Format for exact display with comma separators
    pub fn exact(&self) -> (r: String)
        ensures
            r@ == with_commas(decimal_text(self.0 as nat)) + " CU"@,
    {
        let n = format_with_commas(self.0);
        concat_str(n.as_str(), " CU")
    }
}

/// Display format options
#[derive(Debug, Clone, Copy, PartialEq, Eq, Structural)]
pub enum DisplayFormat {
    /// Minimal single-line display
    Minimal,
    /// Detailed multi-line display
    Detailed,
    /// JSON for programmatic consumption
    Json,
    /// Progress bar visualization
    ProgressBar,
}

impl Default for DisplayFormat {
    fn default() -> (r: Self)
        ensures
            r == DisplayFormat::Minimal,
    {
        DisplayFormat::Minimal
    }
}

/// Sampling strategy for real-time monitoring
#[derive(Debug, Clone, Copy)]
pub struct SamplingStrategy {
    /// Minimum units between samples
    pub unit_threshold: u64,
    /// Minimum time between samples (ms)
    pub time_threshold_ms: u64,
    /// Adaptive rate based on execution speed
    pub adaptive: bool,
}

/// The default unit threshold between samples
pub fn default_unit_threshold() -> (r: u64)
    ensures
        r == 100_000,
{
    100_000
}

/// The default time between samples, in milliseconds
pub fn default_time_threshold_ms() -> (r: u64)
    ensures
        r == 100,
{
    100
}

/// Adaptive sampling is on by default
pub fn default_adaptive() -> (r: bool)
    ensures
        r,
{
    true
}

impl Default for SamplingStrategy {
    fn default() -> (r: Self)
        ensures
            r.unit_threshold == 100_000,
            r.time_threshold_ms == 100,
            r.adaptive,
    {
        SamplingStrategy {
            unit_threshold: default_unit_threshold(),
            time_threshold_ms: default_time_threshold_ms(),
            adaptive: default_adaptive(),
        }
    }
}

impl SamplingStrategy {
    /// A sample is taken once enough time and units have passed; for very fast execution
    /// (over a billion units per second, when adaptive) only after ten times the units.
    pub open spec fn spec_should_sample(self, units: u64, elapsed_ms: u128, rate: u64) -> bool {
        if elapsed_ms < self.time_threshold_ms {
            false
        } else if units < self.unit_threshold {
            false
        } else if self.adaptive && rate > 1_000_000_000 {
            units > self.unit_threshold * 10
        } else {
            true
        }
    }

    /// Determine if we should sample now, `elapsed_ms` milliseconds after the last sample
    pub fn should_sample(&self, units_since_last: u64, elapsed_ms: u128, current_rate: u64) -> (r: bool)
        requires
            elapsed_ms >= self.time_threshold_ms && units_since_last >= self.unit_threshold
                && self.adaptive && current_rate > 1_000_000_000 ==> self.unit_threshold * 10
                <= u64::MAX,
        ensures
            r == self.spec_should_sample(units_since_last, elapsed_ms, current_rate),
    {
        if elapsed_ms < self.time_threshold_ms as u128 {
            return false;
        }
        if units_since_last < self.unit_threshold {
            return false;
        }
        if self.adaptive && current_rate > 1_000_000_000 {
            return units_since_last > self.unit_threshold * 10;
        }
        true
    }
}

/// Memory limits with defense-in-depth
#[derive(Debug, Clone, Copy)]
pub struct MemoryLimits {
    /// Maximum memory in bytes
    pub max_memory: usize,
    /// Soft limit for warnings
    pub soft_limit: Option<usize>,
    /// Maximum table elements
    pub max_tables: u32,
    /// Maximum module instances
    pub max_instances: u32,
}

/// The default table limit
pub fn default_max_tables() -> (r: u32)
    ensures
        r == 10,
{
    10
}

/// The default instance limit
pub fn default_max_instances() -> (r: u32)
    ensures
        r == 100,
{
    100
}

impl Default for MemoryLimits {
    fn default() -> (r: Self)
        ensures
            r.max_memory == 512 * 1024 * 1024,
            r.soft_limit is None,
            r.max_tables == 10,
            r.max_instances == 100,
    {
        MemoryLimits {
            max_memory: 512 * 1024 * 1024,
            soft_limit: None,
            max_tables: default_max_tables(),
            max_instances: default_max_instances(),
        }
    }
}

/// Whether a character is alphabetic (the Unicode `Alphabetic` property).
pub uninterp spec fn alphabetic(c: char) -> bool;

/// An ASCII letter.
pub open spec fn ascii_letter(c: char) -> bool {
    ('a' <= c && c <= 'z') || ('A' <= c && c <= 'Z')
}

/// Every character of the text is ASCII.
pub open spec fn ascii_text(s: Seq<char>) -> bool {
    forall|i: int| 0 <= i < s.len() ==> (#[trigger] s[i] as int) < 128
}

/// `char::is_alphabetic` from std. The contract names the answer and states what holds of
/// the `Alphabetic` property among ASCII characters: exactly the letters have it.
#[verifier::external_body]
fn is_alphabetic(c: char) -> (r: bool)
    ensures
        r == alphabetic(c),
        (c as int) < 128 ==> (r <==> ascii_letter(c)),
{
    c.is_alphabetic()
}

/// The position of the first ASCII letter (the length when there is none).
pub open spec fn ascii_alpha_start(s: Seq<char>) -> int
    decreases s.len(),
{
    if s.len() == 0 {
        0
    } else if ascii_letter(s[0]) {
        0
    } else {
        1 + ascii_alpha_start(s.drop_first())
    }
}

/// The position of the first alphabetic character (the length when there is none).
pub open spec fn alpha_start(s: Seq<char>) -> int
    decreases s.len(),
{
    if s.len() == 0 {
        0
    } else if alphabetic(s[0]) {
        0
    } else {
        1 + alpha_start(s.drop_first())
    }
}

/// The multiplier of a size unit.
pub open spec fn unit_multiplier(u: Seq<char>) -> Option<int> {
    if u == "Ki"@ {
        Some(1024)
    } else if u == "Mi"@ {
        Some(1048576)
    } else if u == "Gi"@ {
        Some(1073741824)
    } else if u == "K"@ {
        Some(1000)
    } else if u == "M"@ {
        Some(1000000)
    } else if u == "G"@ {
        Some(1000000000)
    } else if u.len() == 0 {
        Some(1)
    } else {
        None
    }
}

/// Why a number does not parse as a `usize`, as the standard library words it.
pub open spec fn number_error(s: Seq<char>) -> Seq<char> {
    let d = if s.len() > 0 && s[0] == '+' {
        s.drop_first()
    } else {
        s
    };
    if s.len() == 0 {
        "cannot parse integer from empty string"@
    } else if d.len() == 0 || !all_digits(d) {
        "invalid digit found in string"@
    } else {
        "number too large to fit in target type"@
    }
}

/// The number of a size text: what comes before its unit, when it parses as a `usize`.
pub open spec fn size_number(s: Seq<char>) -> Option<u64> {
    match spec_parse_u64(s.subrange(0, alpha_start(s))) {
        Some(v) => if v <= usize::MAX {
            Some(v)
        } else {
            None
        },
        None => None,
    }
}

/// A size in bytes, read as `parse_size` reads it, or the message that rejects it.
pub open spec fn size_value(s: Seq<char>) -> Result<int, Seq<char>> {
    let k = alpha_start(s);
    let num = s.subrange(0, k);
    let unit = s.subrange(k, s.len() as int);
    match size_number(s) {
        None => Err("Invalid number: "@ + number_error(num)),
        Some(v) => match unit_multiplier(unit) {
            Some(m) => Ok(v * m),
            None => Err("Unknown unit: "@ + unit),
        },
    }
}

fn alpha_position(v: &Vec<char>) -> (r: usize)
    ensures
        r as int == alpha_start(v@),
        ascii_text(v@) ==> r as int == ascii_alpha_start(v@),
        r <= v.len(),
{
    let mut i: usize = 0;
    assert(v@.skip(0) =~= v@);
    let mut found = false;
    while i < v.len() && !found
        invariant
            i <= v.len(),
            alpha_start(v@) == if found { i as int } else { i + alpha_start(v@.skip(i as int)) },
            ascii_text(v@) ==> ascii_alpha_start(v@) == if found { i as int } else { i + ascii_alpha_start(v@.skip(i as int)) },
            found ==> i < v.len(),
        decreases v.len() - i, if found { 0int } else { 1int },
    {
        assert(v@.skip(i as int)[0] == v@[i as int]);
        if is_alphabetic(v[i]) {
            proof {
                if ascii_text(v@) {
                    assert((v@[i as int] as int) < 128);
                }
            }
            found = true;
        } else {
            proof {
                if ascii_text(v@) {
                    assert((v@[i as int] as int) < 128);
                }
            }
            assert(v@.skip(i as int).drop_first() =~= v@.skip(i + 1));
            i = i + 1;
        }
    }
    proof {
        if !found {
            assert(v@.skip(i as int).len() == 0);
        }
    }
    i
}

fn describe_number_error(num: &Vec<char>) -> (r: String)
    ensures
        r@ == number_error(num@),
{
    let start: usize = if num.len() > 0 && num[0] == '+' {
        1
    } else {
        0
    };
    let ghost d = if num@.len() > 0 && num@[0] == '+' {
        num@.drop_first()
    } else {
        num@
    };
    assert(d =~= num@.subrange(start as int, num.len() as int));
    if num.len() == 0 {
        return "cannot parse integer from empty string".to_string();
    }
    let mut i: usize = start;
    while i < num.len()
        invariant
            start <= i <= num.len(),
            num.len() > 0,
            d == num@.subrange(start as int, num.len() as int),
            d == (if num@.len() > 0 && num@[0] == '+' {
                num@.drop_first()
            } else {
                num@
            }),
            forall|k: int| start <= k < i ==> is_digit(#[trigger] num@[k]),
        decreases num.len() - i,
    {
        if !(num[i] >= '0' && num[i] <= '9') {
            assert(!is_digit(d[i - start]));
            return "invalid digit found in string".to_string();
        }
        i = i + 1;
    }
    if start == num.len() {
        return "invalid digit found in string".to_string();
    }
    assert forall|k: int| 0 <= k < d.len() implies is_digit(#[trigger] d[k]) by {
        assert(d[k] == num@[start + k]);
    }
    "number too large to fit in target type".to_string()
}

proof fn lemma_ascii_alpha_start_digits(d: Seq<char>, u: Seq<char>)
    requires
        all_digits(d),
    ensures
        ascii_alpha_start(d + u) == d.len() + ascii_alpha_start(u),
    decreases d.len(),
{
    if d.len() > 0 {
        let t = d + u;
        assert(t[0] == d[0]);
        assert(is_digit(d[0]));
        assert(t.drop_first() =~= d.drop_first() + u);
        assert forall|i: int| 0 <= i < d.drop_first().len() implies is_digit(#[trigger] d.drop_first()[i]) by {
            assert(d.drop_first()[i] == d[i + 1]);
        }
        lemma_ascii_alpha_start_digits(d.drop_first(), u);
    } else {
        assert(d + u =~= u);
    }
}

/// Sizes scale by their unit: a number `n` (decimal digits) followed by nothing, `K`, `M`
/// or `G` reads as `n`, `n * 1000`, `n * 1000000` or `n * 1000000000` bytes, and followed
/// by `Ki`, `Mi` or `Gi` as `n * 1024`, `n * 1048576` or `n * 1073741824`. (The premise on
/// where the unit starts is what [`MemoryLimits::parse_size`] states of ASCII text.)
pub proof fn lemma_size_units(d: Seq<char>, u: Seq<char>)
    requires
        d.len() > 0,
        all_digits(d),
        decimal_value(d) <= usize::MAX,
        alpha_start(d + u) == ascii_alpha_start(d + u),
    ensures
        u == ""@ ==> size_value(d + u) == Ok::<int, Seq<char>>(decimal_value(d) as int),
        u == "K"@ ==> size_value(d + u) == Ok::<int, Seq<char>>((decimal_value(d) as int) * 1000),
        u == "M"@ ==> size_value(d + u) == Ok::<int, Seq<char>>((decimal_value(d) as int) * 1000000),
        u == "G"@ ==> size_value(d + u) == Ok::<int, Seq<char>>((decimal_value(d) as int) * 1000000000),
        u == "Ki"@ ==> size_value(d + u) == Ok::<int, Seq<char>>((decimal_value(d) as int) * 1024),
        u == "Mi"@ ==> size_value(d + u) == Ok::<int, Seq<char>>((decimal_value(d) as int) * 1048576),
        u == "Gi"@ ==> size_value(d + u) == Ok::<int, Seq<char>>((decimal_value(d) as int) * 1073741824),
{
    reveal_strlit("");
    reveal_strlit("K");
    reveal_strlit("M");
    reveal_strlit("G");
    reveal_strlit("Ki");
    reveal_strlit("Mi");
    reveal_strlit("Gi");
    let t = d + u;
    if u == ""@ || u == "K"@ || u == "M"@ || u == "G"@ || u == "Ki"@ || u == "Mi"@ || u == "Gi"@ {
        lemma_ascii_alpha_start_digits(d, u);
        if u.len() > 0 {
            assert(ascii_letter(u[0]));
        }
        assert(ascii_alpha_start(u) == 0);
        assert(alpha_start(t) == d.len());
        assert(t.subrange(0, d.len() as int) =~= d);
        assert(t.subrange(d.len() as int, t.len() as int) =~= u);
        assert(is_digit(d[0]));
        assert(spec_parse_u64(d) == Some(decimal_value(d) as u64));
        assert(size_number(t) == Some(decimal_value(d) as u64));
    }
}

impl MemoryLimits {
    /// Parse human-readable size formats like "512Mi", "1Gi", "100Ki"
    pub fn parse_size(input: &str) -> (r: Result<usize, String>)
        requires
            size_value(input@) matches Ok(v) ==> v <= usize::MAX,
        ensures
            match size_value(input@) {
                Ok(v) => r matches Ok(x) && x == v,
                Err(m) => r matches Err(e) && e@ == m,
            },
            ascii_text(input@) ==> alpha_start(input@) == ascii_alpha_start(input@),
    {
        let v = chars_of(input);
        let k = alpha_position(&v);
        let num = sub_vec(&v, 0, k);
        let unit = sub_vec(&v, k, v.len());
        let base: usize = match parse_u64_chars(&num) {
            Some(b) => {
                if b > usize::MAX as u64 {
                    let msg = describe_number_error(&num);
                    return Err(concat_str("Invalid number: ", msg.as_str()));
                }
                b as usize
            },
            None => {
                let msg = describe_number_error(&num);
                return Err(concat_str("Invalid number: ", msg.as_str()));
            },
        };
        let u = string_from_chars(&unit);
        let us = u.as_str();
        let multiplier: usize = if crate::text::str_eq(us, "Ki") {
            1024
        } else if crate::text::str_eq(us, "Mi") {
            1048576
        } else if crate::text::str_eq(us, "Gi") {
            1073741824
        } else if crate::text::str_eq(us, "K") {
            1000
        } else if crate::text::str_eq(us, "M") {
            1000000
        } else if crate::text::str_eq(us, "G") {
            1000000000
        } else if us.is_empty() {
            1
        } else {
            return Err(concat_str("Unknown unit: ", us));
        };
        Ok(base * multiplier)
    }
}

/// Runtime-agnostic metering
pub trait RuntimeMetering {
    /// The native units consumed, in specifications
    spec fn units(&self) -> u64;

    /// Get native units consumed
    fn native_units(&self) -> (r: u64)
        ensures
            r == self.units(),
    ;

    /// Convert to normalized compute units (one per native unit)
    fn to_compute_units(&self) -> (r: ComputeUnits)
        ensures
            r.0 == self.units(),
    {
        ComputeUnits::new(self.native_units())
    }

    /// Runtime-specific unit name
    fn unit_name(&self) -> &'static str;
}

/// Wasmtime fuel wrapper
pub struct WasmtimeFuel(pub u64);

impl RuntimeMetering for WasmtimeFuel {
    open spec fn units(&self) -> u64 {
        self.0
    }

    fn native_units(&self) -> (r: u64) {
        self.0
    }

    fn unit_name(&self) -> (r: &'static str)
        ensures
            r@ == "fuel"@,
    {
        "fuel"
    }
}

/// WasmEdge gas wrapper
pub struct WasmEdgeGas(pub u64);

impl RuntimeMetering for WasmEdgeGas {
    open spec fn units(&self) -> u64 {
        self.0
    }

    fn native_units(&self) -> (r: u64) {
        self.0
    }

    fn unit_name(&self) -> (r: &'static str)
        ensures
            r@ == "gas"@,
    {
        "gas"
    }
}

} // verus!
