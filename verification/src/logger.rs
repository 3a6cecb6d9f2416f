//! Logger configuration and application trace identifiers.
//!
//! The logging features are chosen when the program is built; this crate is
//! built without any of them, so the configuration is the default one and
//! trace identifiers are empty.

use vstd::prelude::*;
use crate::text::{radix_digits, to_padded_decimal, zero_padded};
use vstd::string::StringExecFns;

verus! {

broadcast use vstd::string::group_string_axioms;

/// The most verbose level of messages that are written.
#[derive(Clone, Copy, Debug, PartialEq, Eq, Structural)]
pub enum LogLevel {
    Trace,
    Debug,
    Info,
    Warn,
    Error,
}

/// The optional logging features a build may carry.
#[derive(Clone, Copy, Debug)]
pub struct LogFeatures {
    pub enable_log_tracing: bool,
    pub level_all: bool,
    pub level_verbose: bool,
    pub level_info: bool,
    pub level_warn: bool,
    pub level_error: bool,
    pub level_critical: bool,
}

/// The level that a feature set selects: the most verbose feature wins,
/// `critical` means errors only, and no feature means `Info`.
pub open spec fn selected_level(f: LogFeatures) -> LogLevel {
    if f.level_all {
        LogLevel::Trace
    } else if f.level_verbose {
        LogLevel::Debug
    } else if f.level_info {
        LogLevel::Info
    } else if f.level_warn {
        LogLevel::Warn
    } else if f.level_error {
        LogLevel::Error
    } else if f.level_critical {
        LogLevel::Error
    } else {
        LogLevel::Info
    }
}

/// The features of this build: none of them.
pub fn build_features() -> (f: LogFeatures)
    ensures
        !f.enable_log_tracing,
        !f.level_all && !f.level_verbose && !f.level_info,
        !f.level_warn && !f.level_error && !f.level_critical,
{
    LogFeatures {
        enable_log_tracing: false,
        level_all: false,
        level_verbose: false,
        level_info: false,
        level_warn: false,
        level_error: false,
        level_critical: false,
    }
}

/// Whether log records are forwarded to tracing, and the level kept.
#[derive(Clone, Copy, Debug)]
pub struct LoggerConfig {
    pub enable_log_tracing: bool,
    pub log_level: LogLevel,
}

impl LoggerConfig {
    /// The configuration that a feature set selects.
    pub fn from_features(f: &LogFeatures) -> (c: LoggerConfig)
        ensures
            c.enable_log_tracing == f.enable_log_tracing,
            c.log_level == selected_level(*f),
    {
        let log_level = if f.level_all {
            LogLevel::Trace
        } else if f.level_verbose {
            LogLevel::Debug
        } else if f.level_info {
            LogLevel::Info
        } else if f.level_warn {
            LogLevel::Warn
        } else if f.level_error {
            LogLevel::Error
        } else if f.level_critical {
            LogLevel::Error
        } else {
            LogLevel::Info
        };
        LoggerConfig { enable_log_tracing: f.enable_log_tracing, log_level }
    }

    /// The configuration of this build: no tracing bridge, level `Info`.
    pub fn from_env() -> (c: LoggerConfig)
        ensures
            !c.enable_log_tracing,
            c.log_level == LogLevel::Info,
    {
        let f = build_features();
        LoggerConfig::from_features(&f)
    }
}

/// The logger of a build with logging; it holds no state of its own.
#[derive(Clone, Copy, Debug)]
pub struct Logger {}

/// The logger of a build without logging.
#[derive(Clone, Copy, Debug)]
pub struct NoLogger {}

impl NoLogger {
    /// Sets nothing up and always succeeds; the channel size is not used.
    pub fn new(channel_size: usize) -> (r: Result<NoLogger, anyhow::Error>)
        ensures
            r is Ok,
    {
        Ok(NoLogger {})
    }
}

/// The largest counter value of a trace identifier; the next one starts at 1.
pub const TRACE_COUNTER_LIMIT: u32 = 999_999;

/// The counter that follows `previous`: one more, or 1 past the limit.
pub open spec fn next_counter(previous: u32) -> u32 {
    if previous + 1 > TRACE_COUNTER_LIMIT {
        1
    } else {
        (previous + 1) as u32
    }
}

/// A trace identifier: the process id in 6 digits, the time in milliseconds
/// in 13 digits and the counter in 6 digits, each padded with zeros.
pub open spec fn trace_id_text(pid: u32, timestamp_ms: u128, counter: u32) -> Seq<char> {
    zero_padded(radix_digits(pid as nat, 10), 6) + zero_padded(radix_digits(timestamp_ms as nat, 10), 13)
        + zero_padded(radix_digits(counter as nat, 10), 6)
}

/// The next trace identifier and the counter value to keep for the one after.
pub fn trace_id(pid: u32, timestamp_ms: u128, previous_counter: u32) -> (r: (String, u32))
    requires
        previous_counter < u32::MAX,
    ensures
        r.1 == next_counter(previous_counter),
        r.0@ == trace_id_text(pid, timestamp_ms, r.1),
{
    let bumped = previous_counter + 1;
    let counter = if bumped > TRACE_COUNTER_LIMIT { 1 } else { bumped };
    let mut id = to_padded_decimal(pid as u128, 6);
    let ms = to_padded_decimal(timestamp_ms, 13);
    let c = to_padded_decimal(counter as u128, 6);
    id.append(ms.as_str());
    id.append(c.as_str());
    (id, counter)
}

/// `10^k`.
pub open spec fn pow10(k: nat) -> nat
    decreases k,
{
    if k == 0 {
        1
    } else {
        10 * pow10((k - 1) as nat)
    }
}

proof fn lemma_decimal_width(n: nat, k: nat)
    requires
        1 <= k,
        n < pow10(k),
    ensures
        radix_digits(n, 10).len() <= k,
    decreases k,
{
    if n >= 10 {
        if k == 1 {
            assert(pow10(1) == 10 * pow10(0));
        }
        let q = n / 10;
        let p = pow10((k - 1) as nat);
        assert(q < p) by (nonlinear_arith)
            requires
                n < 10 * p,
                q == n / 10,
        ;
        lemma_decimal_width(q, (k - 1) as nat);
    }
}

proof fn lemma_padded_width(n: nat, k: nat)
    requires
        1 <= k,
        n < pow10(k),
    ensures
        zero_padded(radix_digits(n, 10), k).len() == k,
{
    lemma_decimal_width(n, k);
}

/// The counter of a trace identifier always stays between 1 and the limit.
pub proof fn law_trace_counter_in_range(previous: u32)
    requires
        previous < u32::MAX,
    ensures
        1 <= next_counter(previous) <= TRACE_COUNTER_LIMIT,
{
}

/// A trace identifier is 25 characters long when the process id has at most 6
/// digits, the time at most 13 and the counter is in its range.
pub proof fn law_trace_id_length(pid: u32, timestamp_ms: u128, counter: u32)
    requires
        pid < 1_000_000,
        timestamp_ms < 10_000_000_000_000,
        1 <= counter <= TRACE_COUNTER_LIMIT,
    ensures
        trace_id_text(pid, timestamp_ms, counter).len() == 25,
{
    reveal_with_fuel(pow10, 14);
    lemma_padded_width(pid as nat, 6);
    lemma_padded_width(timestamp_ms as nat, 13);
    lemma_padded_width(counter as nat, 6);
}

/// The trace identifier of a build without tracing: empty.
pub fn generate() -> (s: String)
    ensures
        s@ == Seq::<char>::empty(),
{
    String::new()
}

} // verus!
