//! Records of past corrections and the usage totals read back from them.

use vstd::prelude::*;
use crate::fix::TokenUsage;

verus! {

/// A stored correction.
#[derive(Debug, Clone)]
pub struct FixRecord {
    pub id: i64,
    pub timestamp: i64,
    pub provider: String,
    pub model: String,
    pub persona_id: String,
    pub language_tag: String,
    pub translate: bool,
    pub input_tokens: u32,
    pub output_tokens: u32,
    pub original_chars: u32,
    pub corrected_chars: u32,
    pub changed: bool,
    pub elapsed_ms: u32,
}

/// A correction about to be stored.
#[derive(Debug, Clone)]
pub struct NewFix {
    pub timestamp: i64,
    pub provider: String,
    pub model: String,
    pub persona_id: String,
    pub language_tag: String,
    pub translate: bool,
    pub usage: TokenUsage,
    pub original_chars: u32,
    pub corrected_chars: u32,
    pub changed: bool,
    pub elapsed_ms: u32,
}

/// Corrections and tokens over some period.
#[derive(Debug, Clone, Copy, PartialEq, Eq, Structural)]
pub struct UsageSummary {
    pub fixes: u32,
    pub input_tokens: u64,
    pub output_tokens: u64,
}

impl Default for UsageSummary {
    fn default() -> (r: Self)
        ensures
            r.fixes == 0 && r.input_tokens == 0 && r.output_tokens == 0,
    {
        UsageSummary { fixes: 0, input_tokens: 0, output_tokens: 0 }
    }
}

impl UsageSummary {
    pub open spec fn spec_total_tokens(&self) -> u64 {
        if self.input_tokens + self.output_tokens <= u64::MAX {
            (self.input_tokens + self.output_tokens) as u64
        } else {
            u64::MAX
        }
    }

    /// Input and output tokens together, saturating at `u64::MAX`.
    pub fn total_tokens(&self) -> (t: u64)
        ensures
            t == self.spec_total_tokens(),
    {
        self.input_tokens.saturating_add(self.output_tokens)
    }
}

/// How many corrections there are and when the last one was made.
#[derive(Debug, Clone, Copy, PartialEq, Eq, Structural)]
pub struct Stats {
    pub total_fixes: u32,
    pub last_fix: Option<i64>,
}

impl Default for Stats {
    fn default() -> (r: Self)
        ensures
            r.total_fixes == 0 && r.last_fix is None,
    {
        Stats { total_fixes: 0, last_fix: None }
    }
}

/// A database count as a `u32`, saturating (a negative count cannot be
/// represented either and reads as `u32::MAX`).
pub open spec fn spec_count_u32(n: i64) -> u32 {
    if 0 <= n <= u32::MAX {
        n as u32
    } else {
        u32::MAX
    }
}

/// A database sum as a `u64`, with a negative sum read as zero.
pub open spec fn spec_sum_u64(n: i64) -> u64 {
    if n >= 0 {
        n as u64
    } else {
        0
    }
}

/// A database count as a `u32` (`u32::try_from(n).unwrap_or(u32::MAX)`).
pub fn count_u32(n: i64) -> (r: u32)
    ensures
        r == spec_count_u32(n),
{
    if 0 <= n && n <= u32::MAX as i64 {
        n as u32
    } else {
        u32::MAX
    }
}

/// A database sum as a `u64` (`n.max(0) as u64`).
pub fn sum_u64(n: i64) -> (r: u64)
    ensures
        r == spec_sum_u64(n),
{
    if n >= 0 {
        n as u64
    } else {
        0
    }
}

/// A usage summary from a row of count, input-token sum and output-token sum.
pub fn summary_from_row(count: i64, input_sum: i64, output_sum: i64) -> (r: UsageSummary)
    ensures
        r.fixes == spec_count_u32(count),
        r.input_tokens == spec_sum_u64(input_sum),
        r.output_tokens == spec_sum_u64(output_sum),
{
    UsageSummary { fixes: count_u32(count), input_tokens: sum_u64(input_sum), output_tokens: sum_u64(output_sum) }
}

/// Stats from a row of count and latest timestamp.
pub fn stats_from_row(count: i64, last: Option<i64>) -> (r: Stats)
    ensures
        r.total_fixes == spec_count_u32(count),
        r.last_fix == last,
{
    Stats { total_fixes: count_u32(count), last_fix: last }
}

} // verus!
