//! What a correction takes in and gives back.

use vstd::prelude::*;
use crate::diff::{has_changes, word_diff, DiffKind, DiffSegment, merged_runs, segments_view, side_text, word_changes};

verus! {

/// Where the text to correct comes from.
#[derive(Debug, Clone, Copy, PartialEq, Eq, Structural)]
pub enum InputSource {
    Selection,
    Clipboard,
}

impl Default for InputSource {
    fn default() -> (r: Self)
        ensures
            r == InputSource::Selection,
    {
        InputSource::Selection
    }
}

/// What happens to a correction once it arrives.
#[derive(Debug, Clone, Copy, PartialEq, Eq, Structural)]
pub enum OutputMode {
    Review,
    Replace,
    Clipboard,
    Append,
    Prepend,
}

impl Default for OutputMode {
    fn default() -> (r: Self)
        ensures
            r == OutputMode::Review,
    {
        OutputMode::Review
    }
}

impl OutputMode {
    /// The modes that type into another application.
    pub open spec fn spec_needs_injection(self) -> bool {
        self is Replace || self is Append || self is Prepend
    }

    /// Whether this mode has to type into another application.
    pub fn needs_injection(self) -> (b: bool)
        ensures
            b == self.spec_needs_injection(),
    {
        match self {
            OutputMode::Replace | OutputMode::Append | OutputMode::Prepend => true,
            _ => false,
        }
    }
}

/// Tokens a provider reports for one request.
#[derive(Debug, Clone, Copy, PartialEq, Eq, Structural)]
pub struct TokenUsage {
    pub input_tokens: u32,
    pub output_tokens: u32,
}

impl Default for TokenUsage {
    fn default() -> (r: Self)
        ensures
            r.input_tokens == 0 && r.output_tokens == 0,
    {
        TokenUsage { input_tokens: 0, output_tokens: 0 }
    }
}

impl TokenUsage {
    /// Input and output tokens together, saturating at `u32::MAX`.
    pub fn total(&self) -> (t: u32)
        ensures
            t == if self.input_tokens + self.output_tokens <= u32::MAX {
                (self.input_tokens + self.output_tokens) as u32
            } else {
                u32::MAX
            },
    {
        self.input_tokens.saturating_add(self.output_tokens)
    }
}

/// A finished correction.
#[derive(Debug, Clone)]
pub struct FixOutcome {
    pub original: String,
    pub corrected: String,
    pub diff: Vec<DiffSegment>,
    pub changed: bool,
    pub usage: TokenUsage,
    pub provider: String,
    pub model: String,
    pub elapsed_ms: u64,
}

/// `o` is the outcome of correcting `original` into `corrected`: it holds the
/// texts and the request's details, the merged word diff of the two texts, and
/// counts as changed exactly when that diff holds an insertion or a deletion.
pub open spec fn is_outcome_of(
    o: FixOutcome,
    original: String,
    corrected: String,
    usage: TokenUsage,
    provider: String,
    model: String,
    elapsed_ms: u64,
) -> bool {
    &&& o.original == original
    &&& o.corrected == corrected
    &&& o.usage == usage
    &&& o.provider == provider
    &&& o.model == model
    &&& o.elapsed_ms == elapsed_ms
    &&& segments_view(o.diff@) == merged_runs(word_changes(original@, corrected@))
    &&& o.changed == exists|i: int| 0 <= i < o.diff@.len() && (#[trigger] o.diff@[i]).kind != DiffKind::Equal
}

impl FixOutcome {
    /// Records a correction together with its word diff; it counts as changed
    /// exactly when the diff holds an insertion or a deletion.
    pub fn new(
        original: String,
        corrected: String,
        usage: TokenUsage,
        provider: String,
        model: String,
        elapsed_ms: u64,
    ) -> (r: Self)
        ensures
            r.original == original,
            r.corrected == corrected,
            r.usage == usage,
            r.provider == provider,
            r.model == model,
            r.elapsed_ms == elapsed_ms,
            segments_view(r.diff@) == merged_runs(word_changes(original@, corrected@)),
            side_text(segments_view(r.diff@), DiffKind::Insert) == original@,
            side_text(segments_view(r.diff@), DiffKind::Delete) == corrected@,
            r.changed == exists|i: int| 0 <= i < r.diff@.len() && (#[trigger] r.diff@[i]).kind
                != DiffKind::Equal,
            r.changed <==> original@ != corrected@,
            is_outcome_of(r, original, corrected, usage, provider, model, elapsed_ms),
    {
        let diff = word_diff(original.as_str(), corrected.as_str());
        let changed = has_changes(diff.as_slice());
        FixOutcome { original, corrected, diff, changed, usage, provider, model, elapsed_ms }
    }
}

} // verus!
