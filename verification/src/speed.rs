//! How much effort a correction gets: temperature and output budget.

use vstd::prelude::*;

verus! {

/// The speed/depth preset chosen by the user.
#[derive(Debug, Clone, Copy, PartialEq, Eq, Structural)]
pub enum Speed {
    Fast,
    Normal,
    Detailed,
}

impl Default for Speed {
    fn default() -> (r: Self)
        ensures
            r == Speed::Normal,
    {
        Speed::Normal
    }
}

/// Sampling parameters for one request. The temperature is kept in tenths
/// (`1` is a temperature of 0.1); the application turns it into a float.
#[derive(Debug, Clone, Copy, PartialEq, Eq, Structural)]
pub struct GenerationParams {
    pub temperature_tenths: u32,
    pub max_output_tokens: u32,
}

/// The most output tokens any request asks for.
pub const MAX_OUTPUT_TOKENS: u32 = 8192;

/// `chars / 3` rounded up, as a token estimate, saturating at `u32::MAX`.
pub open spec fn estimated_tokens(chars: nat) -> int {
    let t: int = ((chars + 2) / 3) as int;
    if t <= u32::MAX {
        t
    } else {
        u32::MAX as int
    }
}

impl Speed {
    pub open spec fn spec_temperature_tenths(self) -> u32 {
        match self {
            Speed::Fast => 1,
            Speed::Normal => 3,
            Speed::Detailed => 5,
        }
    }

    pub open spec fn spec_base_output_tokens(self) -> u32 {
        match self {
            Speed::Fast => 512,
            Speed::Normal => 1024,
            Speed::Detailed => 2048,
        }
    }

    /// The output budget for an input of `input_chars` characters: twice the
    /// estimated input plus 256 (saturating), at least the preset's floor,
    /// at most `MAX_OUTPUT_TOKENS`.
    pub open spec fn spec_output_budget(self, input_chars: nat) -> u32 {
        let needed = 2 * estimated_tokens(input_chars) + 256;
        let needed = if needed <= u32::MAX {
            needed
        } else {
            u32::MAX as int
        };
        let floored = if needed >= self.spec_base_output_tokens() {
            needed
        } else {
            self.spec_base_output_tokens() as int
        };
        if floored <= MAX_OUTPUT_TOKENS {
            floored as u32
        } else {
            MAX_OUTPUT_TOKENS
        }
    }

    /// Temperature of this preset, in tenths.
    pub fn temperature_tenths(self) -> (t: u32)
        ensures
            t == self.spec_temperature_tenths(),
    {
        match self {
            Speed::Fast => 1,
            Speed::Normal => 3,
            Speed::Detailed => 5,
        }
    }

    /// The smallest output budget of this preset.
    pub fn base_output_tokens(self) -> (t: u32)
        ensures
            t == self.spec_base_output_tokens(),
    {
        match self {
            Speed::Fast => 512,
            Speed::Normal => 1024,
            Speed::Detailed => 2048,
        }
    }

    /// Parameters for an input of `input_chars` characters.
    pub fn params_for(self, input_chars: usize) -> (p: GenerationParams)
        ensures
            p.temperature_tenths == self.spec_temperature_tenths(),
            p.max_output_tokens == self.spec_output_budget(input_chars as nat),
    {
        let estimated = estimate_tokens(input_chars);
        let doubled = if estimated <= u32::MAX / 2 {
            estimated * 2
        } else {
            u32::MAX
        };
        let needed = doubled.saturating_add(256);
        let base = self.base_output_tokens();
        let floored = if needed >= base {
            needed
        } else {
            base
        };
        let capped = if floored <= MAX_OUTPUT_TOKENS {
            floored
        } else {
            MAX_OUTPUT_TOKENS
        };
        GenerationParams { temperature_tenths: self.temperature_tenths(), max_output_tokens: capped }
    }
}

/// Estimated tokens for `chars` characters: a third, rounded up, saturating.
pub fn estimate_tokens(chars: usize) -> (t: u32)
    ensures
        t == estimated_tokens(chars as nat),
{
    let third = chars / 3 + if chars % 3 != 0 {
        1usize
    } else {
        0usize
    };
    assert(third == (chars + 2) / 3);
    if third as u64 <= u32::MAX as u64 {
        third as u32
    } else {
        u32::MAX
    }
}

/// The output budget never falls below the preset's floor nor exceeds
/// `MAX_OUTPUT_TOKENS`, and never shrinks as the input grows.
pub proof fn lemma_output_budget_is_bounded_and_grows(speed: Speed, a: nat, b: nat)
    requires
        a <= b,
    ensures
        speed.spec_base_output_tokens() <= speed.spec_output_budget(a) <= MAX_OUTPUT_TOKENS,
        speed.spec_output_budget(a) <= speed.spec_output_budget(b),
{
    assert((a + 2) / 3 <= (b + 2) / 3) by (nonlinear_arith)
        requires
            a <= b,
    ;
}

/// Deeper presets sample at a higher temperature.
pub proof fn lemma_temperature_rises_with_depth()
    ensures
        Speed::Fast.spec_temperature_tenths() < Speed::Normal.spec_temperature_tenths(),
        Speed::Normal.spec_temperature_tenths() < Speed::Detailed.spec_temperature_tenths(),
{
}

} // verus!
