//! Per-call generation settings and the three fixed presets. Sampling
//! temperature is held in thousandths, so the whole object is plain integer
//! data; the caller converts to the provider's fractional form at the wire.

use vstd::prelude::*;
use crate::catalog::AiType;

verus! {

/// Configuration of one text-generation call: model tier, output budget,
/// number of parallel generations, and sampling temperature in thousandths
/// (969 stands for a temperature of 0.969).
#[derive(Debug, Clone, Copy, PartialEq, Eq, Structural)]
pub struct AiSettings {
    pub model: AiType,
    pub max_tokens: u16,
    /// Amount of generations to complete.
    pub n: u8,
    pub temperature_milli: u16,
}

impl AiSettings {
    /// A settings object the completion client accepts: at least one
    /// generation, a positive output budget.
    pub open spec fn valid(self) -> bool {
        self.n >= 1 && self.max_tokens > 0
    }

    /// The preset for the poem-generation call: large output budget, high
    /// temperature.
    pub open spec fn poem_spec() -> AiSettings {
        AiSettings { model: AiType::Davinci, max_tokens: 2048, n: 1, temperature_milli: 969 }
    }

    /// The preset for the title-generation call: small output budget, medium
    /// temperature.
    pub open spec fn title_spec() -> AiSettings {
        AiSettings { model: AiType::Davinci, max_tokens: 80, n: 1, temperature_milli: 769 }
    }

    /// The preset for the seed-expansion call: smallest model tier, medium
    /// temperature.
    pub open spec fn seed_expansion_spec() -> AiSettings {
        AiSettings { model: AiType::Babbage, max_tokens: 128, n: 1, temperature_milli: 769 }
    }

    /// Returns the poem-generation preset.
    pub fn new_poem() -> (r: Self)
        ensures
            r == Self::poem_spec(),
            r.valid(),
    {
        Self { model: AiType::Davinci, max_tokens: 2048, n: 1, temperature_milli: 969 }
    }

    /// Returns the title-generation preset.
    pub fn new_title() -> (r: Self)
        ensures
            r == Self::title_spec(),
            r.valid(),
    {
        Self { model: AiType::Davinci, max_tokens: 80, n: 1, temperature_milli: 769 }
    }

    /// Returns the seed-expansion preset.
    pub fn new_prompt() -> (r: Self)
        ensures
            r == Self::seed_expansion_spec(),
            r.valid(),
    {
        Self { model: AiType::Babbage, max_tokens: 128, n: 1, temperature_milli: 769 }
    }
}

} // verus!
