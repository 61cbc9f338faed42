//! The model providers a correction can be sent to, and their settings.

use vstd::prelude::*;

verus! {

broadcast use vstd::string::group_string_axioms;

/// A provider backend.
#[derive(Debug, Clone, Copy, PartialEq, Eq, Structural)]
pub enum ProviderId {
    Gemini,
    OpenAiCompatible,
    Ollama,
}

impl Default for ProviderId {
    fn default() -> (r: Self)
        ensures
            r == ProviderId::Gemini,
    {
        ProviderId::Gemini
    }
}

impl ProviderId {
    /// Every provider, in the order they are offered.
    pub const ALL: [ProviderId; 3] = [ProviderId::Gemini, ProviderId::OpenAiCompatible, ProviderId::Ollama];

    pub open spec fn spec_slug(self) -> Seq<char> {
        match self {
            ProviderId::Gemini => "gemini"@,
            ProviderId::OpenAiCompatible => "openai"@,
            ProviderId::Ollama => "ollama"@,
        }
    }

    pub open spec fn spec_needs_api_key(self) -> bool {
        !(self is Ollama)
    }

    pub open spec fn spec_default_model(self) -> Seq<char> {
        match self {
            ProviderId::Gemini => "gemini-2.5-flash"@,
            ProviderId::OpenAiCompatible => "gpt-4o-mini"@,
            ProviderId::Ollama => "llama3.2"@,
        }
    }

    pub open spec fn spec_default_base_url(self) -> Seq<char> {
        match self {
            ProviderId::Gemini => "https://generativelanguage.googleapis.com/v1beta"@,
            ProviderId::OpenAiCompatible => "https://api.openai.com/v1"@,
            ProviderId::Ollama => "http://localhost:11434"@,
        }
    }

    /// The short name used in keys, history rows and the keychain.
    pub fn slug(self) -> (s: &'static str)
        ensures
            s@ == self.spec_slug(),
    {
        match self {
            ProviderId::Gemini => "gemini",
            ProviderId::OpenAiCompatible => "openai",
            ProviderId::Ollama => "ollama",
        }
    }

    /// Whether requests to this provider need an API key.
    pub fn needs_api_key(self) -> (b: bool)
        ensures
            b == self.spec_needs_api_key(),
    {
        match self {
            ProviderId::Ollama => false,
            _ => true,
        }
    }

    /// The model used until the user picks one.
    pub fn default_model(self) -> (s: &'static str)
        ensures
            s@ == self.spec_default_model(),
    {
        match self {
            ProviderId::Gemini => "gemini-2.5-flash",
            ProviderId::OpenAiCompatible => "gpt-4o-mini",
            ProviderId::Ollama => "llama3.2",
        }
    }

    /// The endpoint used until the user sets one.
    pub fn default_base_url(self) -> (s: &'static str)
        ensures
            s@ == self.spec_default_base_url(),
    {
        match self {
            ProviderId::Gemini => "https://generativelanguage.googleapis.com/v1beta",
            ProviderId::OpenAiCompatible => "https://api.openai.com/v1",
            ProviderId::Ollama => "http://localhost:11434",
        }
    }
}

/// A provider's settings: which one, an optional endpoint override, the model.
#[derive(Debug)]
pub struct ProviderProfile {
    pub id: ProviderId,
    pub base_url: Option<String>,
    pub model: String,
}

impl Clone for ProviderProfile {
    fn clone(&self) -> (r: Self)
        ensures
            r == *self,
    {
        let base_url = match &self.base_url {
            Some(u) => Some(u.clone()),
            None => None,
        };
        ProviderProfile { id: self.id, base_url, model: self.model.clone() }
    }
}

impl ProviderProfile {
    /// The profile a provider starts with: its default endpoint and model.
    pub fn new(id: ProviderId) -> (r: Self)
        ensures
            r.id == id,
            r.base_url is None,
            r.model@ == id.spec_default_model(),
    {
        ProviderProfile { id, base_url: None, model: id.default_model().to_owned() }
    }

    /// The endpoint requests go to: the override if set, else the default.
    pub open spec fn spec_base_url(&self) -> Seq<char> {
        match self.base_url {
            Some(u) => u@,
            None => self.id.spec_default_base_url(),
        }
    }

    /// The endpoint requests go to.
    pub fn base_url(&self) -> (s: &str)
        ensures
            s@ == self.spec_base_url(),
    {
        match &self.base_url {
            Some(u) => u.as_str(),
            None => self.id.default_base_url(),
        }
    }
}

/// Prices per million tokens for one model. Each price is held as the bit
/// pattern of the `f64` it stands for (`f64::to_bits`); zero bits are a
/// price of zero, meaning "not priced".
#[derive(Debug, Clone, Copy, PartialEq, Eq, Structural)]
pub struct ModelPricing {
    pub input_per_million_bits: u64,
    pub output_per_million_bits: u64,
}

impl Default for ModelPricing {
    fn default() -> (r: Self)
        ensures
            r.input_per_million_bits == 0 && r.output_per_million_bits == 0,
    {
        ModelPricing { input_per_million_bits: 0, output_per_million_bits: 0 }
    }
}

} // verus!
