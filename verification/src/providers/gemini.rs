//! Google Gemini: reading `generateContent` replies and the model list.

use vstd::prelude::*;
use vstd::string::StringExecFns;
use crate::fix::TokenUsage;
use crate::provider::ProviderId;
use crate::providers::{Completion, ModelInfo, ProviderError};
use crate::text::{chars_of, eq_str, string_from_range, matches_at, occurs_at};

verus! {

broadcast use vstd::string::group_string_axioms;

/// One part of a candidate's content.
#[derive(Debug)]
pub struct GeminiPart {
    pub text: Option<String>,
}

/// A candidate's content.
#[derive(Debug)]
pub struct GeminiContent {
    pub parts: Vec<GeminiPart>,
}

/// One candidate answer.
#[derive(Debug)]
pub struct GeminiCandidate {
    pub content: Option<GeminiContent>,
    pub finish_reason: Option<String>,
}

/// Token counts of a reply.
#[derive(Debug, Clone, Copy, PartialEq, Eq, Structural)]
pub struct GeminiUsageMetadata {
    pub prompt_token_count: u32,
    pub candidates_token_count: u32,
}

/// Why the prompt itself was blocked, if it was.
#[derive(Debug)]
pub struct GeminiPromptFeedback {
    pub block_reason: Option<String>,
}

/// A `generateContent` reply.
#[derive(Debug)]
pub struct GenerateContentResponse {
    pub candidates: Vec<GeminiCandidate>,
    pub usage_metadata: Option<GeminiUsageMetadata>,
    pub prompt_feedback: Option<GeminiPromptFeedback>,
}

/// A model entry of the model list.
#[derive(Debug)]
pub struct GeminiModel {
    pub name: String,
    pub display_name: Option<String>,
    pub supported_generation_methods: Vec<String>,
}

/// The text of the parts that have text, concatenated.
pub open spec fn parts_text(parts: Seq<GeminiPart>) -> Seq<char>
    decreases parts.len(),
{
    if parts.len() == 0 {
        Seq::empty()
    } else {
        parts_text(parts.drop_last()) + match parts.last().text {
            Some(t) => t@,
            None => Seq::<char>::empty(),
        }
    }
}

/// The text of a candidate: its parts' text, or nothing without content.
pub open spec fn candidate_text(c: GeminiCandidate) -> Seq<char> {
    match c.content {
        Some(content) => parts_text(content.parts@),
        None => Seq::empty(),
    }
}

/// Finish reasons that mean the answer was filtered.
pub open spec fn is_filter_reason(r: Seq<char>) -> bool {
    r == "SAFETY"@ || r == "PROHIBITED_CONTENT"@ || r == "BLOCKLIST"@
}

/// The prompt was blocked, with this reason.
pub open spec fn blocked_reason(p: GenerateContentResponse) -> Option<Seq<char>> {
    match p.prompt_feedback {
        Some(f) => match f.block_reason {
            Some(r) => Some(r@),
            None => None,
        },
        None => None,
    }
}

fn concat_parts(parts: &Vec<GeminiPart>) -> (t: String)
    ensures
        t@ == parts_text(parts@),
{
    let mut t = String::new();
    let mut i: usize = 0;
    while i < parts.len()
        invariant
            i <= parts@.len(),
            t@ == parts_text(parts@.take(i as int)),
        decreases parts@.len() - i,
    {
        assert(parts@.take(i + 1).drop_last() =~= parts@.take(i as int));
        assert(parts@.take(i + 1).last() == parts@[i as int]);
        match &parts[i].text {
            Some(s) => t.append(s.as_str()),
            None => {},
        }
        i = i + 1;
    }
    assert(parts@.take(i as int) =~= parts@);
    t
}

/// Reads a `generateContent` reply: a blocked prompt or a safety finish is
/// `Filtered`, a token-limit finish is `Truncated`, a reply without
/// candidates or without text is `Malformed`; otherwise the first
/// candidate's text with the reported usage (zero when absent).
pub fn parse_completion(payload: GenerateContentResponse) -> (r: Result<Completion, ProviderError>)
    ensures
        blocked_reason(payload) is Some ==> (r matches Err(ProviderError::Filtered { provider, reason })
            && provider == ProviderId::Gemini && (reason matches Some(s) && s@ == blocked_reason(payload)->0)),
        blocked_reason(payload) is None && payload.candidates@.len() == 0 ==> (r matches Err(ProviderError::Malformed(m)) && m@ == "response contained no candidates"@),
        blocked_reason(payload) is None && payload.candidates@.len() > 0 ==> ({
            let c = payload.candidates@[0];
            match c.finish_reason {
                Some(f) if f@ == "MAX_TOKENS"@ => r matches Err(ProviderError::Truncated),
                Some(f) if is_filter_reason(f@) => (r matches Err(ProviderError::Filtered { provider, reason })
                    && provider == ProviderId::Gemini && (reason matches Some(s) && s@ == f@)),
                _ => if candidate_text(c).len() == 0 {
                    (r matches Err(ProviderError::Malformed(m)) && m@ == "response contained no text"@)
                } else {
                    (r matches Ok(comp) && comp.text@ == candidate_text(c) && comp.usage == match payload.usage_metadata {
                        Some(u) => TokenUsage { input_tokens: u.prompt_token_count, output_tokens: u.candidates_token_count },
                        None => TokenUsage { input_tokens: 0, output_tokens: 0 },
                    })
                },
            }
        }),
{
    let GenerateContentResponse { candidates, usage_metadata, prompt_feedback } = payload;
    if let Some(feedback) = prompt_feedback {
        if let Some(reason) = feedback.block_reason {
            return Err(ProviderError::Filtered { provider: ProviderId::Gemini, reason: Some(reason) });
        }
    }
    if candidates.len() == 0 {
        return Err(ProviderError::Malformed(String::from_str("response contained no candidates")));
    }
    let candidate = &candidates[0];
    match &candidate.finish_reason {
        Some(f) => {
            if eq_str(f.as_str(), "MAX_TOKENS") {
                return Err(ProviderError::Truncated);
            }
            if eq_str(f.as_str(), "SAFETY") || eq_str(f.as_str(), "PROHIBITED_CONTENT") || eq_str(f.as_str(), "BLOCKLIST") {
                return Err(ProviderError::Filtered { provider: ProviderId::Gemini, reason: Some(f.clone()) });
            }
        },
        None => {},
    }
    let text = match &candidate.content {
        Some(content) => concat_parts(&content.parts),
        None => String::new(),
    };
    if text.unicode_len() == 0 {
        return Err(ProviderError::Malformed(String::from_str("response contained no text")));
    }
    let usage = match usage_metadata {
        Some(u) => TokenUsage { input_tokens: u.prompt_token_count, output_tokens: u.candidates_token_count },
        None => TokenUsage { input_tokens: 0, output_tokens: 0 },
    };
    Ok(Completion { text, usage })
}

/// The prefix model names carry in the model list.
pub open spec fn models_prefix() -> Seq<char> {
    "models/"@
}

/// A model's name without its `models/` prefix.
pub open spec fn spec_short_name(name: Seq<char>) -> Seq<char> {
    if name.len() >= 7 && name.take(7) == models_prefix() {
        name.skip(7)
    } else {
        name
    }
}

impl GeminiModel {
    /// The name without its `models/` prefix.
    pub fn short_name(&self) -> (s: String)
        ensures
            s@ == spec_short_name(self.name@),
    {
        let v = chars_of(self.name.as_str());
        let p = chars_of("models/");
        proof {
            reveal_strlit("models/");
        }
        if matches_at(&v, 0, &p) {
            assert(v@.take(7) =~= v@.subrange(0, 7));
            string_from_range(&v, 7, v.len())
        } else {
            proof {
                if v@.len() >= 7 && v@.take(7) == models_prefix() {
                    assert(v@.subrange(0, 7) =~= v@.take(7));
                    assert(occurs_at(v@, p@, 0));
                }
            }
            self.name.clone()
        }
    }
}

/// Whether the model can generate content.
pub open spec fn can_generate(m: GeminiModel) -> bool {
    exists|i: int| 0 <= i < m.supported_generation_methods@.len()
        && (#[trigger] m.supported_generation_methods@[i])@ == "generateContent"@
}

/// A listed model as offered to the user: its short name, labelled by its
/// display name or else its full name.
pub open spec fn listed_model(m: GeminiModel) -> (Seq<char>, Seq<char>) {
    (spec_short_name(m.name@), match m.display_name {
        Some(d) => d@,
        None => m.name@,
    })
}

/// Models as id and label.
pub open spec fn models_view(v: Seq<ModelInfo>) -> Seq<(Seq<char>, Seq<char>)> {
    v.map_values(|m: ModelInfo| (m.id@, m.label@))
}

/// The models that can generate content, in the order listed.
pub open spec fn generating_models(models: Seq<GeminiModel>) -> Seq<(Seq<char>, Seq<char>)>
    decreases models.len(),
{
    if models.len() == 0 {
        Seq::empty()
    } else {
        generating_models(models.drop_last()) + if can_generate(models.last()) {
            seq![listed_model(models.last())]
        } else {
            Seq::empty()
        }
    }
}

fn generates(m: &GeminiModel) -> (b: bool)
    ensures
        b == can_generate(*m),
{
    let mut i: usize = 0;
    while i < m.supported_generation_methods.len()
        invariant
            i <= m.supported_generation_methods@.len(),
            forall|j: int| 0 <= j < i ==> (#[trigger] m.supported_generation_methods@[j])@ != "generateContent"@,
        decreases m.supported_generation_methods@.len() - i,
    {
        if eq_str(m.supported_generation_methods[i].as_str(), "generateContent") {
            return true;
        }
        i = i + 1;
    }
    false
}

/// The model list offered to the user: only models that can generate
/// content, by short name, labelled by display name.
pub fn list_models(models: &Vec<GeminiModel>) -> (r: Vec<ModelInfo>)
    ensures
        models_view(r@) == generating_models(models@),
{
    let mut r: Vec<ModelInfo> = Vec::new();
    let mut i: usize = 0;
    assert(models_view(r@) =~= generating_models(models@.take(0)));
    while i < models.len()
        invariant
            i <= models@.len(),
            models_view(r@) == generating_models(models@.take(i as int)),
        decreases models@.len() - i,
    {
        assert(models@.take(i + 1).drop_last() =~= models@.take(i as int));
        assert(models@.take(i + 1).last() == models@[i as int]);
        let m = &models[i];
        if generates(m) {
            let label = match &m.display_name {
                Some(d) => d.clone(),
                None => m.name.clone(),
            };
            let info = ModelInfo { id: m.short_name(), label };
            let ghost prev = r@;
            r.push(info);
            assert(models_view(r@) =~= models_view(prev).push((info.id@, info.label@)));
        }
        assert(models_view(r@) =~= generating_models(models@.take(i + 1)));
        i = i + 1;
    }
    assert(models@.take(i as int) =~= models@);
    r
}

/// Where the model list is read: `{base_url}/models`.
pub fn models_url(base_url: &str) -> (r: String)
    ensures
        r@ == base_url@ + "/models"@,
{
    let mut r = String::from_str(base_url);
    r.append("/models");
    r
}

/// Where a model is asked to generate: `{base_url}/models/{model}:generateContent`.
pub fn generate_url(base_url: &str, model: &str) -> (r: String)
    ensures
        r@ == base_url@ + "/models/"@ + model@ + ":generateContent"@,
{
    let mut r = String::from_str(base_url);
    r.append("/models/");
    r.append(model);
    r.append(":generateContent");
    r
}

} // verus!
