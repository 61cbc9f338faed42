//! OpenAI-compatible endpoints: reading chat-completion replies and model lists.

use vstd::prelude::*;
use vstd::string::StringExecFns;
use crate::fix::TokenUsage;
use crate::provider::ProviderId;
use crate::providers::{sort_models, sorted_by_id, Completion, ModelInfo, ProviderError};
use crate::text::eq_str;

verus! {

broadcast use vstd::string::group_string_axioms;

/// The message of a choice.
#[derive(Debug)]
pub struct OpenAiMessage {
    pub content: Option<String>,
}

/// One choice of a chat completion.
#[derive(Debug)]
pub struct OpenAiChoice {
    pub message: Option<OpenAiMessage>,
    pub finish_reason: Option<String>,
}

/// Token counts of a reply.
#[derive(Debug, Clone, Copy, PartialEq, Eq, Structural)]
pub struct OpenAiUsage {
    pub prompt_tokens: u32,
    pub completion_tokens: u32,
}

/// A chat-completion reply.
#[derive(Debug)]
pub struct ChatCompletionResponse {
    pub choices: Vec<OpenAiChoice>,
    pub usage: Option<OpenAiUsage>,
}

/// An entry of the model list.
#[derive(Debug)]
pub struct OpenAiModelEntry {
    pub id: String,
}

/// The text of a choice, or nothing.
pub open spec fn choice_text(c: OpenAiChoice) -> Seq<char> {
    match c.message {
        Some(m) => match m.content {
            Some(t) => t@,
            None => Seq::empty(),
        },
        None => Seq::empty(),
    }
}

/// Reads a chat-completion reply: no choices or no text is `Malformed`, a
/// `length` finish is `Truncated`, a `content_filter` finish is `Filtered`;
/// otherwise the first choice's text with the reported usage (zero when absent).
pub fn parse_completion(payload: ChatCompletionResponse) -> (r: Result<Completion, ProviderError>)
    ensures
        payload.choices@.len() == 0 ==> (r matches Err(ProviderError::Malformed(m)) && m@ == "response contained no choices"@),
        payload.choices@.len() > 0 ==> ({
            let c = payload.choices@[0];
            match c.finish_reason {
                Some(f) if f@ == "length"@ => r matches Err(ProviderError::Truncated),
                Some(f) if f@ == "content_filter"@ => (r matches Err(ProviderError::Filtered { provider, reason })
                    && provider == ProviderId::OpenAiCompatible && (reason matches Some(s) && s@ == "content_filter"@)),
                _ => if choice_text(c).len() == 0 {
                    (r matches Err(ProviderError::Malformed(m)) && m@ == "response contained no text"@)
                } else {
                    (r matches Ok(comp) && comp.text@ == choice_text(c) && comp.usage == match payload.usage {
                        Some(u) => TokenUsage { input_tokens: u.prompt_tokens, output_tokens: u.completion_tokens },
                        None => TokenUsage { input_tokens: 0, output_tokens: 0 },
                    })
                },
            }
        }),
{
    let ChatCompletionResponse { choices, usage } = payload;
    if choices.len() == 0 {
        return Err(ProviderError::Malformed(String::from_str("response contained no choices")));
    }
    let choice = &choices[0];
    match &choice.finish_reason {
        Some(f) => {
            if eq_str(f.as_str(), "length") {
                return Err(ProviderError::Truncated);
            }
            if eq_str(f.as_str(), "content_filter") {
                return Err(
                    ProviderError::Filtered {
                        provider: ProviderId::OpenAiCompatible,
                        reason: Some(String::from_str("content_filter")),
                    },
                );
            }
        },
        None => {},
    }
    let text = match &choice.message {
        Some(m) => match &m.content {
            Some(t) => t.clone(),
            None => String::new(),
        },
        None => String::new(),
    };
    if text.unicode_len() == 0 {
        return Err(ProviderError::Malformed(String::from_str("response contained no text")));
    }
    let usage = match usage {
        Some(u) => TokenUsage { input_tokens: u.prompt_tokens, output_tokens: u.completion_tokens },
        None => TokenUsage { input_tokens: 0, output_tokens: 0 },
    };
    Ok(Completion { text, usage })
}

/// Each listed model as offered: labelled by its id.
pub open spec fn entry_models(v: Seq<OpenAiModelEntry>) -> Seq<ModelInfo> {
    v.map_values(|e: OpenAiModelEntry| ModelInfo { id: e.id, label: e.id })
}

/// The model list offered to the user: every listed model, labelled by its
/// id, sorted by id.
pub fn list_models(entries: &Vec<OpenAiModelEntry>) -> (r: Vec<ModelInfo>)
    ensures
        sorted_by_id(r@),
        r@.to_multiset() == entry_models(entries@).to_multiset(),
{
    let mut models: Vec<ModelInfo> = Vec::new();
    let mut i: usize = 0;
    while i < entries.len()
        invariant
            i <= entries@.len(),
            models@ == entry_models(entries@.take(i as int)),
        decreases entries@.len() - i,
    {
        let m = ModelInfo::new(entries[i].id.clone());
        assert(m == ModelInfo { id: entries@[i as int].id, label: entries@[i as int].id });
        models.push(m);
        assert(models@ =~= entry_models(entries@.take(i + 1)));
        i = i + 1;
    }
    assert(entries@.take(i as int) =~= entries@);
    sort_models(models)
}

/// Where the model list is read: `{base_url}/models`.
pub fn models_url(base_url: &str) -> (r: String)
    ensures
        r@ == base_url@ + "/models"@,
{
    let mut r = String::from_str(base_url);
    r.append("/models");
    r
}

/// Where chat completions are requested: `{base_url}/chat/completions`.
pub fn chat_url(base_url: &str) -> (r: String)
    ensures
        r@ == base_url@ + "/chat/completions"@,
{
    let mut r = String::from_str(base_url);
    r.append("/chat/completions");
    r
}

} // verus!
