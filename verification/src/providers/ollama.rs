//! Ollama: reading chat replies and the list of installed models.

use vstd::prelude::*;
use vstd::string::StringExecFns;
use crate::fix::TokenUsage;
use crate::providers::{sort_models, sorted_by_id, Completion, ModelInfo, ProviderError};
use crate::text::eq_str;

verus! {

broadcast use vstd::string::group_string_axioms;

/// The message of a chat reply.
#[derive(Debug)]
pub struct OllamaMessage {
    pub content: String,
}

/// A chat reply; absent counts are zero.
#[derive(Debug)]
pub struct OllamaChatResponse {
    pub message: Option<OllamaMessage>,
    pub done_reason: Option<String>,
    pub prompt_eval_count: u32,
    pub eval_count: u32,
}

/// An installed model.
#[derive(Debug)]
pub struct OllamaTagEntry {
    pub name: String,
}

/// Reads a chat reply: a `length` stop is `Truncated`, a reply without text
/// is `Malformed`; otherwise its text with the evaluation counts as usage.
pub fn parse_completion(payload: OllamaChatResponse) -> (r: Result<Completion, ProviderError>)
    ensures
        (payload.done_reason matches Some(d) && d@ == "length"@) ==> r matches Err(ProviderError::Truncated),
        !(payload.done_reason matches Some(d) && d@ == "length"@) ==> ({
            let text = match payload.message {
                Some(m) => m.content@,
                None => Seq::<char>::empty(),
            };
            if text.len() == 0 {
                (r matches Err(ProviderError::Malformed(m)) && m@ == "response contained no text"@)
            } else {
                (r matches Ok(comp) && comp.text@ == text && comp.usage == TokenUsage {
                    input_tokens: payload.prompt_eval_count,
                    output_tokens: payload.eval_count,
                })
            }
        }),
{
    let OllamaChatResponse { message, done_reason, prompt_eval_count, eval_count } = payload;
    match &done_reason {
        Some(d) => {
            if eq_str(d.as_str(), "length") {
                return Err(ProviderError::Truncated);
            }
        },
        None => {},
    }
    let text = match message {
        Some(m) => m.content,
        None => String::new(),
    };
    if text.unicode_len() == 0 {
        return Err(ProviderError::Malformed(String::from_str("response contained no text")));
    }
    Ok(Completion { text, usage: TokenUsage { input_tokens: prompt_eval_count, output_tokens: eval_count } })
}

/// Each listed model as offered: labelled by its name.
pub open spec fn tag_models(v: Seq<OllamaTagEntry>) -> Seq<ModelInfo> {
    v.map_values(|e: OllamaTagEntry| ModelInfo { id: e.name, label: e.name })
}

/// The model list offered to the user: every listed model, labelled by its
/// name, sorted by id.
pub fn list_models(tags: &Vec<OllamaTagEntry>) -> (r: Vec<ModelInfo>)
    ensures
        sorted_by_id(r@),
        r@.to_multiset() == tag_models(tags@).to_multiset(),
{
    let mut models: Vec<ModelInfo> = Vec::new();
    let mut i: usize = 0;
    while i < tags.len()
        invariant
            i <= tags@.len(),
            models@ == tag_models(tags@.take(i as int)),
        decreases tags@.len() - i,
    {
        let m = ModelInfo::new(tags[i].name.clone());
        assert(m == ModelInfo { id: tags@[i as int].name, label: tags@[i as int].name });
        models.push(m);
        assert(models@ =~= tag_models(tags@.take(i + 1)));
        i = i + 1;
    }
    assert(tags@.take(i as int) =~= tags@);
    sort_models(models)
}

/// Where the installed models are listed: `{base_url}/api/tags`.
pub fn tags_url(base_url: &str) -> (r: String)
    ensures
        r@ == base_url@ + "/api/tags"@,
{
    let mut r = String::from_str(base_url);
    r.append("/api/tags");
    r
}

/// Where chats are sent: `{base_url}/api/chat`.
pub fn chat_url(base_url: &str) -> (r: String)
    ensures
        r@ == base_url@ + "/api/chat"@,
{
    let mut r = String::from_str(base_url);
    r.append("/api/chat");
    r
}

} // verus!
