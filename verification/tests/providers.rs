use zyntax::fix::TokenUsage;
use zyntax::provider::{ProviderId, ProviderProfile};
use zyntax::providers::gemini::{
    self, GeminiCandidate, GeminiContent, GeminiModel, GeminiPart, GeminiPromptFeedback,
    GeminiUsageMetadata, GenerateContentResponse,
};
use zyntax::providers::ollama::{self, OllamaChatResponse, OllamaMessage, OllamaTagEntry};
use zyntax::providers::openai::{
    self, ChatCompletionResponse, OpenAiChoice, OpenAiMessage, OpenAiModelEntry, OpenAiUsage,
};
use zyntax::providers::{
    resolve_api_key, retry_delay_ms, sort_models, status_failure, status_succeeded, transport_failure, ModelInfo,
    ProviderError, ATTEMPTS,
};
use zyntax::text::parse_u64;

fn part(text: &str) -> GeminiPart {
    GeminiPart {
        text: Some(text.to_owned()),
    }
}

fn candidate(parts: Option<Vec<GeminiPart>>, finish: Option<&str>) -> GeminiCandidate {
    GeminiCandidate {
        content: parts.map(|parts| GeminiContent { parts }),
        finish_reason: finish.map(str::to_owned),
    }
}

fn gemini_reply(
    candidates: Vec<GeminiCandidate>,
    usage: Option<GeminiUsageMetadata>,
) -> GenerateContentResponse {
    GenerateContentResponse {
        candidates,
        usage_metadata: usage,
        prompt_feedback: None,
    }
}

#[test]
fn gemini_extracts_text_and_usage() {
    let result = gemini::parse_completion(gemini_reply(
        vec![candidate(Some(vec![part("I don't know.")]), Some("STOP"))],
        Some(GeminiUsageMetadata {
            prompt_token_count: 12,
            candidates_token_count: 5,
        }),
    ))
    .expect("parses");

    assert_eq!(result.text, "I don't know.");
    assert_eq!(result.usage.input_tokens, 12);
    assert_eq!(result.usage.output_tokens, 5);
}

#[test]
fn concatenates_multiple_parts() {
    let result = gemini::parse_completion(gemini_reply(
        vec![candidate(Some(vec![part("one "), part("two")]), Some("STOP"))],
        None,
    ))
    .expect("parses");
    assert_eq!(result.text, "one two");
}

#[test]
fn missing_usage_is_zero_rather_than_an_error() {
    let result = gemini::parse_completion(gemini_reply(
        vec![candidate(Some(vec![part("hi")]), None)],
        None,
    ))
    .expect("parses");
    assert_eq!(result.usage, TokenUsage::default());
}

#[test]
fn truncation_is_an_error_not_a_short_answer() {
    let result = gemini::parse_completion(gemini_reply(
        vec![candidate(Some(vec![part("I don't kn")]), Some("MAX_TOKENS"))],
        None,
    ));
    assert!(matches!(result, Err(ProviderError::Truncated)));
}

#[test]
fn a_safety_finish_reason_is_reported_as_filtered() {
    let result = gemini::parse_completion(gemini_reply(vec![candidate(None, Some("SAFETY"))], None));
    assert!(matches!(result, Err(ProviderError::Filtered { .. })));
}

#[test]
fn a_prompt_level_block_is_reported_as_filtered() {
    let result = gemini::parse_completion(GenerateContentResponse {
        candidates: vec![],
        usage_metadata: None,
        prompt_feedback: Some(GeminiPromptFeedback {
            block_reason: Some("SAFETY".to_owned()),
        }),
    });
    assert!(matches!(result, Err(ProviderError::Filtered { .. })));
}

#[test]
fn no_candidates_is_malformed() {
    let result = gemini::parse_completion(gemini_reply(vec![], None));
    assert!(matches!(result, Err(ProviderError::Malformed(_))));
}

#[test]
fn empty_text_is_malformed() {
    let result = gemini::parse_completion(gemini_reply(
        vec![candidate(Some(vec![]), Some("STOP"))],
        None,
    ));
    assert!(matches!(result, Err(ProviderError::Malformed(_))));
}

#[test]
fn model_names_lose_their_prefix() {
    let model = GeminiModel {
        name: "models/gemini-2.5-flash".to_owned(),
        display_name: None,
        supported_generation_methods: vec![],
    };
    assert_eq!(model.short_name(), "gemini-2.5-flash");
}

#[test]
fn a_name_without_the_prefix_is_kept() {
    let model = GeminiModel {
        name: "tunedModels/mine".to_owned(),
        display_name: None,
        supported_generation_methods: vec![],
    };
    assert_eq!(model.short_name(), "tunedModels/mine");
}

#[test]
fn gemini_model_list_keeps_only_generating_models() {
    let models = vec![
        GeminiModel {
            name: "models/text-embedding-004".to_owned(),
            display_name: Some("Embedding".to_owned()),
            supported_generation_methods: vec!["embedContent".to_owned()],
        },
        GeminiModel {
            name: "models/gemini-2.5-pro".to_owned(),
            display_name: Some("Gemini 2.5 Pro".to_owned()),
            supported_generation_methods: vec!["generateContent".to_owned()],
        },
        GeminiModel {
            name: "models/gemini-2.5-flash".to_owned(),
            display_name: None,
            supported_generation_methods: vec!["countTokens".to_owned(), "generateContent".to_owned()],
        },
    ];
    let listed = gemini::list_models(&models);
    let ids: Vec<&str> = listed.iter().map(|m| m.id.as_str()).collect();
    assert_eq!(ids, vec!["gemini-2.5-pro", "gemini-2.5-flash"]);
    assert_eq!(listed[0].label, "Gemini 2.5 Pro");
    assert_eq!(listed[1].label, "models/gemini-2.5-flash");
}

fn openai_reply(choices: Vec<OpenAiChoice>, usage: Option<OpenAiUsage>) -> ChatCompletionResponse {
    ChatCompletionResponse { choices, usage }
}

fn choice(content: Option<&str>, finish: Option<&str>) -> OpenAiChoice {
    OpenAiChoice {
        message: content.map(|c| OpenAiMessage {
            content: Some(c.to_owned()),
        }),
        finish_reason: finish.map(str::to_owned),
    }
}

#[test]
fn openai_extracts_text_and_usage() {
    let result = openai::parse_completion(openai_reply(
        vec![choice(Some("I don't know."), Some("stop"))],
        Some(OpenAiUsage {
            prompt_tokens: 20,
            completion_tokens: 6,
        }),
    ))
    .expect("parses");

    assert_eq!(result.text, "I don't know.");
    assert_eq!(result.usage.input_tokens, 20);
    assert_eq!(result.usage.output_tokens, 6);
}

#[test]
fn a_length_finish_reason_is_truncation() {
    let result = openai::parse_completion(openai_reply(
        vec![choice(Some("I don't kn"), Some("length"))],
        None,
    ));
    assert!(matches!(result, Err(ProviderError::Truncated)));
}

#[test]
fn a_content_filter_is_reported_as_filtered() {
    let result = openai::parse_completion(openai_reply(vec![choice(None, Some("content_filter"))], None));
    assert!(matches!(result, Err(ProviderError::Filtered { .. })));
}

#[test]
fn no_choices_is_malformed() {
    assert!(matches!(
        openai::parse_completion(openai_reply(vec![], None)),
        Err(ProviderError::Malformed(_))
    ));
}

#[test]
fn empty_content_is_malformed() {
    let result = openai::parse_completion(openai_reply(vec![choice(Some(""), Some("stop"))], None));
    assert!(matches!(result, Err(ProviderError::Malformed(_))));
}

#[test]
fn missing_usage_is_tolerated() {
    let result = openai::parse_completion(openai_reply(vec![choice(Some("ok"), Some("stop"))], None))
        .expect("parses");
    assert_eq!(result.usage, TokenUsage::default());
}

#[test]
fn openai_compatible_sorts_the_model_list() {
    let entries = vec![
        OpenAiModelEntry { id: "gpt-4o".to_owned() },
        OpenAiModelEntry { id: "gpt-4o-mini".to_owned() },
        OpenAiModelEntry { id: "davinci".to_owned() },
    ];
    let ids: Vec<String> = openai::list_models(&entries).into_iter().map(|m| m.id).collect();
    assert_eq!(ids, vec!["davinci", "gpt-4o", "gpt-4o-mini"]);
}

fn ollama_reply(content: Option<&str>, done_reason: Option<&str>, prompt: u32, eval: u32) -> OllamaChatResponse {
    OllamaChatResponse {
        message: content.map(|c| OllamaMessage { content: c.to_owned() }),
        done_reason: done_reason.map(str::to_owned),
        prompt_eval_count: prompt,
        eval_count: eval,
    }
}

#[test]
fn ollama_extracts_text_and_usage() {
    let result = ollama::parse_completion(ollama_reply(Some("I don't know."), Some("stop"), 18, 7))
        .expect("parses");

    assert_eq!(result.text, "I don't know.");
    assert_eq!(result.usage.input_tokens, 18);
    assert_eq!(result.usage.output_tokens, 7);
}

#[test]
fn a_length_stop_is_truncation() {
    let result = ollama::parse_completion(ollama_reply(Some("I don't kn"), Some("length"), 0, 0));
    assert!(matches!(result, Err(ProviderError::Truncated)));
}

#[test]
fn a_missing_message_is_malformed() {
    assert!(matches!(
        ollama::parse_completion(ollama_reply(None, None, 0, 0)),
        Err(ProviderError::Malformed(_))
    ));
}

#[test]
fn counts_default_to_zero_when_absent() {
    let result = ollama::parse_completion(ollama_reply(Some("ok"), None, 0, 0)).expect("parses");
    assert_eq!(result.usage, TokenUsage::default());
}

#[test]
fn ollama_lists_installed_models() {
    let tags = vec![
        OllamaTagEntry { name: "mistral:7b".to_owned() },
        OllamaTagEntry { name: "llama3.2:latest".to_owned() },
    ];
    let listed = ollama::list_models(&tags);
    assert_eq!(listed.len(), 2);
    assert_eq!(listed[0].id, "llama3.2:latest");
    assert_eq!(listed[0].label, "llama3.2:latest");
    assert_eq!(listed[1].id, "mistral:7b");
}

#[test]
fn model_info_labels_itself_by_id_when_unnamed() {
    let model = ModelInfo::new("gemini-2.5-flash".to_owned());
    assert_eq!(model.id, "gemini-2.5-flash");
    assert_eq!(model.label, "gemini-2.5-flash");
}

#[test]
fn sorting_is_stable_for_equal_ids() {
    let models = vec![
        ModelInfo { id: "b".to_owned(), label: "first b".to_owned() },
        ModelInfo { id: "a".to_owned(), label: "a".to_owned() },
        ModelInfo { id: "b".to_owned(), label: "second b".to_owned() },
    ];
    let sorted = sort_models(models);
    let labels: Vec<&str> = sorted.iter().map(|m| m.label.as_str()).collect();
    assert_eq!(labels, vec!["a", "first b", "second b"]);
}

#[test]
fn building_a_keyed_provider_without_a_key_fails_early() {
    let profile = ProviderProfile::new(ProviderId::Gemini);
    assert!(matches!(
        resolve_api_key(profile.id, None),
        Err(ProviderError::NoApiKey { .. })
    ));
}

#[test]
fn a_blank_key_counts_as_no_key() {
    let profile = ProviderProfile::new(ProviderId::Gemini);
    assert!(matches!(
        resolve_api_key(profile.id, Some("   ".to_owned())),
        Err(ProviderError::NoApiKey { .. })
    ));
}

#[test]
fn ollama_needs_no_key() {
    let profile = ProviderProfile::new(ProviderId::Ollama);
    let key = resolve_api_key(profile.id, None).expect("ollama builds without a key");
    assert_eq!(key, None);
}

#[test]
fn each_provider_id_builds_its_own_backend() {
    for id in ProviderId::ALL {
        let profile = ProviderProfile::new(id);
        let key = resolve_api_key(profile.id, Some("test-key".to_owned())).expect("builds");
        assert_eq!(key.as_deref(), Some("test-key"));
        assert_eq!(profile.id, id);
    }
}

#[test]
fn every_provider_starts_with_its_default_endpoint_and_model() {
    let gemini = ProviderProfile::new(ProviderId::Gemini);
    assert_eq!(gemini.model, "gemini-2.5-flash");
    assert_eq!(gemini.base_url(), ProviderId::Gemini.default_base_url());
    let custom = ProviderProfile {
        base_url: Some("http://localhost:8080/v1".to_owned()),
        ..ProviderProfile::new(ProviderId::OpenAiCompatible)
    };
    assert_eq!(custom.base_url(), "http://localhost:8080/v1");
    assert!(!ProviderId::Ollama.needs_api_key());
    assert_eq!(ProviderId::OpenAiCompatible.slug(), "openai");
}

#[test]
fn provider_errors_carry_codes_and_retry_hints() {
    assert_eq!(ProviderError::Timeout.code(), "timeout");
    assert!(ProviderError::Timeout.is_retryable());
    assert!(ProviderError::Server { status: 503 }.is_retryable());
    assert!(!ProviderError::Truncated.is_retryable());
    assert!(!ProviderError::Auth { provider: ProviderId::Gemini }.is_retryable());
    assert_eq!(
        ProviderError::NoApiKey { provider: ProviderId::Gemini }.message(),
        "no API key is set for gemini"
    );
    assert!(ProviderError::Network {
        provider: ProviderId::Ollama,
        detail: "refused".to_owned()
    }
    .remedy()
    .contains("ollama serve"));
}

#[test]
fn endpoints_are_built_from_the_base_url() {
    assert_eq!(
        gemini::generate_url("https://g.example/v1beta", "gemini-2.5-flash"),
        "https://g.example/v1beta/models/gemini-2.5-flash:generateContent"
    );
    assert_eq!(gemini::models_url("https://g.example/v1beta"), "https://g.example/v1beta/models");
    assert_eq!(openai::chat_url("https://api.example/v1"), "https://api.example/v1/chat/completions");
    assert_eq!(openai::models_url("https://api.example/v1"), "https://api.example/v1/models");
    assert_eq!(ollama::chat_url("http://localhost:11434"), "http://localhost:11434/api/chat");
    assert_eq!(ollama::tags_url("http://localhost:11434"), "http://localhost:11434/api/tags");
}

#[test]
fn only_2xx_statuses_succeed() {
    assert!(status_succeeded(200));
    assert!(status_succeeded(204));
    assert!(!status_succeeded(199));
    assert!(!status_succeeded(301));
    assert!(!status_succeeded(401));
}

#[test]
fn a_refused_key_is_an_auth_failure_that_is_not_retried() {
    for status in [401, 403] {
        let error = status_failure(ProviderId::Gemini, status, None, String::new());
        assert!(matches!(error, ProviderError::Auth { provider: ProviderId::Gemini }));
        assert_eq!(retry_delay_ms(&error, 1), None);
    }
}

#[test]
fn rate_limiting_carries_the_providers_wait() {
    match status_failure(ProviderId::Gemini, 429, Some(" 1 "), "quota".to_owned()) {
        ProviderError::RateLimited { retry_after_secs } => assert_eq!(retry_after_secs, Some(1)),
        other => panic!("expected a rate limit, got {other:?}"),
    }
    match status_failure(ProviderId::Gemini, 429, Some("Wed, 21 Oct 2015 07:28:00 GMT"), String::new()) {
        ProviderError::RateLimited { retry_after_secs } => assert_eq!(retry_after_secs, None),
        other => panic!("expected a rate limit, got {other:?}"),
    }
}

#[test]
fn server_errors_are_retried_until_the_attempts_run_out() {
    let error = status_failure(ProviderId::Gemini, 503, None, String::new());
    assert!(matches!(error, ProviderError::Server { status: 503 }));
    assert_eq!(retry_delay_ms(&error, 1), Some(500));
    assert_eq!(retry_delay_ms(&error, 2), Some(1000));
    assert_eq!(retry_delay_ms(&error, ATTEMPTS), None);
}

#[test]
fn other_statuses_are_rejections_that_carry_the_reply() {
    let body = r#"{"error":{"message":"The model 'gpt-9' does not exist"}}"#.to_owned();
    let error = status_failure(ProviderId::OpenAiCompatible, 404, None, body);
    assert!(matches!(error, ProviderError::Rejected { status: 404, .. }));
    assert!(error.message().contains("gpt-9"));
    assert_eq!(retry_delay_ms(&error, 1), None);
}

#[test]
fn transport_failures_tell_a_timeout_from_an_unreachable_provider() {
    assert!(matches!(transport_failure(ProviderId::Ollama, true, "slow".to_owned()), ProviderError::Timeout));
    match transport_failure(ProviderId::Ollama, false, "connection refused".to_owned()) {
        ProviderError::Network { provider, detail } => {
            assert_eq!(provider, ProviderId::Ollama);
            assert_eq!(detail, "connection refused");
        }
        other => panic!("expected a network failure, got {other:?}"),
    }
}

#[test]
fn decimal_numbers_parse_as_str_parse_does() {
    assert_eq!(parse_u64("0"), Some(0));
    assert_eq!(parse_u64("+42"), Some(42));
    assert_eq!(parse_u64("18446744073709551615"), Some(u64::MAX));
    assert_eq!(parse_u64("18446744073709551616"), None);
    assert_eq!(parse_u64(""), None);
    assert_eq!(parse_u64("+"), None);
    assert_eq!(parse_u64("-1"), None);
    assert_eq!(parse_u64("1 2"), None);
    assert_eq!(parse_u64("٣"), None);
}
