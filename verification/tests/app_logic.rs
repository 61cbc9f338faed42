use zyntax::commands::{
    autostart_error, daily_series, daily_window, has_usable_key, history_error, hotkey_changed, hotkey_invalid_error, hotkey_unavailable_error, is_priced, key_to_store, keychain_write_error, log_limit, partial_pricing, pricing_for, provider_for_slug, recent_limit, report_windows, settings_write_error, start_of_local_day, SECONDS_PER_DAY,
};
use zyntax::errors::{disabled, join_failed, no_display, simple_error, FixError};
use zyntax::feedback::{failure_notice, success_notice, summarise};
use zyntax::fix::{FixOutcome, InputSource, OutputMode, TokenUsage};
use zyntax::flow::{
    also_copy, begin, delivery_for, history_entry, key_for, on_answer, request_for, start, step,
    FixAction, FixEvent, FixStage, RequestSlot,
};
use zyntax::history::UsageSummary;
use zyntax::platform::PlatformError;
use zyntax::prompt::PromptError;
use zyntax::provider::{ModelPricing, ProviderId, ProviderProfile};
use zyntax::providers::{Completion, ProviderError};
use zyntax::settings::{pricing_key, AppSettings};
use zyntax::updates::{check_failed, install_failed, install_failure, install_gate, update_gone, UpdateProgress};

#[test]
fn a_local_day_starts_at_a_day_boundary() {
    let now = 1_700_000_000;
    let start = start_of_local_day(now, 0);

    assert!(start <= now, "midnight cannot be in the future");
    assert!(now - start < SECONDS_PER_DAY, "and must be within a day");

    assert_eq!(start % 60, 0);
}

#[test]
fn the_day_boundary_is_stable_within_a_day() {
    let morning = 1_700_000_000;
    let later = morning + 3_600;

    if start_of_local_day(morning, 0) + SECONDS_PER_DAY > later {
        assert_eq!(start_of_local_day(morning, 0), start_of_local_day(later, 0));
    }
}

#[test]
fn the_offset_moves_the_local_midnight() {
    assert_eq!(start_of_local_day(1_700_000_000, 0), 1_699_920_000);
    assert_eq!(start_of_local_day(1_700_000_000, 3_600), 1_699_916_400);
    assert_eq!(start_of_local_day(1_700_000_000, -18_000), 1_699_938_000);
    assert_eq!(start_of_local_day(-1, 0), -86_400);
}

#[test]
fn unpriced_models_report_zero_rather_than_a_guess() {
    let settings = AppSettings::default();
    let pricing = pricing_for(&settings, "gemini", "gemini-2.5-flash");
    assert_eq!(pricing, ModelPricing::default());
}

#[test]
fn an_unknown_provider_slug_does_not_panic() {
    let settings = AppSettings::default();
    assert_eq!(
        pricing_for(&settings, "not-a-provider", "whatever"),
        ModelPricing::default()
    );
}

#[test]
fn configured_pricing_is_found_by_slug() {
    let mut settings = AppSettings::default();
    settings.pricing.insert(
        pricing_key(ProviderId::Gemini, "gemini-2.5-flash"),
        ModelPricing {
            input_per_million_bits: 0.3f64.to_bits(),
            output_per_million_bits: 2.5f64.to_bits(),
        },
    );

    let pricing = pricing_for(&settings, "gemini", "gemini-2.5-flash");
    assert_eq!(f64::from_bits(pricing.output_per_million_bits), 2.5);
    assert!(is_priced(pricing));
    assert!(!is_priced(ModelPricing::default()));
}

#[test]
fn slugs_name_their_providers() {
    assert_eq!(provider_for_slug("gemini"), Some(ProviderId::Gemini));
    assert_eq!(provider_for_slug("openai"), Some(ProviderId::OpenAiCompatible));
    assert_eq!(provider_for_slug("ollama"), Some(ProviderId::Ollama));
    assert_eq!(provider_for_slug("Gemini"), None);
}

#[test]
fn the_daily_series_fills_days_without_usage_with_zero() {
    let today = 1_699_920_000;
    let recorded = vec![
        (today - SECONDS_PER_DAY, UsageSummary { fixes: 2, input_tokens: 10, output_tokens: 5 }),
        (today, UsageSummary { fixes: 1, input_tokens: 3, output_tokens: 4 }),
        (today, UsageSummary { fixes: 9, input_tokens: 9, output_tokens: 9 }),
    ];
    let series = daily_series(today, 3, &recorded);
    assert_eq!(series.len(), 3);
    assert_eq!(series[0].day, today - 2 * SECONDS_PER_DAY);
    assert_eq!((series[0].fixes, series[0].tokens), (0, 0));
    assert_eq!((series[1].fixes, series[1].tokens), (2, 15));
    assert_eq!(series[2].day, today);
    assert_eq!((series[2].fixes, series[2].tokens), (1, 7));
    assert_eq!(daily_window(today, 3), (today - 2 * SECONDS_PER_DAY, today + SECONDS_PER_DAY));
}

#[test]
fn the_daily_series_covers_one_to_365_days() {
    let today = 1_699_920_000;
    assert_eq!(daily_series(today, 0, &vec![]).len(), 1);
    assert_eq!(daily_series(today, 1000, &vec![]).len(), 365);
}

#[test]
fn report_windows_reach_back_a_week_and_a_month() {
    let day = 1_699_920_000;
    assert_eq!(
        report_windows(day),
        (day, day - 6 * SECONDS_PER_DAY, day - 29 * SECONDS_PER_DAY, i64::MIN)
    );
}

#[test]
fn request_limits_are_clamped() {
    assert_eq!(recent_limit(0), 1);
    assert_eq!(recent_limit(20), 20);
    assert_eq!(recent_limit(9_999), 500);
    assert_eq!(log_limit(0), 1);
    assert_eq!(log_limit(100_000), 2_000);
}

#[test]
fn short_text_is_shown_whole() {
    assert_eq!(
        summarise("I don't think it's correct."),
        "I don't think it's correct."
    );
}

#[test]
fn long_text_is_trimmed_with_an_ellipsis() {
    let summary = summarise(&"word ".repeat(200));
    assert!(summary.chars().count() <= 121);
    assert!(summary.ends_with('…'));
}

#[test]
fn line_breaks_are_flattened_for_a_single_line_banner() {
    assert_eq!(summarise("first\n\n  second   line"), "first second line");
}

#[test]
fn a_summary_of_exactly_the_limit_is_not_cut() {
    let text = "a".repeat(120);
    assert_eq!(summarise(&format!("  {text}  ")), text);
    let longer = "b".repeat(121);
    assert_eq!(summarise(&longer), format!("{}…", "b".repeat(120)));
}

fn outcome(original: &str, corrected: &str) -> FixOutcome {
    FixOutcome::new(
        original.to_owned(),
        corrected.to_owned(),
        TokenUsage { input_tokens: 7, output_tokens: 3 },
        "gemini".to_owned(),
        "gemini-2.5-flash".to_owned(),
        5_000_000_000,
    )
}

#[test]
fn notices_follow_the_settings() {
    let mut settings = AppSettings::default();
    let (body, sound) = success_notice(&settings, &outcome("i dont", "I don't")).expect("shown");
    assert_eq!(body, "I don't");
    assert!(!sound);
    let (body, _) = success_notice(&settings, &outcome("same", "same")).expect("shown");
    assert_eq!(body, "No changes needed.");
    settings.behavior.show_notifications = false;
    assert!(success_notice(&settings, &outcome("i dont", "I don't")).is_none());
    let error = simple_error("x", "went wrong".to_owned(), "try again");
    assert_eq!(failure_notice(&error), "went wrong\ntry again");
}

#[test]
fn provider_failures_carry_a_code_and_a_remedy() {
    let error = FixError::from(ProviderError::Timeout);
    assert_eq!(error.code, "timeout");
    assert!(error.retryable);
    assert!(!error.remedy.is_empty());
}

#[test]
fn nothing_selected_explains_what_to_do() {
    let error = FixError::from(PlatformError::NothingToCorrect);
    assert_eq!(error.code, "nothing_to_correct");
    assert!(error.remedy.contains("Select"));
}

#[test]
fn unavailable_injection_points_at_the_clipboard() {
    let error = FixError::from(PlatformError::InjectionUnavailable);
    assert_eq!(error.code, "injection_unavailable");
    assert!(error.remedy.contains("Ctrl+V"));
}

#[test]
fn translate_without_a_target_names_the_panel_to_fix_it_in() {
    let error = FixError::from(PromptError::TranslateRequiresTarget);
    assert_eq!(error.code, "translate_needs_target");
    assert!(error.remedy.contains("Languages"));
}

#[test]
fn the_disabled_state_is_not_retryable_and_says_how_to_undo_it() {
    let error = FixError {
        code: "disabled".to_owned(),
        message: "ZyntaxAI is switched off".to_owned(),
        remedy: "Turn it back on from the tray menu, or with the switch in the app.".to_owned(),
        retryable: false,
    };
    assert!(!error.retryable);
    assert!(error.remedy.contains("tray"));
    let built = disabled();
    assert_eq!(built.code, error.code);
    assert_eq!(built.remedy, error.remedy);
}

#[test]
fn desktop_failures_have_their_own_codes() {
    assert_eq!(no_display().code, "no_display");
    assert!(!no_display().retryable);
    assert!(join_failed().retryable);
    let too_long = FixError::from(PromptError::InputTooLong { chars: 123_456 });
    assert_eq!(too_long.code, "input_too_long");
    assert!(too_long.message.contains("123456"));
}

#[test]
fn a_switched_off_app_refuses_to_start() {
    let mut settings = AppSettings::default();
    assert!(begin(&settings).is_ok());
    settings.enabled = false;
    assert_eq!(begin(&settings).unwrap_err().code, "disabled");
}

#[test]
fn the_request_uses_the_active_profile_and_persona() {
    let settings = AppSettings::default();
    let (profile, request) = request_for(&settings, "i dont know").expect("builds");
    assert_eq!(profile.id, ProviderId::Gemini);
    assert_eq!(request.model, "gemini-2.5-flash");
    assert!(request.prompt.user.contains("i dont know"));
    assert_eq!(request_for(&settings, "  ").unwrap_err().code, "nothing_to_correct");
}

#[test]
fn a_missing_key_stops_a_keyed_provider() {
    let profile = ProviderProfile::new(ProviderId::Gemini);
    assert_eq!(key_for(&profile, None).unwrap_err().code, "no_api_key");
    assert_eq!(key_for(&profile, Some("k".to_owned())).unwrap(), Some("k".to_owned()));
}

#[test]
fn answers_are_cleaned_discarded_or_reported() {
    let profile = ProviderProfile::new(ProviderId::Gemini);
    let answer = || Ok(Completion { text: "```\nI don't know.\n```".to_owned(), usage: TokenUsage::default() });
    assert!(on_answer(true, answer(), "i dont know ".to_owned(), &profile, 10).unwrap().is_none());
    let done = on_answer(false, answer(), "i dont know ".to_owned(), &profile, 10)
        .unwrap()
        .expect("an outcome");
    assert_eq!(done.corrected, "I don't know. ");
    assert_eq!(done.provider, "gemini");
    assert!(done.changed);
    let failed = on_answer(false, Err(ProviderError::Cancelled), "x".to_owned(), &profile, 10);
    assert_eq!(failed.unwrap_err().code, "cancelled");
}

#[test]
fn history_rows_follow_the_settings() {
    let mut settings = AppSettings::default();
    let done = outcome("héllo wörld", "hello world!");
    let row = history_entry(&settings, &done, 42).expect("history is kept");
    assert_eq!(row.timestamp, 42);
    assert_eq!(row.original_chars, 11);
    assert_eq!(row.corrected_chars, 12);
    assert_eq!(row.elapsed_ms, u32::MAX);
    assert_eq!(row.persona_id, "standard");
    settings.behavior.keep_history = false;
    assert!(history_entry(&settings, &done, 42).is_none());
}

#[test]
fn delivery_depends_on_the_output_mode() {
    let mut settings = AppSettings::default();
    let done = outcome("a", "b");
    assert!(delivery_for(&settings, &done).is_none());
    settings.behavior.output_mode = OutputMode::Replace;
    settings.behavior.auto_copy_fixed = true;
    let delivery = delivery_for(&settings, &done).expect("delivered");
    assert!(delivery.also_copy);
    assert_eq!(delivery.corrected, "b");
    assert!(!also_copy(true, OutputMode::Clipboard));
    assert!(!also_copy(false, OutputMode::Append));
}

#[test]
fn a_finished_request_only_clears_itself() {
    let mut slot = RequestSlot::new();
    let (first, superseded) = slot.begin();
    assert_eq!(superseded, None);
    let (second, superseded) = slot.begin();
    assert_eq!(superseded, Some(first));
    slot.finish(first);
    assert!(slot.is_current(second));
    slot.finish(second);
    assert_eq!(slot.current, None);
    let (third, _) = slot.begin();
    assert_eq!(slot.cancel(), Some(third));
    assert!(!slot.is_current(third));
}

#[test]
fn a_correction_runs_from_press_to_delivery() {
    let mut settings = AppSettings::default();
    settings.behavior.output_mode = OutputMode::Replace;
    let mut slot = RequestSlot::new();

    let (stage, action) = start(&settings, &mut slot, InputSource::Selection);
    assert!(matches!(action, FixAction::Capture { source: InputSource::Selection, supersede: None }));

    let (stage, action) = step(&settings, &mut slot, stage, FixEvent::Captured(Ok("i dont know".to_owned())));
    assert!(matches!(action, FixAction::ReadKey { provider: ProviderId::Gemini }));

    let (stage, action) = step(&settings, &mut slot, stage, FixEvent::KeyRead(Some("key".to_owned())));
    match &action {
        FixAction::Ask { api_key, request, .. } => {
            assert_eq!(api_key.as_deref(), Some("key"));
            assert_eq!(request.model, "gemini-2.5-flash");
        }
        other => panic!("expected a request, got {other:?}"),
    }

    let answer = Ok(Completion { text: "I don't know.".to_owned(), usage: TokenUsage::default() });
    let (stage, action) = step(
        &settings,
        &mut slot,
        stage,
        FixEvent::Answered { answer, elapsed_ms: 3, timestamp: 100 },
    );
    assert_eq!(slot.current, None);
    match &action {
        FixAction::Deliver { record, delivery } => {
            assert_eq!(record.as_ref().map(|r| r.timestamp), Some(100));
            assert_eq!(delivery.as_ref().map(|d| d.corrected.as_str()), Some("I don't know."));
        }
        other => panic!("expected a delivery, got {other:?}"),
    }

    let (stage, action) = step(&settings, &mut slot, stage, FixEvent::Delivered(Ok(())));
    assert!(matches!(stage, FixStage::Done));
    match action {
        FixAction::Complete { outcome, notice } => {
            assert!(outcome.changed);
            assert_eq!(notice.map(|n| n.0), Some("I don't know.".to_owned()));
        }
        other => panic!("expected completion, got {other:?}"),
    }
}

#[test]
fn a_superseded_answer_is_discarded() {
    let settings = AppSettings::default();
    let mut slot = RequestSlot::new();
    let (stage, _) = start(&settings, &mut slot, InputSource::Clipboard);
    let (stage, action) = step(&settings, &mut slot, stage, FixEvent::Captured(Ok("text".to_owned())));
    assert!(matches!(action, FixAction::ShowOverlay));
    let (stage, _) = step(&settings, &mut slot, stage, FixEvent::OverlayShown);
    let (stage, _) = step(&settings, &mut slot, stage, FixEvent::KeyRead(Some("key".to_owned())));
    let (_, action) = start(&settings, &mut slot, InputSource::Selection);
    assert!(matches!(action, FixAction::Capture { supersede: Some(0), .. }));
    let answer = Ok(Completion { text: "Text".to_owned(), usage: TokenUsage::default() });
    let (stage, action) = step(&settings, &mut slot, stage, FixEvent::Answered { answer, elapsed_ms: 1, timestamp: 1 });
    assert!(matches!(action, FixAction::Discard));
    assert!(matches!(stage, FixStage::Done));
    assert_eq!(slot.current, Some(1));
}

#[test]
fn a_switched_off_press_fails_and_an_unexpected_event_waits() {
    let mut settings = AppSettings::default();
    settings.enabled = false;
    let mut slot = RequestSlot::new();
    let (stage, action) = start(&settings, &mut slot, InputSource::Selection);
    assert!(matches!(stage, FixStage::Done));
    assert!(matches!(action, FixAction::Fail { error } if error.code == "disabled"));
    assert_eq!(slot, RequestSlot::new());
    let (stage, action) = step(&settings, &mut slot, FixStage::Capturing { request: 0 }, FixEvent::OverlayShown);
    assert!(matches!(action, FixAction::Wait));
    assert!(matches!(stage, FixStage::Capturing { request: 0 }));
}

#[test]
fn updates_install_only_in_place() {
    assert!(install_gate(true).is_ok());
    assert_eq!(install_gate(false).unwrap_err().code, "update_not_installable");
    assert_eq!(update_gone().code, "update_gone");
    assert!(check_failed("offline".to_owned(), false).remedy.contains("zsync.eu"));
    assert!(check_failed("offline".to_owned(), true).retryable);
    let progress = UpdateProgress::after_chunk(10, 5, Some(100));
    assert_eq!(progress, UpdateProgress { downloaded: 15, total: Some(100) });
}

#[test]
fn a_bad_signature_is_reported_as_such() {
    assert_eq!(
        install_failed("Invalid SIGNATURE for file".to_owned(), false).code,
        "update_signature_invalid"
    );
    assert_eq!(install_failed("minisign".to_owned(), true).code, "update_signature_invalid");
    let other = install_failed("disk full".to_owned(), false);
    assert_eq!(other.code, "update_install_failed");
    assert_eq!(other.message, "The update could not be installed: disk full");
    assert_eq!(
        install_failure("X".to_owned(), false, "the signature is bad").code,
        "update_signature_invalid"
    );
}

#[test]
fn command_errors_name_what_to_do() {
    let e = history_error("locked".to_owned());
    assert_eq!(e.code, "history_unavailable");
    assert_eq!(e.message, "locked");
    assert!(!e.retryable);
    assert!(settings_write_error("x".to_owned()).remedy.contains("writable"));
    assert_eq!(hotkey_unavailable_error("x".to_owned()).code, "hotkey_unavailable");
    assert!(hotkey_invalid_error("x".to_owned()).remedy.contains("modifier"));
    assert!(keychain_write_error("x".to_owned()).remedy.contains("keychain"));
    assert!(autostart_error("x".to_owned()).remedy.contains("autostart"));
}

#[test]
fn keys_are_stored_trimmed_and_blank_ones_do_not_count() {
    assert_eq!(key_to_store("  sk-123 \n"), "sk-123");
    assert!(has_usable_key(&Some("sk".to_owned())));
    assert!(!has_usable_key(&Some(" \t".to_owned())));
    assert!(!has_usable_key(&None));
}

#[test]
fn a_period_with_an_unpriced_model_is_partial() {
    let mut settings = AppSettings::default();
    let models = vec![("gemini".to_owned(), "gemini-2.5-flash".to_owned())];
    assert!(partial_pricing(&settings, &models));
    settings.pricing.insert(
        pricing_key(ProviderId::Gemini, "gemini-2.5-flash"),
        ModelPricing { input_per_million_bits: 1, output_per_million_bits: 1 },
    );
    assert!(!partial_pricing(&settings, &models));
    assert!(!partial_pricing(&settings, &vec![]));
}

#[test]
fn a_changed_hotkey_is_noticed() {
    let current = AppSettings::default();
    let mut next = AppSettings::default();
    assert!(!hotkey_changed(&current, &next));
    next.hotkey = "Ctrl+Shift+G".to_owned();
    assert!(hotkey_changed(&current, &next));
}

#[test]
fn the_hotkey_starts_unregistered() {
    let settings = AppSettings::default();
    let status = zyntax::commands::initial_hotkey_status(&settings);
    assert_eq!(status.accelerator, "Ctrl+Alt+G");
    assert_eq!(status.display, "Ctrl+Alt+G");
    assert!(!status.registered);
    assert_eq!(status.problem.as_deref(), Some("not registered yet"));
}

#[test]
fn a_provider_without_a_profile_gets_a_fresh_one() {
    let mut settings = AppSettings::default();
    settings.providers[2].model = "qwen2.5:7b".to_owned();
    assert_eq!(settings.profile_for(ProviderId::Ollama).model, "qwen2.5:7b");
    settings.providers.clear();
    let fresh = settings.profile_for(ProviderId::Ollama);
    assert_eq!(fresh.model, "llama3.2");
    assert_eq!(fresh.base_url, None);
}

#[test]
fn a_price_of_negative_zero_counts_as_unpriced() {
    let negative_zero = ModelPricing {
        input_per_million_bits: (-0.0f64).to_bits(),
        output_per_million_bits: 0.0f64.to_bits(),
    };
    assert!(!is_priced(negative_zero));
    let half = ModelPricing {
        input_per_million_bits: (-0.0f64).to_bits(),
        output_per_million_bits: 0.5f64.to_bits(),
    };
    assert!(is_priced(half));
}
