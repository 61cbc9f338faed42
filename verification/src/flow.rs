//! The decisions of one correction, from the hotkey press to the delivered
//! text. The app performs the outside work of each step (reading the
//! selection, asking the provider, writing history, typing the result) and
//! hands the outcome to the next decision here.

use vstd::prelude::*;
use vstd::string::StringExecFns;
use crate::errors::{error_view, prompt_error_view, provider_error_view, ErrorView, FixError};
use crate::fix::{is_outcome_of, FixOutcome, InputSource, OutputMode};
use crate::history::NewFix;
use crate::language::AUTO_TAG;
use crate::postprocess::{clean_model_output, cleaned_output};
use crate::prompt::{
    built_prompt, lemma_system_asks_to_correct_in, lemma_system_asks_to_translate,
    lemma_system_keeps_the_detected_language, PromptError, PromptSpec, MAX_INPUT_CHARS,
};
use crate::text::{all_ws, contains};
use crate::provider::{ProviderId, ProviderProfile};
use crate::providers::{Completion, CompletionRequest, ProviderError};
use crate::settings::{profile_view, AppSettings};

verus! {

broadcast use vstd::string::group_string_axioms;

/// What a press of the hotkey gets while corrections are switched off.
pub open spec fn disabled_view() -> ErrorView {
    (
        "disabled"@,
        "ZyntaxAI is switched off"@,
        "Turn it back on from the tray menu, or with the switch in the app."@,
        false,
    )
}

/// A correction only starts while corrections are switched on.
pub fn begin(settings: &AppSettings) -> (r: Result<(), FixError>)
    ensures
        r is Ok <==> settings.enabled,
        r matches Err(e) ==> error_view(e) == disabled_view(),
{
    if !settings.enabled {
        return Err(crate::errors::disabled());
    }
    Ok(())
}

/// Whether the review overlay is shown once the text is captured.
pub fn shows_overlay(settings: &AppSettings) -> (b: bool)
    ensures
        b == (settings.behavior.output_mode == OutputMode::Review),
{
    settings.behavior.output_mode == OutputMode::Review
}

/// The prompt for `original` under the settings: in the active persona's
/// style, for the active language, with the chosen translation and speed.
pub open spec fn settings_prompt(settings: AppSettings, original: Seq<char>) -> Result<
    (Seq<char>, Seq<char>, crate::speed::GenerationParams),
    crate::prompt::PromptError,
> {
    let persona = settings.spec_active_persona();
    let language = settings.spec_active_language();
    built_prompt(persona.2, language.0 == AUTO_TAG@, language.1, settings.translate, settings.speed, original)
}

/// The request follows the translation setting. With a language chosen, the
/// system turn asks to translate into it when translation is on, and to
/// correct in it when it is off; translation with automatic detection is
/// refused, and without translation automatic detection asks the model to
/// keep the text's own language.
pub proof fn lemma_the_request_follows_the_translation_setting(settings: AppSettings, original: Seq<char>)
    requires
        !all_ws(original),
        original.len() <= MAX_INPUT_CHARS,
    ensures
        ({
            let language = settings.spec_active_language();
            let auto = language.0 == AUTO_TAG@;
            let label = language.1;
            &&& settings.translate && auto ==> settings_prompt(settings, original) == Err::<
                (Seq<char>, Seq<char>, crate::speed::GenerationParams),
                PromptError,
            >(PromptError::TranslateRequiresTarget)
            &&& settings.translate && !auto ==> (settings_prompt(settings, original) matches Ok((system, _, _))
                && contains(system, "Translate into "@ + label))
            &&& !settings.translate && !auto ==> (settings_prompt(settings, original) matches Ok((system, _, _))
                && contains(system, ". Correct it in "@ + label))
            &&& !settings.translate && auto ==> (settings_prompt(settings, original) matches Ok((system, _, _))
                && contains(system, "Detect the language of the text and reply in that same language. Never translate."@))
        }),
{
    let persona = settings.spec_active_persona();
    let language = settings.spec_active_language();
    lemma_system_asks_to_translate(persona.2, language.1);
    lemma_system_asks_to_correct_in(persona.2, language.1);
    lemma_system_keeps_the_detected_language(persona.2, language.1);
}

/// The provider profile and request for correcting `original`; a prompt that
/// cannot be built is reported as the prompt's error.
pub fn request_for(settings: &AppSettings, original: &str) -> (r: Result<(ProviderProfile, CompletionRequest), FixError>)
    ensures
        match (r, settings_prompt(*settings, original@)) {
            (Ok((profile, request)), Ok((system, user, params))) => {
                &&& profile_view(profile) == settings.spec_active_profile()
                &&& request.model == profile.model
                &&& request.prompt.system@ == system
                &&& request.prompt.user@ == user
                &&& request.prompt.params == params
            },
            (Err(e), Err(f)) => error_view(e) == prompt_error_view(f),
            _ => false,
        },
{
    let persona = settings.active_persona();
    let language = settings.active_language();
    let spec = PromptSpec { persona: &persona, language: &language, translate: settings.translate, speed: settings.speed };
    let prompt = match spec.build(original) {
        Ok(p) => p,
        Err(e) => {
            return Err(FixError::from(e));
        },
    };
    let profile = settings.active_provider_profile();
    let request = CompletionRequest { model: profile.model.clone(), prompt };
    Ok((profile, request))
}

/// The key a provider is built with; a keyed provider without a usable key
/// fails with `NoApiKey`.
pub fn key_for(profile: &ProviderProfile, api_key: Option<String>) -> (r: Result<Option<String>, FixError>)
    ensures
        match crate::providers::spec_resolve_api_key(profile.id, api_key) {
            Ok(k) => r == Ok::<Option<String>, FixError>(k),
            Err(e) => r matches Err(f) && error_view(f) == provider_error_view(e),
        },
{
    match crate::providers::resolve_api_key(profile.id, api_key) {
        Ok(k) => Ok(k),
        Err(e) => Err(FixError::from(e)),
    }
}

/// What becomes of a provider's answer: a superseded request is discarded
/// whatever it returned; a failure is reported; an answer is cleaned of the
/// model's framing and recorded as an outcome against the original text.
pub fn on_answer(
    superseded: bool,
    answer: Result<Completion, ProviderError>,
    original: String,
    profile: &ProviderProfile,
    elapsed_ms: u64,
) -> (r: Result<Option<FixOutcome>, FixError>)
    ensures
        superseded ==> r == Ok::<Option<FixOutcome>, FixError>(None),
        !superseded ==> match answer {
            Err(e) => r matches Err(f) && error_view(f) == provider_error_view(e),
            Ok(c) => r matches Ok(Some(o)) && o.original == original && o.corrected@ == cleaned_output(
                c.text@,
                original@,
            ) && is_outcome_of(o, original, o.corrected, c.usage, o.provider, profile.model, elapsed_ms)
                && o.provider@ == profile.id.spec_slug(),
        },
{
    if superseded {
        return Ok(None);
    }
    match answer {
        Err(e) => Err(FixError::from(e)),
        Ok(c) => {
            let corrected = clean_model_output(c.text.as_str(), original.as_str());
            let outcome = FixOutcome::new(
                original,
                corrected,
                c.usage,
                String::from_str(profile.id.slug()),
                profile.model.clone(),
                elapsed_ms,
            );
            Ok(Some(outcome))
        },
    }
}

/// The number of characters of `s`, as a `u32` (`s.chars().count() as u32`).
fn char_count_u32(s: &str) -> (n: u32)
    ensures
        n == s@.len() as u32,
{
    let v = crate::text::chars_of(s);
    v.len() as u32
}

/// The history row for a correction, when history is kept: the outcome's
/// details, the persona, language and translation in use, and the two
/// texts' lengths in characters.
pub fn history_entry(settings: &AppSettings, outcome: &FixOutcome, timestamp: i64) -> (r: Option<NewFix>)
    ensures
        match r {
            None => !settings.behavior.keep_history,
            Some(f) => {
                &&& settings.behavior.keep_history
                &&& f.timestamp == timestamp
                &&& f.provider == outcome.provider
                &&& f.model == outcome.model
                &&& f.persona_id == settings.persona_id
                &&& f.language_tag == settings.language_tag
                &&& f.translate == settings.translate
                &&& f.usage == outcome.usage
                &&& f.original_chars == outcome.original@.len() as u32
                &&& f.corrected_chars == outcome.corrected@.len() as u32
                &&& f.changed == outcome.changed
                &&& f.elapsed_ms == (if outcome.elapsed_ms <= u32::MAX {
                    outcome.elapsed_ms as u32
                } else {
                    u32::MAX
                })
            },
        },
{
    if !settings.behavior.keep_history {
        return None;
    }
    let elapsed_ms: u32 = if outcome.elapsed_ms <= u32::MAX as u64 {
        outcome.elapsed_ms as u32
    } else {
        u32::MAX
    };
    Some(
        NewFix {
            timestamp,
            provider: outcome.provider.clone(),
            model: outcome.model.clone(),
            persona_id: settings.persona_id.clone(),
            language_tag: settings.language_tag.clone(),
            translate: settings.translate,
            usage: outcome.usage,
            original_chars: char_count_u32(outcome.original.as_str()),
            corrected_chars: char_count_u32(outcome.corrected.as_str()),
            changed: outcome.changed,
            elapsed_ms,
        },
    )
}

/// Whether the corrected text is also put on the clipboard: when the user
/// asked for it and the output mode does not already put it there.
pub fn also_copy(auto_copy_fixed: bool, mode: OutputMode) -> (b: bool)
    ensures
        b == (auto_copy_fixed && mode != OutputMode::Clipboard),
{
    auto_copy_fixed && mode != OutputMode::Clipboard
}

/// How a corrected text reaches the user.
#[derive(Debug)]
pub struct Delivery {
    pub corrected: String,
    pub original: String,
    pub mode: OutputMode,
    pub also_copy: bool,
}

/// How an outcome is delivered; in review mode nothing is delivered, the
/// overlay shows it instead.
pub fn delivery_for(settings: &AppSettings, outcome: &FixOutcome) -> (r: Option<Delivery>)
    ensures
        match r {
            None => settings.behavior.output_mode == OutputMode::Review,
            Some(d) => {
                &&& settings.behavior.output_mode != OutputMode::Review
                &&& d.corrected == outcome.corrected
                &&& d.original == outcome.original
                &&& d.mode == settings.behavior.output_mode
                &&& d.also_copy == (settings.behavior.auto_copy_fixed && d.mode != OutputMode::Clipboard)
            },
        },
{
    let mode = settings.behavior.output_mode;
    if mode == OutputMode::Review {
        return None;
    }
    Some(
        Delivery {
            corrected: outcome.corrected.clone(),
            original: outcome.original.clone(),
            mode,
            also_copy: also_copy(settings.behavior.auto_copy_fixed, mode),
        },
    )
}

/// How a correction the user approved in the overlay is delivered.
pub fn reviewed_delivery(settings: &AppSettings, corrected: String, original: String, mode: OutputMode) -> (r: Delivery)
    ensures
        r.corrected == corrected,
        r.original == original,
        r.mode == mode,
        r.also_copy == (settings.behavior.auto_copy_fixed && mode != OutputMode::Clipboard),
{
    Delivery { corrected, original, mode, also_copy: also_copy(settings.behavior.auto_copy_fixed, mode) }
}

/// The correction in flight, if any, and the number the next one gets.
#[derive(Debug, Clone, Copy, PartialEq, Eq, Structural)]
pub struct RequestSlot {
    pub current: Option<u64>,
    pub next: u64,
}

impl RequestSlot {
    /// No correction in flight.
    pub fn new() -> (r: Self)
        ensures
            r == (RequestSlot { current: None, next: 0 }),
    {
        RequestSlot { current: None, next: 0 }
    }

    /// The slot once a new correction starts.
    pub open spec fn spec_begin(self) -> RequestSlot {
        RequestSlot { current: Some(self.next), next: (self.next + 1) as u64 }
    }

    /// The slot once correction `id` finishes: it is cleared only if `id` is
    /// still the one in flight.
    pub open spec fn spec_finish(self, id: u64) -> RequestSlot {
        if self.current == Some(id) {
            RequestSlot { current: None, ..self }
        } else {
            self
        }
    }

    /// Starts a correction; returns its number and the one it supersedes,
    /// which the caller cancels.
    pub fn begin(&mut self) -> (r: (u64, Option<u64>))
        requires
            old(self).next < u64::MAX,
        ensures
            r.0 == old(self).next,
            r.1 == old(self).current,
            *final(self) == old(self).spec_begin(),
    {
        let id = self.next;
        let previous = self.current;
        self.current = Some(id);
        self.next = id + 1;
        (id, previous)
    }

    /// Marks correction `id` finished.
    pub fn finish(&mut self, id: u64)
        ensures
            *final(self) == old(self).spec_finish(id),
    {
        if self.current == Some(id) {
            self.current = None;
        }
    }

    /// Cancels whatever is in flight; returns it so the caller can stop it.
    pub fn cancel(&mut self) -> (r: Option<u64>)
        ensures
            r == old(self).current,
            final(self).current is None,
            final(self).next == old(self).next,
    {
        let r = self.current;
        self.current = None;
        r
    }

    /// Whether correction `id` is still the one in flight.
    pub fn is_current(&self, id: u64) -> (b: bool)
        ensures
            b == (self.current == Some(id)),
    {
        self.current == Some(id)
    }
}

/// A correction started after another supersedes it: once both started, the
/// first finishing leaves the second in flight, and the first is no longer
/// current.
pub proof fn lemma_a_superseded_correction_cannot_clear_its_successor(s: RequestSlot)
    requires
        s.next + 1 < u64::MAX,
    ensures
        ({
            let first = s.next;
            let s1 = s.spec_begin();
            let second = s1.next;
            let s2 = s1.spec_begin();
            &&& first != second
            &&& s2.current == Some(second)
            &&& s2.spec_finish(first) == s2
            &&& s2.spec_finish(second).current is None
        }),
{
}

/// Where a correction stands between two pieces of outside work.
#[derive(Debug)]
pub enum FixStage {
    /// The text is being read.
    Capturing { request: u64 },
    /// The text was read and the review overlay is being shown.
    Captured { request: u64, original: String },
    /// The provider's API key is being read.
    ReadingKey { request: u64, original: String, profile: ProviderProfile, completion: CompletionRequest },
    /// The request is with the provider.
    Asking { request: u64, original: String, profile: ProviderProfile },
    /// The outcome is being recorded and delivered.
    Delivering { outcome: FixOutcome },
    /// Nothing more to do.
    Done,
}

/// What the outside work asked for by the last action came to.
#[derive(Debug)]
pub enum FixEvent {
    Captured(Result<String, FixError>),
    OverlayShown,
    KeyRead(Option<String>),
    Answered { answer: Result<Completion, ProviderError>, elapsed_ms: u64, timestamp: i64 },
    Delivered(Result<(), FixError>),
}

/// The outside work to do next.
#[derive(Debug)]
pub enum FixAction {
    /// Cancel the superseded correction, if any, and read the text from `source`.
    Capture { source: InputSource, supersede: Option<u64> },
    /// Show the review overlay at the cursor.
    ShowOverlay,
    /// Read the stored API key of `provider`.
    ReadKey { provider: ProviderId },
    /// Build the provider with `api_key` and send it `request`.
    Ask { profile: ProviderProfile, request: CompletionRequest, api_key: Option<String> },
    /// Store `record` in history, if any, then deliver the text, if any.
    Deliver { record: Option<NewFix>, delivery: Option<Delivery> },
    /// Announce the finished correction, with the notice to show, if any.
    Complete { outcome: FixOutcome, notice: Option<(String, bool)> },
    /// Drop a correction that was superseded or cancelled, silently.
    Discard,
    /// Report the failure.
    Fail { error: FixError },
    /// The event did not belong to this stage; nothing to do.
    Wait,
}

/// `r` fails with an error shown as `v`.
pub open spec fn failed_with(a: FixAction, v: ErrorView) -> bool {
    a matches FixAction::Fail { error } && error_view(error) == v
}

/// A correction starts only while corrections are switched on: it then takes
/// the next request number, supersedes the one in flight and reads the text.
pub open spec fn started(
    settings: AppSettings,
    slot0: RequestSlot,
    slot1: RequestSlot,
    source: InputSource,
    r: (FixStage, FixAction),
) -> bool {
    if settings.enabled {
        &&& r.0 == (FixStage::Capturing { request: slot0.next })
        &&& r.1 == (FixAction::Capture { source, supersede: slot0.current })
        &&& slot1 == slot0.spec_begin()
    } else {
        r.0 is Done && slot1 == slot0 && failed_with(r.1, disabled_view())
    }
}

/// The stage and action that follow `stage` on `event`, and the request slot
/// after it (`slot0` before).
pub open spec fn stepped(
    settings: AppSettings,
    slot0: RequestSlot,
    slot1: RequestSlot,
    stage: FixStage,
    event: FixEvent,
    r: (FixStage, FixAction),
) -> bool {
    match (stage, event) {
        (FixStage::Capturing { request }, FixEvent::Captured(Err(e))) => {
            r.0 is Done && r.1 == (FixAction::Fail { error: e }) && slot1 == slot0
        },
        (FixStage::Capturing { request }, FixEvent::Captured(Ok(original))) => {
            &&& slot1 == slot0
            &&& if settings.behavior.output_mode == OutputMode::Review {
                r.0 == (FixStage::Captured { request, original }) && r.1 is ShowOverlay
            } else {
                after_capture(settings, request, original, r)
            }
        },
        (FixStage::Captured { request, original }, FixEvent::OverlayShown) => {
            slot1 == slot0 && after_capture(settings, request, original, r)
        },
        (FixStage::ReadingKey { request, original, profile, completion }, FixEvent::KeyRead(key)) => {
            &&& slot1 == slot0
            &&& match crate::providers::spec_resolve_api_key(profile.id, key) {
                Ok(k) => {
                    &&& r.0 == (FixStage::Asking { request, original, profile })
                    &&& r.1 == (FixAction::Ask { profile, request: completion, api_key: k })
                },
                Err(e) => r.0 is Done && failed_with(r.1, provider_error_view(e)),
            }
        },
        (FixStage::Asking { request, original, profile }, FixEvent::Answered { answer, elapsed_ms, timestamp }) => {
            if slot0.current != Some(request) {
                r.0 is Done && r.1 is Discard && slot1 == slot0
            } else {
                &&& slot1 == slot0.spec_finish(request)
                &&& match answer {
                    Err(e) => r.0 is Done && failed_with(r.1, provider_error_view(e)),
                    Ok(c) => answered(settings, original, profile, c, elapsed_ms, timestamp, r),
                }
            }
        },
        (FixStage::Delivering { outcome }, FixEvent::Delivered(Ok(()))) => {
            &&& r.0 is Done
            &&& slot1 == slot0
            &&& r.1 matches FixAction::Complete { outcome: o, notice }
            &&& o == outcome
            &&& if settings.behavior.output_mode == OutputMode::Review {
                notice is None
            } else {
                match (notice, crate::feedback::spec_success_notice(settings, outcome)) {
                    (Some((body, sound)), Some((b, s))) => body@ == b && sound == s,
                    (None, None) => true,
                    _ => false,
                }
            }
        },
        (FixStage::Delivering { outcome }, FixEvent::Delivered(Err(e))) => {
            r.0 is Done && r.1 == (FixAction::Fail { error: e }) && slot1 == slot0
        },
        (s, _) => r.0 == s && r.1 is Wait && slot1 == slot0,
    }
}

/// Starts a correction of the text from `source`.
pub fn start(settings: &AppSettings, slot: &mut RequestSlot, source: InputSource) -> (r: (FixStage, FixAction))
    requires
        old(slot).next < u64::MAX,
    ensures
        started(*settings, *old(slot), *final(slot), source, r),
{
    match begin(settings) {
        Err(error) => (FixStage::Done, FixAction::Fail { error }),
        Ok(()) => {
            let (request, supersede) = slot.begin();
            (FixStage::Capturing { request }, FixAction::Capture { source, supersede })
        },
    }
}

/// Once the text is in hand (and the overlay shown, in review mode): the
/// request for it, or the prompt's failure.
pub open spec fn after_capture(settings: AppSettings, request: u64, original: String, r: (FixStage, FixAction)) -> bool {
    match settings_prompt(settings, original@) {
        Ok((system, user, params)) => {
            &&& r.0 matches FixStage::ReadingKey { request: q, original: o, profile, completion }
            &&& q == request && o == original
            &&& profile_view(profile) == settings.spec_active_profile()
            &&& completion.model == profile.model
            &&& completion.prompt.system@ == system
            &&& completion.prompt.user@ == user
            &&& completion.prompt.params == params
            &&& r.1 == FixAction::ReadKey { provider: profile.id }
        },
        Err(f) => r.0 is Done && failed_with(r.1, prompt_error_view(f)),
    }
}

fn proceed_with(settings: &AppSettings, request: u64, original: String) -> (r: (FixStage, FixAction))
    ensures
        after_capture(*settings, request, original, r),
{
    match request_for(settings, original.as_str()) {
        Err(error) => (FixStage::Done, FixAction::Fail { error }),
        Ok((profile, completion)) => {
            let provider = profile.id;
            (FixStage::ReadingKey { request, original, profile, completion }, FixAction::ReadKey { provider })
        },
    }
}

/// Advances a correction by the outcome of the last outside work. An event
/// that does not belong to the stage leaves it as it was.
pub fn step(settings: &AppSettings, slot: &mut RequestSlot, stage: FixStage, event: FixEvent) -> (r: (FixStage, FixAction))
    ensures
        stepped(*settings, *old(slot), *final(slot), stage, event, r),
{
    match (stage, event) {
        (FixStage::Capturing { request }, FixEvent::Captured(Err(e))) => (FixStage::Done, FixAction::Fail { error: e }),
        (FixStage::Capturing { request }, FixEvent::Captured(Ok(original))) => {
            if shows_overlay(settings) {
                (FixStage::Captured { request, original }, FixAction::ShowOverlay)
            } else {
                proceed_with(settings, request, original)
            }
        },
        (FixStage::Captured { request, original }, FixEvent::OverlayShown) => proceed_with(settings, request, original),
        (FixStage::ReadingKey { request, original, profile, completion }, FixEvent::KeyRead(key)) => {
            match key_for(&profile, key) {
                Ok(api_key) => (
                    FixStage::Asking { request, original, profile: profile.clone() },
                    FixAction::Ask { profile, request: completion, api_key },
                ),
                Err(error) => (FixStage::Done, FixAction::Fail { error }),
            }
        },
        (FixStage::Asking { request, original, profile }, FixEvent::Answered { answer, elapsed_ms, timestamp }) => {
            if !slot.is_current(request) {
                return (FixStage::Done, FixAction::Discard);
            }
            slot.finish(request);
            match on_answer(false, answer, original, &profile, elapsed_ms) {
                Err(error) => (FixStage::Done, FixAction::Fail { error }),
                Ok(Some(outcome)) => {
                    let record = history_entry(settings, &outcome, timestamp);
                    let delivery = delivery_for(settings, &outcome);
                    (FixStage::Delivering { outcome }, FixAction::Deliver { record, delivery })
                },
                Ok(None) => (FixStage::Done, FixAction::Discard),
            }
        },
        (FixStage::Delivering { outcome }, FixEvent::Delivered(Ok(()))) => {
            let notice = if shows_overlay(settings) {
                None
            } else {
                crate::feedback::success_notice(settings, &outcome)
            };
            (FixStage::Done, FixAction::Complete { outcome, notice })
        },
        (FixStage::Delivering { outcome }, FixEvent::Delivered(Err(e))) => (FixStage::Done, FixAction::Fail { error: e }),
        (s, _) => (s, FixAction::Wait),
    }
}

/// What follows a provider's answer to the correction in flight: the outcome
/// of cleaning it against the original, to be recorded (when history is kept)
/// and delivered (unless in review mode).
pub open spec fn answered(
    settings: AppSettings,
    original: String,
    profile: ProviderProfile,
    c: Completion,
    elapsed_ms: u64,
    timestamp: i64,
    r: (FixStage, FixAction),
) -> bool {
    &&& r.0 matches FixStage::Delivering { outcome }
    &&& outcome.original == original
    &&& outcome.corrected@ == cleaned_output(c.text@, original@)
    &&& is_outcome_of(outcome, original, outcome.corrected, c.usage, outcome.provider, profile.model, elapsed_ms)
    &&& outcome.provider@ == profile.id.spec_slug()
    &&& r.1 matches FixAction::Deliver { record, delivery }
    &&& record_of(settings, outcome, timestamp, record)
    &&& delivery_of(settings, outcome, delivery)
}

/// `record` is the history row `history_entry` gives for the outcome.
pub open spec fn record_of(settings: AppSettings, outcome: FixOutcome, timestamp: i64, record: Option<NewFix>) -> bool {
    match record {
        None => !settings.behavior.keep_history,
        Some(f) => {
            &&& settings.behavior.keep_history
            &&& f.timestamp == timestamp
            &&& f.provider == outcome.provider
            &&& f.model == outcome.model
            &&& f.persona_id == settings.persona_id
            &&& f.language_tag == settings.language_tag
            &&& f.translate == settings.translate
            &&& f.usage == outcome.usage
            &&& f.original_chars == outcome.original@.len() as u32
            &&& f.corrected_chars == outcome.corrected@.len() as u32
            &&& f.changed == outcome.changed
            &&& f.elapsed_ms == (if outcome.elapsed_ms <= u32::MAX {
                outcome.elapsed_ms as u32
            } else {
                u32::MAX
            })
        },
    }
}

/// `delivery` is how `delivery_for` delivers the outcome.
pub open spec fn delivery_of(settings: AppSettings, outcome: FixOutcome, delivery: Option<Delivery>) -> bool {
    match delivery {
        None => settings.behavior.output_mode == OutputMode::Review,
        Some(d) => {
            &&& settings.behavior.output_mode != OutputMode::Review
            &&& d.corrected == outcome.corrected
            &&& d.original == outcome.original
            &&& d.mode == settings.behavior.output_mode
            &&& d.also_copy == (settings.behavior.auto_copy_fixed && d.mode != OutputMode::Clipboard)
        },
    }
}

} // verus!
