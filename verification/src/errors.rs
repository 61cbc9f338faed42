//! The one error shape the user interface receives: a stable code, a message,
//! what to do about it, and whether trying again may help.

use vstd::prelude::*;
use vstd::string::StringExecFns;
use crate::platform::PlatformError;
use crate::prompt::PromptError;
use crate::providers::ProviderError;

verus! {

broadcast use vstd::string::group_string_axioms;

/// A failure as the user interface shows it.
#[derive(Debug)]
pub struct FixError {
    pub code: String,
    pub message: String,
    pub remedy: String,
    pub retryable: bool,
}

impl Clone for FixError {
    fn clone(&self) -> (r: Self)
        ensures
            r == *self,
    {
        FixError {
            code: self.code.clone(),
            message: self.message.clone(),
            remedy: self.remedy.clone(),
            retryable: self.retryable,
        }
    }
}

/// An error as code, message, remedy and retry flag.
pub type ErrorView = (Seq<char>, Seq<char>, Seq<char>, bool);

pub open spec fn error_view(e: FixError) -> ErrorView {
    (e.code@, e.message@, e.remedy@, e.retryable)
}

impl FixError {
    fn with(code: &str, message: String, remedy: &str, retryable: bool) -> (r: Self)
        ensures
            error_view(r) == (code@, message@, remedy@, retryable),
    {
        FixError { code: String::from_str(code), message, remedy: String::from_str(remedy), retryable }
    }
}

/// A provider failure keeps its code, message, remedy and retry flag.
pub open spec fn provider_error_view(e: ProviderError) -> ErrorView {
    (e.spec_code(), e.spec_message(), e.spec_remedy(), e.spec_is_retryable())
}

impl From<ProviderError> for FixError {
    fn from(error: ProviderError) -> (r: Self)
        ensures
            error_view(r) == provider_error_view(error),
    {
        FixError {
            code: String::from_str(error.code()),
            message: error.message(),
            remedy: error.remedy(),
            retryable: error.is_retryable(),
        }
    }
}

impl vstd::std_specs::convert::FromSpecImpl<ProviderError> for FixError {
    open spec fn obeys_from_spec() -> bool {
        false
    }

    open spec fn from_spec(v: ProviderError) -> Self {
        arbitrary()
    }
}

/// The code and remedy a platform failure is shown with.
pub open spec fn platform_code_and_remedy(e: PlatformError) -> (Seq<char>, Seq<char>) {
    match e {
        PlatformError::NothingToCorrect => (
            "nothing_to_correct"@,
            "Select some text, or copy it first and set the input source to Clipboard."@,
        ),
        PlatformError::InjectionUnavailable => (
            "injection_unavailable"@,
            "The correction is on your clipboard — paste it with Ctrl+V. See the System panel for how to enable automatic replacement."@,
        ),
        PlatformError::Injection(_) => (
            "injection_failed"@,
            "Try again, or switch the output mode to Copy to clipboard."@,
        ),
        PlatformError::Clipboard(_) => ("clipboard_unavailable"@, "ZyntaxAI could not reach the system clipboard."@),
    }
}

/// A platform failure is shown with its message and never offered for retry.
pub open spec fn platform_error_view(e: PlatformError) -> ErrorView {
    let (code, remedy) = platform_code_and_remedy(e);
    (code, e.spec_message(), remedy, false)
}

impl From<PlatformError> for FixError {
    fn from(error: PlatformError) -> (r: Self)
        ensures
            error_view(r) == platform_error_view(error),
    {
        let (code, remedy) = match &error {
            PlatformError::NothingToCorrect => (
                "nothing_to_correct",
                "Select some text, or copy it first and set the input source to Clipboard.",
            ),
            PlatformError::InjectionUnavailable => (
                "injection_unavailable",
                "The correction is on your clipboard — paste it with Ctrl+V. See the System \
                 panel for how to enable automatic replacement.",
            ),
            PlatformError::Injection(_) => (
                "injection_failed",
                "Try again, or switch the output mode to Copy to clipboard.",
            ),
            PlatformError::Clipboard(_) => ("clipboard_unavailable", "ZyntaxAI could not reach the system clipboard."),
        };
        FixError::with(code, error.message(), remedy, false)
    }
}

impl vstd::std_specs::convert::FromSpecImpl<PlatformError> for FixError {
    open spec fn obeys_from_spec() -> bool {
        false
    }

    open spec fn from_spec(v: PlatformError) -> Self {
        arbitrary()
    }
}

/// The code and remedy a prompt failure is shown with.
pub open spec fn prompt_code_and_remedy(e: PromptError) -> (Seq<char>, Seq<char>) {
    match e {
        PromptError::EmptyInput => ("nothing_to_correct"@, "Select some text before pressing the hotkey."@),
        PromptError::InputTooLong { .. } => ("input_too_long"@, "Correct a smaller selection."@),
        PromptError::TranslateRequiresTarget => (
            "translate_needs_target"@,
            "Choose a target language in the Languages panel, or turn translation off."@,
        ),
    }
}

/// A prompt failure is shown with its message and never offered for retry.
pub open spec fn prompt_error_view(e: PromptError) -> ErrorView {
    let (code, remedy) = prompt_code_and_remedy(e);
    (code, e.spec_message(), remedy, false)
}

impl From<PromptError> for FixError {
    fn from(error: PromptError) -> (r: Self)
        ensures
            error_view(r) == prompt_error_view(error),
    {
        let (code, remedy) = match &error {
            PromptError::EmptyInput => ("nothing_to_correct", "Select some text before pressing the hotkey."),
            PromptError::InputTooLong { .. } => ("input_too_long", "Correct a smaller selection."),
            PromptError::TranslateRequiresTarget => (
                "translate_needs_target",
                "Choose a target language in the Languages panel, or turn translation off.",
            ),
        };
        FixError::with(code, error.message(), remedy, false)
    }
}

impl vstd::std_specs::convert::FromSpecImpl<PromptError> for FixError {
    open spec fn obeys_from_spec() -> bool {
        false
    }

    open spec fn from_spec(v: PromptError) -> Self {
        arbitrary()
    }
}

/// The error a hotkey press gets while corrections are switched off.
pub fn disabled() -> (r: FixError)
    ensures
        error_view(r) == (
            "disabled"@,
            "ZyntaxAI is switched off"@,
            "Turn it back on from the tray menu, or with the switch in the app."@,
            false,
        ),
{
    FixError::with(
        "disabled",
        String::from_str("ZyntaxAI is switched off"),
        "Turn it back on from the tray menu, or with the switch in the app.",
        false,
    )
}

/// The error when there is no desktop session to read text from.
pub fn no_display() -> (r: FixError)
    ensures
        error_view(r) == (
            "no_display"@,
            "no graphical session is available"@,
            "ZyntaxAI needs a desktop session to read selected text."@,
            false,
        ),
{
    FixError::with(
        "no_display",
        String::from_str("no graphical session is available"),
        "ZyntaxAI needs a desktop session to read selected text.",
        false,
    )
}

/// The error when there is no desktop session to apply a reviewed correction in.
pub fn no_display_to_apply() -> (r: FixError)
    ensures
        error_view(r) == (
            "no_display"@,
            "no graphical session is available"@,
            "ZyntaxAI needs a desktop session to apply corrections."@,
            false,
        ),
{
    FixError::with(
        "no_display",
        String::from_str("no graphical session is available"),
        "ZyntaxAI needs a desktop session to apply corrections.",
        false,
    )
}

/// The error when a blocking desktop operation did not complete.
pub fn join_failed() -> (r: FixError)
    ensures
        error_view(r) == (
            "desktop_operation_failed"@,
            "a desktop operation did not complete"@,
            "Try again. If it repeats, check the Logs panel."@,
            true,
        ),
{
    FixError::with(
        "desktop_operation_failed",
        String::from_str("a desktop operation did not complete"),
        "Try again. If it repeats, check the Logs panel.",
        true,
    )
}

/// An error that is not offered for retry.
pub fn simple_error(code: &str, message: String, remedy: &str) -> (r: FixError)
    ensures
        error_view(r) == (code@, message@, remedy@, false),
{
    FixError::with(code, message, remedy, false)
}

} // verus!
