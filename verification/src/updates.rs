//! What the updater decides: when an update may be installed, how its progress
//! adds up, and how each of its failures is shown.

use vstd::prelude::*;
use vstd::string::StringExecFns;
use crate::errors::{error_view, ErrorView, FixError};
use crate::text::{contains, str_contains};

verus! {

broadcast use vstd::string::group_string_axioms;

/// An update that is available.
#[derive(Debug, Clone)]
pub struct UpdateInfo {
    pub version: String,
    pub current_version: String,
    pub notes: Option<String>,
    pub date: Option<String>,
    pub can_install: bool,
}

/// How much of an update has been downloaded.
#[derive(Debug, Clone, Copy, PartialEq, Eq, Structural)]
pub struct UpdateProgress {
    pub downloaded: u64,
    pub total: Option<u64>,
}

impl UpdateProgress {
    /// The progress after another chunk of `chunk` bytes arrived.
    pub fn after_chunk(downloaded: u64, chunk: u64, total: Option<u64>) -> (r: Self)
        requires
            downloaded + chunk <= u64::MAX,
        ensures
            r.downloaded == downloaded + chunk,
            r.total == total,
    {
        UpdateProgress { downloaded: downloaded + chunk, total }
    }
}

/// The error when the updater itself could not be set up.
pub fn unavailable(message: String) -> (r: FixError)
    ensures
        error_view(r) == ("update_unavailable"@, message@, "Download the latest version from zsync.eu/zyntaxai."@, false),
{
    FixError {
        code: String::from_str("update_unavailable"),
        message,
        remedy: String::from_str("Download the latest version from zsync.eu/zyntaxai."),
        retryable: false,
    }
}

/// The error when looking for an update failed: when only checking, the user
/// is pointed at the download page; when installing, asked to try again.
pub fn check_failed(message: String, installing: bool) -> (r: FixError)
    ensures
        error_view(r) == (
            "update_check_failed"@,
            message@,
            if installing {
                "Check your internet connection and try again."@
            } else {
                "Check your internet connection, or download the latest version from zsync.eu/zyntaxai."@
            },
            true,
        ),
{
    let remedy = if installing {
        "Check your internet connection and try again."
    } else {
        "Check your internet connection, or download the latest version \
         from zsync.eu/zyntaxai."
    };
    FixError { code: String::from_str("update_check_failed"), message, remedy: String::from_str(remedy), retryable: true }
}

/// The error when the update announced earlier is no longer offered.
pub fn update_gone() -> (r: FixError)
    ensures
        error_view(r) == (
            "update_gone"@,
            "There is no longer an update to install."@,
            "ZyntaxAI is already up to date."@,
            false,
        ),
{
    FixError {
        code: String::from_str("update_gone"),
        message: String::from_str("There is no longer an update to install."),
        remedy: String::from_str("ZyntaxAI is already up to date."),
        retryable: false,
    }
}

/// The error for a copy that its package manager updates.
pub open spec fn not_installable_view() -> ErrorView {
    (
        "update_not_installable"@,
        "This copy of ZyntaxAI was installed by your package manager."@,
        "Update it the same way you installed it, or download the new version from zsync.eu/zyntaxai."@,
        false,
    )
}

/// Whether an install may start: only a copy that can replace itself installs
/// an update; any other is told how to update instead.
pub fn install_gate(can_install_in_place: bool) -> (r: Result<(), FixError>)
    ensures
        match r {
            Ok(()) => can_install_in_place,
            Err(e) => !can_install_in_place && error_view(e) == not_installable_view(),
        },
{
    if !can_install_in_place {
        return Err(
            FixError {
                code: String::from_str("update_not_installable"),
                message: String::from_str("This copy of ZyntaxAI was installed by your package manager."),
                remedy: String::from_str(
                    "Update it the same way you installed it, or download the new \
                     version from zsync.eu/zyntaxai.",
                ),
                retryable: false,
            },
        );
    }
    Ok(())
}

/// `str::to_lowercase` of `s`: each character's Unicode lowercase mapping.
pub uninterp spec fn lowercase(s: Seq<char>) -> Seq<char>;

/// `str::to_lowercase`; the result is the Unicode lowercase mapping of `s`,
/// named `lowercase` here and not stated further.
#[verifier::external_body]
fn to_lowercase(s: &str) -> (r: String)
    ensures
        r@ == lowercase(s@),
{
    s.to_lowercase()
}

/// The error shown for a failed install, given the failure's text lowered
/// (`lowered`): a failure of the signature check, or one whose text speaks of
/// a signature, is reported as a rejected download; any other as a failed
/// install that quotes the failure.
pub open spec fn install_failure_view(detail: Seq<char>, signature_kind: bool, lowered: Seq<char>) -> ErrorView {
    if signature_kind || contains(lowered, "signature"@) {
        (
            "update_signature_invalid"@,
            "The downloaded update was not signed by ZyntaxAI, so it was discarded."@,
            "Nothing was installed. Do not install this update by hand — check zsync.eu/zyntaxai, and treat it as suspicious if the problem persists."@,
            false,
        )
    } else {
        (
            "update_install_failed"@,
            "The update could not be installed: "@ + detail,
            "Download the new version from zsync.eu/zyntaxai and install it manually."@,
            false,
        )
    }
}

/// The error for a failed install. `signature_kind` says whether the
/// updater's error was one of its signature or encoding errors, and `lowered`
/// is `detail` in lower case.
pub fn install_failure(detail: String, signature_kind: bool, lowered: &str) -> (r: FixError)
    ensures
        error_view(r) == install_failure_view(detail@, signature_kind, lowered@),
{
    if signature_kind || str_contains(lowered, "signature") {
        return FixError {
            code: String::from_str("update_signature_invalid"),
            message: String::from_str("The downloaded update was not signed by ZyntaxAI, so it was discarded."),
            remedy: String::from_str(
                "Nothing was installed. Do not install this update by hand — \
                 check zsync.eu/zyntaxai, and treat it as suspicious if the \
                 problem persists.",
            ),
            retryable: false,
        };
    }
    let mut message = String::from_str("The update could not be installed: ");
    message.append(detail.as_str());
    FixError {
        code: String::from_str("update_install_failed"),
        message,
        remedy: String::from_str("Download the new version from zsync.eu/zyntaxai and install it manually."),
        retryable: false,
    }
}

/// The error for a failed install, from the updater's failure text and whether
/// its error was one of the signature or encoding errors.
pub fn install_failed(detail: String, signature_kind: bool) -> (r: FixError)
    ensures
        error_view(r) == install_failure_view(detail@, signature_kind, lowercase(detail@)),
{
    let lowered = to_lowercase(detail.as_str());
    install_failure(detail, signature_kind, lowered.as_str())
}

} // verus!
