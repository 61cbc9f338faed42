//! Errors of the desktop layer, and how keystroke chords are sent on Wayland.

use vstd::prelude::*;
use vstd::string::StringExecFns;
use crate::capabilities::{DisplayServer, InjectionBackend};
use crate::fix::InputSource;
use crate::text::{all_ws, decimal, is_blank, push_decimal, trim, trimmed, strings_view};

verus! {

broadcast use vstd::string::group_string_axioms;

/// Why the clipboard could not be used.
#[derive(Debug)]
pub enum ClipboardError {
    Unavailable(String),
    NotText,
}

impl ClipboardError {
    pub open spec fn spec_message(&self) -> Seq<char> {
        match self {
            ClipboardError::Unavailable(d) => "could not reach the system clipboard: "@ + d@,
            ClipboardError::NotText => "the clipboard does not contain text"@,
        }
    }

    /// The error as a sentence for the user.
    pub fn message(&self) -> (m: String)
        ensures
            m@ == self.spec_message(),
    {
        match self {
            ClipboardError::Unavailable(d) => {
                let mut m = String::new();
                m.append("could not reach the system clipboard: ");
                m.append(d.as_str());
                m
            },
            ClipboardError::NotText => String::from_str("the clipboard does not contain text"),
        }
    }
}

/// Why text could not be captured from, or delivered to, another application.
#[derive(Debug)]
pub enum PlatformError {
    NothingToCorrect,
    InjectionUnavailable,
    Injection(String),
    Clipboard(ClipboardError),
}

impl PlatformError {
    pub open spec fn spec_message(&self) -> Seq<char> {
        match self {
            PlatformError::NothingToCorrect => "there is no text to correct"@,
            PlatformError::InjectionUnavailable => "this session cannot send keystrokes to other applications"@,
            PlatformError::Injection(d) => "could not send keystrokes: "@ + d@,
            PlatformError::Clipboard(e) => e.spec_message(),
        }
    }

    /// The error as a sentence for the user.
    pub fn message(&self) -> (m: String)
        ensures
            m@ == self.spec_message(),
    {
        match self {
            PlatformError::NothingToCorrect => String::from_str("there is no text to correct"),
            PlatformError::InjectionUnavailable => String::from_str(
                "this session cannot send keystrokes to other applications",
            ),
            PlatformError::Injection(d) => {
                let mut m = String::new();
                m.append("could not send keystrokes: ");
                m.append(d.as_str());
                m
            },
            PlatformError::Clipboard(e) => e.message(),
        }
    }
}

/// Whether capturing from `source` reads the primary selection: the
/// selection is asked for and the session has one (X11 or Wayland);
/// otherwise the clipboard is read.
pub fn reads_primary_selection(source: InputSource, display_server: DisplayServer) -> (b: bool)
    ensures
        b == (source is Selection && (display_server is X11 || display_server is Wayland)),
{
    match source {
        InputSource::Selection => match display_server {
            DisplayServer::X11 | DisplayServer::Wayland => true,
            _ => false,
        },
        InputSource::Clipboard => false,
    }
}

/// What a capture gives for what was read: the text, unless it is blank or
/// not text, which leaves nothing to correct; an unreachable clipboard is
/// reported as such.
pub open spec fn spec_captured(read: Result<String, ClipboardError>) -> Result<String, PlatformError> {
    match read {
        Ok(text) => if all_ws(text@) {
            Err(PlatformError::NothingToCorrect)
        } else {
            Ok(text)
        },
        Err(ClipboardError::NotText) => Err(PlatformError::NothingToCorrect),
        Err(ClipboardError::Unavailable(d)) => Err(PlatformError::Clipboard(ClipboardError::Unavailable(d))),
    }
}

/// What a capture gives for what was read from the selection or clipboard.
pub fn captured(read: Result<String, ClipboardError>) -> (r: Result<String, PlatformError>)
    ensures
        r == spec_captured(read),
{
    match read {
        Ok(text) => {
            if is_blank(text.as_str()) {
                Err(PlatformError::NothingToCorrect)
            } else {
                Ok(text)
            }
        },
        Err(ClipboardError::NotText) => Err(PlatformError::NothingToCorrect),
        Err(ClipboardError::Unavailable(d)) => Err(PlatformError::Clipboard(ClipboardError::Unavailable(d))),
    }
}

/// The clipboard shortcut to send.
#[derive(Debug, Clone, Copy, PartialEq, Eq, Structural)]
pub enum Chord {
    Copy,
    Paste,
}

/// A helper program to run, with its arguments.
#[derive(Debug)]
pub struct HelperCommand {
    pub program: String,
    pub args: Vec<String>,
}

/// The evdev key code of the left Control key.
pub const KEY_LEFTCTRL: u16 = 29;
/// The evdev key code of V.
pub const KEY_V: u16 = 47;
/// The evdev key code of C.
pub const KEY_C: u16 = 46;

pub open spec fn spec_letter(chord: Chord) -> Seq<char> {
    match chord {
        Chord::Copy => "c"@,
        Chord::Paste => "v"@,
    }
}

pub open spec fn spec_key_code(chord: Chord) -> u16 {
    match chord {
        Chord::Copy => KEY_C,
        Chord::Paste => KEY_V,
    }
}

/// The letter of the chord's key, for `wtype`.
pub fn letter(chord: Chord) -> (s: &'static str)
    ensures
        s@ == spec_letter(chord),
{
    match chord {
        Chord::Copy => "c",
        Chord::Paste => "v",
    }
}

/// The key code of the chord's key, for `ydotool`.
pub fn key_code(chord: Chord) -> (k: u16)
    ensures
        k == spec_key_code(chord),
{
    match chord {
        Chord::Copy => KEY_C,
        Chord::Paste => KEY_V,
    }
}

/// A `ydotool` key event: the key code, a colon, and 1 for down or 0 for up.
pub open spec fn key_event(code: u16, down: bool) -> Seq<char> {
    decimal(code as nat) + if down {
        ":1"@
    } else {
        ":0"@
    }
}

/// `ydotool`'s key events for the chord: Control down, key down, key up, Control up.
pub open spec fn ydotool_events(chord: Chord) -> Seq<Seq<char>> {
    seq![
        "key"@,
        key_event(KEY_LEFTCTRL, true),
        key_event(spec_key_code(chord), true),
        key_event(spec_key_code(chord), false),
        key_event(KEY_LEFTCTRL, false),
    ]
}

fn push_key_event(v: &mut Vec<String>, code: u16, down: bool)
    ensures
        strings_view(final(v)@) == strings_view(old(v)@).push(key_event(code, down)),
{
    let mut e = String::new();
    push_decimal(&mut e, code as u64);
    if down {
        e.append(":1");
    } else {
        e.append(":0");
    }
    v.push(e);
    assert(strings_view(v@) =~= strings_view(old(v)@).push(key_event(code, down)));
}

/// The helper to run for a chord, or why no helper is used.
pub open spec fn spec_send_chord(backend: InjectionBackend, chord: Chord) -> Result<(Seq<char>, Seq<Seq<char>>), ()> {
    match backend {
        InjectionBackend::Wtype => Ok(("wtype"@, seq!["-M"@, "ctrl"@, "-k"@, spec_letter(chord), "-m"@, "ctrl"@])),
        InjectionBackend::Ydotool => Ok(("ydotool"@, ydotool_events(chord))),
        _ => Err(()),
    }
}

fn push_str(v: &mut Vec<String>, s: &str)
    ensures
        strings_view(final(v)@) == strings_view(old(v)@).push(s@),
{
    v.push(String::from_str(s));
    assert(strings_view(v@) =~= strings_view(old(v)@).push(s@));
}

/// Decides how a chord is sent on Wayland: the helper program and its
/// arguments, an error for native injection (which does not go through the
/// helpers), or `InjectionUnavailable` when there is no backend.
pub fn send_chord(backend: InjectionBackend, chord: Chord) -> (r: Result<HelperCommand, PlatformError>)
    ensures
        match (r, spec_send_chord(backend, chord)) {
            (Ok(c), Ok((program, args))) => c.program@ == program && strings_view(c.args@) == args,
            (Err(e), Err(_)) => match backend {
                InjectionBackend::Native => e matches PlatformError::Injection(d) && d@
                    == "native injection should not be routed through the Wayland helpers"@,
                _ => e is InjectionUnavailable,
            },
            _ => false,
        },
{
    let mut args: Vec<String> = Vec::new();
    assert(strings_view(args@) =~= Seq::<Seq<char>>::empty());
    match backend {
        InjectionBackend::Wtype => {
            push_str(&mut args, "-M");
            push_str(&mut args, "ctrl");
            push_str(&mut args, "-k");
            push_str(&mut args, letter(chord));
            push_str(&mut args, "-m");
            push_str(&mut args, "ctrl");
            assert(strings_view(args@) =~= seq!["-M"@, "ctrl"@, "-k"@, spec_letter(chord), "-m"@, "ctrl"@]);
            Ok(HelperCommand { program: String::from_str("wtype"), args })
        },
        InjectionBackend::Ydotool => {
            let key = key_code(chord);
            push_str(&mut args, "key");
            push_key_event(&mut args, KEY_LEFTCTRL, true);
            push_key_event(&mut args, key, true);
            push_key_event(&mut args, key, false);
            push_key_event(&mut args, KEY_LEFTCTRL, false);
            assert(strings_view(args@) =~= ydotool_events(chord));
            Ok(HelperCommand { program: String::from_str("ydotool"), args })
        },
        InjectionBackend::Native => Err(
            PlatformError::Injection(
                String::from_str("native injection should not be routed through the Wayland helpers"),
            ),
        ),
        InjectionBackend::Unavailable => Err(PlatformError::InjectionUnavailable),
    }
}

/// The failure when a helper program could not be started (`err` says why).
pub fn helper_spawn_failed(program: &str, err: &str) -> (e: PlatformError)
    ensures
        e matches PlatformError::Injection(d) && d@ == "could not run "@ + program@ + ": "@ + err@
            + ". Install it, or switch the output mode to Copy to clipboard."@,
{
    let mut d = String::from_str("could not run ");
    d.append(program);
    d.append(": ");
    d.append(err);
    d.append(". Install it, or switch the output mode to Copy to clipboard.");
    PlatformError::Injection(d)
}

/// The failure when a helper program exited unsuccessfully, with its status
/// and what it wrote to standard error, trimmed.
pub fn helper_exited(program: &str, status: &str, stderr: &str) -> (e: PlatformError)
    ensures
        e matches PlatformError::Injection(d) && d@ == program@ + " exited with "@ + status@ + ": "@ + trim(stderr@),
{
    let mut d = String::from_str(program);
    d.append(" exited with ");
    d.append(status);
    d.append(": ");
    let t = trimmed(stderr);
    d.append(t.as_str());
    PlatformError::Injection(d)
}

/// The failure when a helper program did not finish in time.
pub fn helper_timed_out(program: &str) -> (e: PlatformError)
    ensures
        e matches PlatformError::Injection(d) && d@ == program@
            + " did not respond. If you are using ydotool, check that ydotoold is running."@,
{
    let mut d = String::from_str(program);
    d.append(" did not respond. If you are using ydotool, check that ydotoold is running.");
    PlatformError::Injection(d)
}

/// The failure when waiting for a helper program failed (`err` says why).
pub fn helper_wait_failed(program: &str, err: &str) -> (e: PlatformError)
    ensures
        e matches PlatformError::Injection(d) && d@ == "could not wait for "@ + program@ + ": "@ + err@,
{
    let mut d = String::from_str("could not wait for ");
    d.append(program);
    d.append(": ");
    d.append(err);
    PlatformError::Injection(d)
}

} // verus!
