//! What the desktop session lets the application do, and what to tell the
//! user about what it cannot.

use vstd::prelude::*;
use crate::text::{contains, eq_str, str_contains};

verus! {

broadcast use vstd::string::group_string_axioms;

/// The kind of graphical session.
#[derive(Debug, Clone, Copy, PartialEq, Eq, Structural)]
pub enum DisplayServer {
    Windows,
    MacOs,
    X11,
    Wayland,
    Unknown,
}

/// How the global hotkey is registered.
#[derive(Debug, Clone, Copy, PartialEq, Eq, Structural)]
pub enum HotkeyBackend {
    Os,
    Portal,
    ExternalCommand,
}

/// How keystrokes are sent to other applications (`Unavailable`: they cannot be).
#[derive(Debug, Clone, Copy, PartialEq, Eq, Structural)]
pub enum InjectionBackend {
    Native,
    Wtype,
    Ydotool,
    Unavailable,
}

impl InjectionBackend {
    /// Whether keystrokes can be sent at all.
    pub fn is_available(self) -> (b: bool)
        ensures
            b == !(self is Unavailable),
    {
        match self {
            InjectionBackend::Unavailable => false,
            _ => true,
        }
    }
}

/// How serious a capability note is.
#[derive(Debug, Clone, Copy, PartialEq, Eq, Structural)]
pub enum NoteSeverity {
    Info,
    Degraded,
}

/// Something the user should know about the session, with a remedy if there is one.
#[derive(Debug)]
pub struct CapabilityNote {
    pub severity: NoteSeverity,
    pub title: String,
    pub detail: String,
    pub remedy: Option<String>,
}

impl Clone for CapabilityNote {
    fn clone(&self) -> (r: Self)
        ensures
            r == *self,
    {
        let remedy = match &self.remedy {
            Some(s) => Some(s.clone()),
            None => None,
        };
        CapabilityNote { severity: self.severity, title: self.title.clone(), detail: self.detail.clone(), remedy }
    }
}

/// What the session supports.
#[derive(Debug)]
pub struct Capabilities {
    pub display_server: DisplayServer,
    pub can_capture_selection: bool,
    pub injection: InjectionBackend,
    pub hotkey: HotkeyBackend,
    pub notes: Vec<CapabilityNote>,
}

impl Clone for Capabilities {
    fn clone(&self) -> (r: Self)
        ensures
            r.display_server == self.display_server,
            r.can_capture_selection == self.can_capture_selection,
            r.injection == self.injection,
            r.hotkey == self.hotkey,
            r.notes@ == self.notes@,
    {
        let mut notes: Vec<CapabilityNote> = Vec::new();
        let mut i: usize = 0;
        while i < self.notes.len()
            invariant
                i <= self.notes@.len(),
                notes@ == self.notes@.take(i as int),
            decreases self.notes@.len() - i,
        {
            notes.push(self.notes[i].clone());
            assert(self.notes@.take(i + 1) =~= self.notes@.take(i as int).push(self.notes@[i as int]));
            i = i + 1;
        }
        assert(self.notes@.take(i as int) =~= self.notes@);
        Capabilities {
            display_server: self.display_server,
            can_capture_selection: self.can_capture_selection,
            injection: self.injection,
            hotkey: self.hotkey,
            notes,
        }
    }
}

/// What was found out about the session.
#[derive(Debug, Clone, Copy, PartialEq, Eq, Structural)]
pub struct Environment {
    pub display_server: DisplayServer,
    pub has_wtype: bool,
    pub has_ydotool: bool,
    pub has_global_shortcuts_portal: bool,
    pub has_wlr_data_control: bool,
    pub macos_accessibility_granted: bool,
}

impl Environment {
    /// A session of the given kind with no helpers installed and macOS
    /// accessibility granted.
    pub fn for_test(display_server: DisplayServer) -> (r: Self)
        ensures
            r.display_server == display_server,
            !r.has_wtype && !r.has_ydotool && !r.has_global_shortcuts_portal && !r.has_wlr_data_control,
            r.macos_accessibility_granted,
    {
        Environment {
            display_server,
            has_wtype: false,
            has_ydotool: false,
            has_global_shortcuts_portal: false,
            has_wlr_data_control: false,
            macos_accessibility_granted: true,
        }
    }
}

/// A note as severity, title, detail and remedy.
pub type NoteView = (NoteSeverity, Seq<char>, Seq<char>, Option<Seq<char>>);

pub open spec fn note_view(n: CapabilityNote) -> NoteView {
    (n.severity, n.title@, n.detail@, match n.remedy {
        Some(r) => Some(r@),
        None => None,
    })
}

pub open spec fn notes_view(v: Seq<CapabilityNote>) -> Seq<NoteView> {
    v.map_values(|n: CapabilityNote| note_view(n))
}

pub open spec fn accessibility_note() -> NoteView {
    (
        NoteSeverity::Degraded,
        "Accessibility permission not granted"@,
        "macOS blocks applications from reading a selection or typing \
         into other apps until you allow it. Until then ZyntaxAI can \
         only work with text you copy yourself."@,
        Some(
            "Open System Settings → Privacy & Security → Accessibility and \
             enable ZyntaxAI."@,
        ),
    )
}

pub open spec fn no_injection_note() -> NoteView {
    (
        NoteSeverity::Degraded,
        "Cannot type into other applications"@,
        "Wayland does not let an application send keystrokes to another \
         window. Replace, Append and Prepend are unavailable, so \
         corrections are put on your clipboard instead."@,
        Some(
            "Install `wtype` to enable them. If your compositor does not \
             support it, `ydotool` works everywhere but needs its daemon \
             running."@,
        ),
    )
}

pub open spec fn no_hotkey_note() -> NoteView {
    (
        NoteSeverity::Degraded,
        "Global hotkey unavailable"@,
        "This compositor does not implement the desktop portal for \
         global shortcuts, so ZyntaxAI cannot register a hotkey itself."@,
        Some(
            "Bind a key in your compositor's own settings to the command \
             `zyntax fix`."@,
        ),
    )
}

pub open spec fn no_session_note() -> NoteView {
    (
        NoteSeverity::Degraded,
        "No graphical session detected"@,
        "Neither X11 nor Wayland could be found, so hotkeys and text \
         replacement are unavailable."@,
        None,
    )
}

/// The injection backend a Wayland session gets: `wtype` first, then `ydotool`.
pub open spec fn wayland_injection(env: Environment) -> InjectionBackend {
    if env.has_wtype {
        InjectionBackend::Wtype
    } else if env.has_ydotool {
        InjectionBackend::Ydotool
    } else {
        InjectionBackend::Unavailable
    }
}

/// Capabilities (without notes) and notes that a session yields.
pub open spec fn expected_capabilities(env: Environment) -> (bool, InjectionBackend, HotkeyBackend, Seq<NoteView>) {
    match env.display_server {
        DisplayServer::Windows | DisplayServer::X11 => (true, InjectionBackend::Native, HotkeyBackend::Os, Seq::empty()),
        DisplayServer::MacOs => if env.macos_accessibility_granted {
            (true, InjectionBackend::Native, HotkeyBackend::Os, Seq::empty())
        } else {
            (false, InjectionBackend::Unavailable, HotkeyBackend::Os, seq![accessibility_note()])
        },
        DisplayServer::Wayland => {
            let inj = wayland_injection(env);
            let n1: Seq<NoteView> = if inj is Unavailable {
                seq![no_injection_note()]
            } else {
                Seq::empty()
            };
            if env.has_global_shortcuts_portal {
                (env.has_wlr_data_control, inj, HotkeyBackend::Portal, n1)
            } else {
                (env.has_wlr_data_control, inj, HotkeyBackend::ExternalCommand, n1.push(no_hotkey_note()))
            }
        },
        DisplayServer::Unknown => (false, InjectionBackend::Unavailable, HotkeyBackend::ExternalCommand, seq![no_session_note()]),
    }
}

fn note(title: &str, detail: &str, remedy: Option<&str>) -> (n: CapabilityNote)
    ensures
        note_view(n) == (NoteSeverity::Degraded, title@, detail@, match remedy {
            Some(r) => Some(r@),
            None => None::<Seq<char>>,
        }),
{
    CapabilityNote {
        severity: NoteSeverity::Degraded,
        title: title.to_owned(),
        detail: detail.to_owned(),
        remedy: match remedy {
            Some(r) => Some(r.to_owned()),
            None => None,
        },
    }
}

proof fn lemma_notes_view_push(v: Seq<CapabilityNote>, n: CapabilityNote)
    ensures
        notes_view(v.push(n)) == notes_view(v).push(note_view(n)),
{
    assert(notes_view(v.push(n)) =~= notes_view(v).push(note_view(n)));
}

impl Capabilities {
    /// Whether corrections can replace, or be added to, the text in place.
    pub fn can_replace_in_place(&self) -> (b: bool)
        ensures
            b == !(self.injection is Unavailable),
    {
        self.injection.is_available()
    }

    /// Whether some note reports a degraded capability.
    pub fn is_degraded(&self) -> (b: bool)
        ensures
            b == exists|i: int| 0 <= i < self.notes@.len() && (#[trigger] self.notes@[i]).severity
                == NoteSeverity::Degraded,
    {
        let mut i: usize = 0;
        while i < self.notes.len()
            invariant
                i <= self.notes@.len(),
                forall|j: int| 0 <= j < i ==> (#[trigger] self.notes@[j]).severity != NoteSeverity::Degraded,
            decreases self.notes@.len() - i,
        {
            if self.notes[i].severity == NoteSeverity::Degraded {
                return true;
            }
            i = i + 1;
        }
        false
    }

    /// What a session described by `env` can do, with a note, and where one
    /// exists a remedy, for every capability it lacks.
    pub fn from_environment(env: &Environment) -> (r: Self)
        ensures
            r.display_server == env.display_server,
            r.can_capture_selection == expected_capabilities(*env).0,
            r.injection == expected_capabilities(*env).1,
            r.hotkey == expected_capabilities(*env).2,
            notes_view(r.notes@) == expected_capabilities(*env).3,
    {
        let empty: Vec<CapabilityNote> = Vec::new();
        assert(notes_view(empty@) =~= Seq::<NoteView>::empty());
        match env.display_server {
            DisplayServer::Windows => Capabilities {
                display_server: DisplayServer::Windows,
                can_capture_selection: true,
                injection: InjectionBackend::Native,
                hotkey: HotkeyBackend::Os,
                notes: empty,
            },
            DisplayServer::MacOs => {
                let mut notes = empty;
                if !env.macos_accessibility_granted {
                    let n = note(
                        "Accessibility permission not granted",
                        "macOS blocks applications from reading a selection or typing \
                         into other apps until you allow it. Until then ZyntaxAI can \
                         only work with text you copy yourself.",
                        Some(
                            "Open System Settings → Privacy & Security → Accessibility and \
                             enable ZyntaxAI.",
                        ),
                    );
                    proof {
                        lemma_notes_view_push(notes@, n);
                    }
                    notes.push(n);
                    assert(notes_view(notes@) =~= seq![accessibility_note()]);
                }
                Capabilities {
                    display_server: DisplayServer::MacOs,
                    can_capture_selection: env.macos_accessibility_granted,
                    injection: if env.macos_accessibility_granted {
                        InjectionBackend::Native
                    } else {
                        InjectionBackend::Unavailable
                    },
                    hotkey: HotkeyBackend::Os,
                    notes,
                }
            },
            DisplayServer::X11 => Capabilities {
                display_server: DisplayServer::X11,
                can_capture_selection: true,
                injection: InjectionBackend::Native,
                hotkey: HotkeyBackend::Os,
                notes: empty,
            },
            DisplayServer::Wayland => {
                let mut notes = empty;
                let injection = if env.has_wtype {
                    InjectionBackend::Wtype
                } else if env.has_ydotool {
                    InjectionBackend::Ydotool
                } else {
                    InjectionBackend::Unavailable
                };
                if injection == InjectionBackend::Unavailable {
                    let n = note(
                        "Cannot type into other applications",
                        "Wayland does not let an application send keystrokes to another \
                         window. Replace, Append and Prepend are unavailable, so \
                         corrections are put on your clipboard instead.",
                        Some(
                            "Install `wtype` to enable them. If your compositor does not \
                             support it, `ydotool` works everywhere but needs its daemon \
                             running.",
                        ),
                    );
                    proof {
                        lemma_notes_view_push(notes@, n);
                    }
                    notes.push(n);
                }
                let ghost n1 = notes_view(notes@);
                let hotkey = if env.has_global_shortcuts_portal {
                    HotkeyBackend::Portal
                } else {
                    let n = note(
                        "Global hotkey unavailable",
                        "This compositor does not implement the desktop portal for \
                         global shortcuts, so ZyntaxAI cannot register a hotkey itself.",
                        Some(
                            "Bind a key in your compositor's own settings to the command \
                             `zyntax fix`.",
                        ),
                    );
                    proof {
                        lemma_notes_view_push(notes@, n);
                    }
                    notes.push(n);
                    HotkeyBackend::ExternalCommand
                };
                assert(n1 =~= if injection is Unavailable {
                    seq![no_injection_note()]
                } else {
                    Seq::<NoteView>::empty()
                });
                Capabilities {
                    display_server: DisplayServer::Wayland,
                    can_capture_selection: env.has_wlr_data_control,
                    injection,
                    hotkey,
                    notes,
                }
            },
            DisplayServer::Unknown => {
                let mut notes = empty;
                let n = note(
                    "No graphical session detected",
                    "Neither X11 nor Wayland could be found, so hotkeys and text \
                     replacement are unavailable.",
                    None,
                );
                proof {
                    lemma_notes_view_push(notes@, n);
                }
                notes.push(n);
                assert(notes_view(notes@) =~= seq![no_session_note()]);
                Capabilities {
                    display_server: DisplayServer::Unknown,
                    can_capture_selection: false,
                    injection: InjectionBackend::Unavailable,
                    hotkey: HotkeyBackend::ExternalCommand,
                    notes,
                }
            },
        }
    }
}

/// The operating system the application runs on, as far as probing the
/// session goes.
#[derive(Debug, Clone, Copy, PartialEq, Eq, Structural)]
pub enum HostOs {
    Windows,
    MacOs,
    Linux,
    Other,
}

/// A string's characters, where there is one.
pub open spec fn opt_chars(s: Option<&str>) -> Option<Seq<char>> {
    match s {
        Some(t) => Some(t@),
        None => None,
    }
}

/// The display server of a session: fixed on Windows and macOS; elsewhere
/// named by `XDG_SESSION_TYPE` when that says `wayland` or `x11`, else
/// Wayland when `WAYLAND_DISPLAY` is set, else X11 when `DISPLAY` is set.
pub open spec fn spec_display_server_for(
    os: HostOs,
    session_type: Option<Seq<char>>,
    wayland_display_set: bool,
    display_set: bool,
) -> DisplayServer {
    match os {
        HostOs::Windows => DisplayServer::Windows,
        HostOs::MacOs => DisplayServer::MacOs,
        _ => if session_type == Some("wayland"@) {
            DisplayServer::Wayland
        } else if session_type == Some("x11"@) {
            DisplayServer::X11
        } else if wayland_display_set {
            DisplayServer::Wayland
        } else if display_set {
            DisplayServer::X11
        } else {
            DisplayServer::Unknown
        },
    }
}

/// Decides the display server from the operating system and the session's
/// variables (`session_type`: the value of `XDG_SESSION_TYPE`, where it is
/// set and readable).
pub fn display_server_for(
    os: HostOs,
    session_type: Option<&str>,
    wayland_display_set: bool,
    display_set: bool,
) -> (r: DisplayServer)
    ensures
        r == spec_display_server_for(os, opt_chars(session_type), wayland_display_set, display_set),
{
    match os {
        HostOs::Windows => {
            return DisplayServer::Windows;
        },
        HostOs::MacOs => {
            return DisplayServer::MacOs;
        },
        _ => {},
    }
    if let Some(kind) = session_type {
        if eq_str(kind, "wayland") {
            return DisplayServer::Wayland;
        }
        if eq_str(kind, "x11") {
            return DisplayServer::X11;
        }
    }
    if wayland_display_set {
        DisplayServer::Wayland
    } else if display_set {
        DisplayServer::X11
    } else {
        DisplayServer::Unknown
    }
}

/// Whether a desktop portal description offers global shortcuts.
pub fn declares_global_shortcuts(portal_file: &str) -> (b: bool)
    ensures
        b == contains(portal_file@, "GlobalShortcuts"@),
{
    str_contains(portal_file, "GlobalShortcuts")
}

/// Whether the global-shortcuts portal is installed: only on Linux, when one
/// of the portal descriptions that could be read offers it.
pub fn global_shortcuts_portal_present(os: HostOs, portal_files: &Vec<String>) -> (b: bool)
    ensures
        b == (os == HostOs::Linux && exists|i: int|
            0 <= i < portal_files@.len() && contains(#[trigger] portal_files@[i]@, "GlobalShortcuts"@)),
{
    if os != HostOs::Linux {
        return false;
    }
    let mut i: usize = 0;
    while i < portal_files.len()
        invariant
            os == HostOs::Linux,
            i <= portal_files@.len(),
            forall|j: int| 0 <= j < i ==> !contains(#[trigger] portal_files@[j]@, "GlobalShortcuts"@),
        decreases portal_files@.len() - i,
    {
        if declares_global_shortcuts(portal_files[i].as_str()) {
            assert(contains(portal_files@[i as int]@, "GlobalShortcuts"@));
            return true;
        }
        i = i + 1;
    }
    false
}

/// Whether the primary selection can be read: always on X11, never on
/// Windows, macOS or without a session, and on Wayland when probing the
/// clipboard found it reachable (`wayland_primary_reachable`).
pub fn primary_selection_is_readable(display_server: DisplayServer, wayland_primary_reachable: bool) -> (b: bool)
    ensures
        b == match display_server {
            DisplayServer::X11 => true,
            DisplayServer::Wayland => wayland_primary_reachable,
            _ => false,
        },
{
    match display_server {
        DisplayServer::X11 => true,
        DisplayServer::Windows | DisplayServer::MacOs | DisplayServer::Unknown => false,
        DisplayServer::Wayland => wayland_primary_reachable,
    }
}

/// A session is reported as degraded exactly when corrections cannot be typed
/// into other applications or the hotkey needs binding by hand; every note
/// says what is missing, and why.
pub proof fn lemma_degraded_exactly_when_something_is_missing(env: Environment)
    ensures
        ({
            let (_, inj, hotkey, notes) = expected_capabilities(env);
            &&& notes.len() > 0 <==> (inj is Unavailable || hotkey is ExternalCommand)
            &&& forall|i: int|
                0 <= i < notes.len() ==> (#[trigger] notes[i]).0 == NoteSeverity::Degraded && notes[i].1.len() > 0
                    && notes[i].2.len() > 0
        }),
{
    reveal_strlit("Accessibility permission not granted");
    reveal_strlit(
        "macOS blocks applications from reading a selection or typing \
         into other apps until you allow it. Until then ZyntaxAI can \
         only work with text you copy yourself.",
    );
    reveal_strlit("Cannot type into other applications");
    reveal_strlit(
        "Wayland does not let an application send keystrokes to another \
         window. Replace, Append and Prepend are unavailable, so \
         corrections are put on your clipboard instead.",
    );
    reveal_strlit("Global hotkey unavailable");
    reveal_strlit(
        "This compositor does not implement the desktop portal for \
         global shortcuts, so ZyntaxAI cannot register a hotkey itself.",
    );
    reveal_strlit("No graphical session detected");
    reveal_strlit(
        "Neither X11 nor Wayland could be found, so hotkeys and text \
         replacement are unavailable.",
    );
}

} // verus!
