use zyntax::capabilities::{
    display_server_for, global_shortcuts_portal_present, HostOs, primary_selection_is_readable, Capabilities, DisplayServer, Environment, HotkeyBackend,
    InjectionBackend, NoteSeverity,
};
use zyntax::fix::InputSource;
use zyntax::platform::{
    captured, reads_primary_selection, helper_exited, helper_spawn_failed, helper_timed_out, helper_wait_failed, key_code, letter,
    send_chord, Chord, ClipboardError, PlatformError, KEY_C, KEY_V,
};

#[test]
fn windows_is_fully_capable() {
    let caps = Capabilities::from_environment(&Environment::for_test(DisplayServer::Windows));
    assert!(caps.can_capture_selection);
    assert!(caps.can_replace_in_place());
    assert_eq!(caps.hotkey, HotkeyBackend::Os);
    assert!(!caps.is_degraded());
}

#[test]
fn x11_is_fully_capable() {
    let caps = Capabilities::from_environment(&Environment::for_test(DisplayServer::X11));
    assert!(caps.can_capture_selection);
    assert_eq!(caps.injection, InjectionBackend::Native);
    assert!(!caps.is_degraded());
}

#[test]
fn bare_wayland_degrades_to_clipboard_only_and_says_so() {
    let caps = Capabilities::from_environment(&Environment::for_test(DisplayServer::Wayland));

    assert!(!caps.can_replace_in_place());
    assert_eq!(caps.injection, InjectionBackend::Unavailable);
    assert!(caps.is_degraded());

    let note = caps
        .notes
        .iter()
        .find(|n| n.title.contains("type into"))
        .expect("the user must be told why replace is unavailable");

    assert!(note.remedy.as_ref().is_some_and(|r| r.contains("wtype")));
}

#[test]
fn wayland_with_wtype_can_inject() {
    let env = Environment {
        has_wtype: true,
        has_global_shortcuts_portal: true,
        has_wlr_data_control: true,
        ..Environment::for_test(DisplayServer::Wayland)
    };
    let caps = Capabilities::from_environment(&env);

    assert_eq!(caps.injection, InjectionBackend::Wtype);
    assert!(caps.can_replace_in_place());
    assert_eq!(caps.hotkey, HotkeyBackend::Portal);
    assert!(!caps.is_degraded());
}

#[test]
fn wtype_is_preferred_over_ydotool() {
    let env = Environment {
        has_wtype: true,
        has_ydotool: true,
        ..Environment::for_test(DisplayServer::Wayland)
    };

    assert_eq!(
        Capabilities::from_environment(&env).injection,
        InjectionBackend::Wtype
    );
}

#[test]
fn ydotool_is_used_when_wtype_is_missing() {
    let env = Environment {
        has_ydotool: true,
        ..Environment::for_test(DisplayServer::Wayland)
    };
    assert_eq!(
        Capabilities::from_environment(&env).injection,
        InjectionBackend::Ydotool
    );
}

#[test]
fn wayland_without_a_portal_falls_back_to_an_external_binding() {
    let env = Environment {
        has_wtype: true,
        has_global_shortcuts_portal: false,
        ..Environment::for_test(DisplayServer::Wayland)
    };
    let caps = Capabilities::from_environment(&env);

    assert_eq!(caps.hotkey, HotkeyBackend::ExternalCommand);
    let note = caps
        .notes
        .iter()
        .find(|n| n.title.contains("hotkey"))
        .expect("must explain the missing hotkey");
    assert!(note
        .remedy
        .as_ref()
        .is_some_and(|r| r.contains("zyntax fix")));
}

#[test]
fn wayland_without_data_control_cannot_read_the_selection() {
    let env = Environment {
        has_wlr_data_control: false,
        ..Environment::for_test(DisplayServer::Wayland)
    };
    assert!(!Capabilities::from_environment(&env).can_capture_selection);
}

#[test]
fn macos_without_permission_is_degraded_with_the_exact_steps() {
    let env = Environment {
        macos_accessibility_granted: false,
        ..Environment::for_test(DisplayServer::MacOs)
    };
    let caps = Capabilities::from_environment(&env);

    assert!(!caps.can_replace_in_place());
    assert!(caps.is_degraded());
    assert!(caps.notes[0]
        .remedy
        .as_ref()
        .is_some_and(|r| r.contains("Accessibility")));
}

#[test]
fn macos_with_permission_is_fully_capable() {
    let caps = Capabilities::from_environment(&Environment::for_test(DisplayServer::MacOs));
    assert!(caps.can_replace_in_place());
    assert!(!caps.is_degraded());
}

#[test]
fn a_headless_session_is_degraded_rather_than_pretending_to_work() {
    let caps = Capabilities::from_environment(&Environment::for_test(DisplayServer::Unknown));
    assert!(!caps.can_capture_selection);
    assert!(!caps.can_replace_in_place());
    assert!(caps.is_degraded());
}

#[test]
fn every_degraded_note_has_a_title_and_detail() {
    for server in [
        DisplayServer::Windows,
        DisplayServer::MacOs,
        DisplayServer::X11,
        DisplayServer::Wayland,
        DisplayServer::Unknown,
    ] {
        let caps = Capabilities::from_environment(&Environment::for_test(server));
        for note in &caps.notes {
            assert!(!note.title.is_empty(), "{server:?}");
            assert!(!note.detail.is_empty(), "{server:?}");
        }
    }
}

#[test]
fn degraded_exactly_when_typing_or_the_hotkey_is_missing() {
    for server in [
        DisplayServer::Windows,
        DisplayServer::MacOs,
        DisplayServer::X11,
        DisplayServer::Wayland,
        DisplayServer::Unknown,
    ] {
        for bits in 0u8..32 {
            let env = Environment {
                has_wtype: bits & 1 != 0,
                has_ydotool: bits & 2 != 0,
                has_global_shortcuts_portal: bits & 4 != 0,
                has_wlr_data_control: bits & 8 != 0,
                macos_accessibility_granted: bits & 16 != 0,
                ..Environment::for_test(server)
            };
            let caps = Capabilities::from_environment(&env);
            let missing = caps.injection == InjectionBackend::Unavailable
                || caps.hotkey == HotkeyBackend::ExternalCommand;
            assert_eq!(caps.is_degraded(), missing, "{env:?}");
            assert!(caps.notes.iter().all(|n| n.severity == NoteSeverity::Degraded));
        }
    }
}

#[test]
fn a_copy_of_the_capabilities_keeps_its_notes() {
    let caps = Capabilities::from_environment(&Environment::for_test(DisplayServer::Unknown));
    let copy = caps.clone();
    assert_eq!(copy.notes.len(), caps.notes.len());
    assert_eq!(copy.notes[0].title, "No graphical session detected");
    assert_eq!(copy.injection, InjectionBackend::Unavailable);
}

#[test]
fn primary_selection_availability_is_decided_per_platform() {
    assert!(primary_selection_is_readable(DisplayServer::X11, false));

    assert!(!primary_selection_is_readable(DisplayServer::Windows, false));
    assert!(!primary_selection_is_readable(DisplayServer::MacOs, false));
    assert!(!primary_selection_is_readable(DisplayServer::Unknown, false));
}

#[test]
fn wayland_primary_selection_follows_the_probe() {
    assert!(primary_selection_is_readable(DisplayServer::Wayland, true));
    assert!(!primary_selection_is_readable(DisplayServer::Wayland, false));
    assert!(!primary_selection_is_readable(DisplayServer::Windows, true));
}

#[test]
fn chords_map_to_the_right_keys() {
    assert_eq!(letter(Chord::Copy), "c");
    assert_eq!(letter(Chord::Paste), "v");
    assert_eq!(key_code(Chord::Copy), KEY_C);
    assert_eq!(key_code(Chord::Paste), KEY_V);
}

#[test]
fn no_backend_reports_unavailable_rather_than_trying() {
    assert!(matches!(
        send_chord(InjectionBackend::Unavailable, Chord::Paste),
        Err(PlatformError::InjectionUnavailable)
    ));
}

#[test]
fn native_is_not_routed_through_the_helpers() {
    assert!(matches!(
        send_chord(InjectionBackend::Native, Chord::Paste),
        Err(PlatformError::Injection(_))
    ));
}

#[test]
fn wtype_gets_the_letter_under_control() {
    let command = send_chord(InjectionBackend::Wtype, Chord::Paste).expect("wtype runs");
    assert_eq!(command.program, "wtype");
    assert_eq!(command.args, vec!["-M", "ctrl", "-k", "v", "-m", "ctrl"]);
}

#[test]
fn ydotool_presses_and_releases_in_order() {
    let command = send_chord(InjectionBackend::Ydotool, Chord::Copy).expect("ydotool runs");
    assert_eq!(command.program, "ydotool");
    assert_eq!(command.args, vec!["key", "29:1", "46:1", "46:0", "29:0"]);
    let paste = send_chord(InjectionBackend::Ydotool, Chord::Paste).expect("ydotool runs");
    assert_eq!(paste.args, vec!["key", "29:1", "47:1", "47:0", "29:0"]);
}

#[test]
fn a_missing_helper_explains_itself() {
    let error = helper_spawn_failed("zyntax-definitely-not-a-real-binary", "No such file or directory");
    let message = error.message();
    assert!(message.contains("Copy to clipboard"), "got: {message}");
}

#[test]
fn helper_failures_name_the_helper() {
    assert_eq!(
        helper_exited("wtype", "exit status: 1", "  compositor refused\n").message(),
        "could not send keystrokes: wtype exited with exit status: 1: compositor refused"
    );
    assert!(helper_timed_out("ydotool").message().contains("did not respond"));
    assert_eq!(
        helper_wait_failed("wtype", "interrupted").message(),
        "could not send keystrokes: could not wait for wtype: interrupted"
    );
}

#[test]
fn platform_errors_read_as_sentences() {
    assert_eq!(PlatformError::NothingToCorrect.message(), "there is no text to correct");
    assert_eq!(
        PlatformError::Clipboard(ClipboardError::NotText).message(),
        "the clipboard does not contain text"
    );
    assert_eq!(
        PlatformError::Clipboard(ClipboardError::Unavailable("gone".to_owned())).message(),
        "could not reach the system clipboard: gone"
    );
}

#[test]
fn the_session_type_names_the_display_server() {
    assert_eq!(display_server_for(HostOs::Linux, Some("wayland"), false, true), DisplayServer::Wayland);
    assert_eq!(display_server_for(HostOs::Linux, Some("x11"), true, false), DisplayServer::X11);
}

#[test]
fn without_a_session_type_the_display_variables_decide() {
    assert_eq!(display_server_for(HostOs::Linux, Some("tty"), true, true), DisplayServer::Wayland);
    assert_eq!(display_server_for(HostOs::Linux, None, false, true), DisplayServer::X11);
    assert_eq!(display_server_for(HostOs::Other, None, false, false), DisplayServer::Unknown);
}

#[test]
fn windows_and_macos_ignore_the_session_variables() {
    assert_eq!(display_server_for(HostOs::Windows, Some("wayland"), true, true), DisplayServer::Windows);
    assert_eq!(display_server_for(HostOs::MacOs, Some("x11"), false, true), DisplayServer::MacOs);
}

#[test]
fn a_portal_offering_global_shortcuts_is_found_on_linux_only() {
    let files = vec![
        "[portal]\nInterfaces=org.freedesktop.impl.portal.FileChooser\n".to_owned(),
        "[portal]\nInterfaces=org.freedesktop.impl.portal.GlobalShortcuts;\n".to_owned(),
    ];
    assert!(global_shortcuts_portal_present(HostOs::Linux, &files));
    assert!(!global_shortcuts_portal_present(HostOs::Other, &files));
    assert!(!global_shortcuts_portal_present(HostOs::Linux, &files[..1].to_vec()));
    assert!(!global_shortcuts_portal_present(HostOs::Linux, &Vec::new()));
}

#[test]
fn the_selection_is_read_only_where_the_session_has_one() {
    assert!(reads_primary_selection(InputSource::Selection, DisplayServer::X11));
    assert!(reads_primary_selection(InputSource::Selection, DisplayServer::Wayland));
    assert!(!reads_primary_selection(InputSource::Selection, DisplayServer::Windows));
    assert!(!reads_primary_selection(InputSource::Clipboard, DisplayServer::X11));
}

#[test]
fn blank_or_non_text_captures_leave_nothing_to_correct() {
    assert_eq!(captured(Ok("  teh cat ".to_owned())).ok().as_deref(), Some("  teh cat "));
    assert!(matches!(captured(Ok(" \n\t".to_owned())), Err(PlatformError::NothingToCorrect)));
    assert!(matches!(captured(Err(ClipboardError::NotText)), Err(PlatformError::NothingToCorrect)));
    match captured(Err(ClipboardError::Unavailable("no seat".to_owned()))) {
        Err(PlatformError::Clipboard(ClipboardError::Unavailable(detail))) => assert_eq!(detail, "no seat"),
        other => panic!("expected an unreachable clipboard, got {other:?}"),
    }
}
