use whispering::hotkey::{hotkey_to_register, register_failure_message};

#[test]
fn hotkeys_parse_when_the_manager_is_available() {
    let hotkey = hotkey_to_register(true, "control+shift+Space").unwrap();
    let again = hotkey_to_register(true, "Control+Shift+Space").unwrap();
    assert_eq!(hotkey.id(), again.id());
    assert_ne!(hotkey.id(), hotkey_to_register(true, "shift+Space").unwrap().id());
}

#[test]
fn unavailable_manager_refuses_every_hotkey() {
    let error = hotkey_to_register(false, "control+shift+Space").unwrap_err();
    assert_eq!(
        error,
        "Global hotkeys are unavailable. Grant Accessibility permission to NoDaysIdle Whispering in macOS System Settings, then restart the app."
    );
}

#[test]
fn invalid_hotkeys_report_the_parse_error() {
    let error = hotkey_to_register(true, "Ctrl+Shift").unwrap_err();
    assert!(error.starts_with("Invalid hotkey \"Ctrl+Shift\": "));
    assert!(error.len() > "Invalid hotkey \"Ctrl+Shift\": ".len());
    let error = hotkey_to_register(true, "Ctrl++A").unwrap_err();
    assert!(error.starts_with("Invalid hotkey \"Ctrl++A\": "));
}

#[test]
fn registration_failure_message() {
    assert_eq!(register_failure_message("F5", "taken"), "Could not register hotkey F5: taken");
}
