use whispering::state::{chosen_model_path, requested_language, requested_model_path, AppState};
use whispering::types::InsertionMode;

#[test]
fn test_snapshot_status() {
    let state = AppState::new();
    let status = state.snapshot_status();
    assert_eq!(status.recording, false);
    assert_eq!(status.continuous_mode, false);
    assert_eq!(status.model_loaded, false);
    assert!(status.vad_enabled);
    assert_eq!(status.language, "auto");
    assert_eq!(status.insertion_mode, InsertionMode::FinalPaste);
    assert!(state.control.running);
    assert!(state.control.vad_enabled);
}

#[test]
fn test_start_recording_without_model() {
    let mut state = AppState::new();
    let result = state.start_recording();
    assert!(result.is_err());
    assert_eq!(result.err().unwrap(), "Load a Whisper model before starting dictation.".to_string());
    assert!(!state.control.recording);
}

#[test]
fn test_load_model_while_recording_fails() {
    let mut state = AppState::new();
    state.control.recording = true;
    let result = state.ensure_can_load_model();
    assert!(result.is_err());
    assert_eq!(
        result.err().unwrap(),
        "Stop recording and continuous mode before loading another model.".to_string()
    );
}

#[test]
fn recording_after_loading_a_model() {
    let mut state = AppState::new();
    let status = state.record_model_loaded("/models/m.bin", "en");
    assert!(status.model_loaded);
    assert_eq!(status.model_path, Some("/models/m.bin".to_string()));
    assert_eq!(status.language, "en");
    assert!(state.ensure_ready_to_record().is_ok());
    state.status.last_error = Some("stale".to_string());
    assert!(state.start_recording().is_ok());
    assert!(state.control.recording && state.status.recording);
    assert_eq!(state.status.last_error, None);
    assert!(state.stop_recording().is_ok());
    assert!(!state.control.recording && !state.status.recording);
    assert!(state.control.finalize_requested);
}

#[test]
fn continuous_mode_needs_a_model_to_start() {
    let mut state = AppState::new();
    assert_eq!(
        state.set_continuous_mode(true),
        Err("Load a Whisper model before starting dictation.".to_string())
    );
    assert!(!state.control.continuous_mode);
    assert_eq!(state.set_continuous_mode(false), Ok(()));
    assert!(state.control.finalize_requested);
    state.record_model_loaded("m", "auto");
    assert_eq!(state.set_continuous_mode(true), Ok(()));
    assert!(state.status.continuous_mode);
}

#[test]
fn shutdown_happens_once_and_freezes_the_session() {
    let mut state = AppState::new();
    state.record_model_loaded("m", "auto");
    assert!(state.shutdown());
    assert!(!state.control.running);
    assert!(!state.engine_loaded);
    assert!(!state.shutdown());
    assert_eq!(state.start_recording(), Err("Application is shutting down.".to_string()));
    assert_eq!(state.stop_recording(), Ok(()));
    assert!(!state.control.finalize_requested);
    state.set_vad_enabled(false);
    assert!(state.control.vad_enabled);
    state.set_insertion_mode(InsertionMode::Off);
    assert_eq!(state.status.insertion_mode, InsertionMode::FinalPaste);
    assert_eq!(state.ensure_can_load_model(), Err("Application is shutting down.".to_string()));
}

#[test]
fn reset_transcript_clears_text_and_asks_for_reset() {
    let mut state = AppState::new();
    state.status.finalized_text = "done".to_string();
    state.status.partial_text = "part".to_string();
    state.status.latency_ms = 9;
    state.status.last_error = Some("e".to_string());
    let status = state.reset_transcript();
    assert_eq!(status.finalized_text, "");
    assert_eq!(status.partial_text, "");
    assert_eq!(status.latency_ms, 0);
    assert_eq!(status.last_error, None);
    assert_eq!(state.control.reset_generation, 1);
    assert!(state.control.reset_requested);
}

#[test]
fn settings_are_recorded() {
    let mut state = AppState::new();
    state.set_vad_enabled(false);
    assert!(!state.control.vad_enabled && !state.status.vad_enabled);
    state.set_insertion_mode(InsertionMode::IncrementalTyping);
    assert_eq!(state.status.insertion_mode, InsertionMode::IncrementalTyping);
}

#[test]
fn hotkey_registration_is_recorded_only_when_it_worked() {
    let mut state = AppState::new();
    assert_eq!(state.register_hotkey("ctrl+a", Err("taken".to_string())), Err("taken".to_string()));
    assert_eq!(state.status.hotkey, None);
    assert_eq!(state.register_hotkey("control+shift+Space", Ok(())), Ok(()));
    assert_eq!(state.status.hotkey, Some("control+shift+Space".to_string()));
}

#[test]
fn hotkey_events_start_and_stop_recording() {
    let mut state = AppState::new();
    let (update, error) = state.handle_hotkey_event(true);
    assert_eq!(update.hotkey, "registered");
    assert!(update.pressed);
    assert_eq!(error, Some("Load a Whisper model before starting dictation.".to_string()));
    assert_eq!(state.status.last_error, error);
    state.record_model_loaded("m", "auto");
    state.register_hotkey("F5", Ok(())).unwrap();
    let (update, error) = state.handle_hotkey_event(true);
    assert_eq!(update.hotkey, "F5");
    assert_eq!(error, None);
    assert!(state.control.recording);
    let (update, error) = state.handle_hotkey_event(false);
    assert!(!update.pressed);
    assert_eq!(error, None);
    assert!(!state.control.recording);
}

#[test]
fn requested_model_and_language() {
    assert_eq!(requested_model_path("  /a/b.bin \n"), Some("/a/b.bin".to_string()));
    assert_eq!(requested_model_path("   "), None);
    assert_eq!(requested_language(None), "auto");
    assert_eq!(requested_language(Some("de".to_string())), "de");
}

#[test]
fn chosen_model_path_prefers_the_request() {
    assert_eq!(
        chosen_model_path(Some("/a.bin".to_string()), Some("/b.bin".to_string())),
        Ok("/a.bin".to_string())
    );
    assert_eq!(chosen_model_path(None, Some("/b.bin".to_string())), Ok("/b.bin".to_string()));
    assert_eq!(
        chosen_model_path(None, None),
        Err("Choose a Whisper model before loading.".to_string())
    );
}
