use whispering::whisper::{
    check_transcribe_input, corrected_ggml_file_name, default_thread_count, engine_missing_error,
    model_not_found_message, resolve_model_path,
    normalize_language, output_from_segments, thread_count_for, RawSegment, DEFAULT_MODEL_FILENAME,
};

#[test]
fn languages_are_normalized() {
    assert_eq!(normalize_language("  EN-us "), "en");
    assert_eq!(normalize_language("pt_BR"), "pt");
    assert_eq!(normalize_language(""), "auto");
    assert_eq!(normalize_language(" AUTO "), "auto");
    assert_eq!(normalize_language("De"), "de");
    assert_eq!(normalize_language("-x"), "");
}

#[test]
fn thread_count_is_kept_between_two_and_six() {
    assert_eq!(thread_count_for(0), 2);
    assert_eq!(thread_count_for(1), 2);
    assert_eq!(thread_count_for(4), 4);
    assert_eq!(thread_count_for(64), 6);
    let n = default_thread_count();
    assert!((2..=6).contains(&n));
}

#[test]
fn short_audio_is_not_transcribed() {
    assert_eq!(
        check_transcribe_input(7999),
        Err("Skipping inference until at least 500ms of audio is buffered.".to_string())
    );
    assert_eq!(check_transcribe_input(8000), Ok(()));
}

#[test]
fn segments_become_a_transcription() {
    let raw = vec![
        RawSegment { text: "  Hello ".to_string(), start_timestamp: -3, end_timestamp: 50 },
        RawSegment { text: "   ".to_string(), start_timestamp: 50, end_timestamp: 60 },
        RawSegment { text: "world.".to_string(), start_timestamp: 60, end_timestamp: 120 },
    ];
    let out = output_from_segments(&raw, 42);
    assert_eq!(out.text, "Hello world.");
    assert_eq!(out.segments.len(), 2);
    assert_eq!(out.segments[0].text, "Hello");
    assert_eq!(out.segments[0].start_ms, 0);
    assert_eq!(out.segments[0].end_ms, 500);
    assert_eq!(out.segments[1].start_ms, 600);
    assert_eq!(out.segments[1].end_ms, 1200);
    assert_eq!(out.processing_ms, 42);
}

#[test]
fn gglm_typo_is_corrected() {
    assert_eq!(corrected_ggml_file_name("gglm-base.en-q5_1.bin"), Some(DEFAULT_MODEL_FILENAME.to_string()));
    assert_eq!(corrected_ggml_file_name("ggml-base.bin"), None);
    assert_eq!(corrected_ggml_file_name("gglm"), None);
}

#[test]
fn missing_model_message() {
    assert_eq!(model_not_found_message("/x/m.bin"), "Whisper model was not found at /x/m.bin.");
}

#[test]
fn model_path_resolution_prefers_the_given_file() {
    assert_eq!(resolve_model_path("  /m/ggml-a.bin ", true, None), Ok("/m/ggml-a.bin".to_string()));
    assert_eq!(
        resolve_model_path("/m/gglm-a.bin", true, Some(("/m/ggml-a.bin".to_string(), true))),
        Ok("/m/gglm-a.bin".to_string())
    );
}

#[test]
fn model_path_resolution_falls_back_to_the_corrected_name() {
    assert_eq!(
        resolve_model_path(" /m/gglm-a.bin", false, Some(("/m/ggml-a.bin".to_string(), true))),
        Ok("/m/ggml-a.bin".to_string())
    );
}

#[test]
fn model_path_resolution_reports_the_trimmed_path() {
    assert_eq!(
        resolve_model_path(" /m/gglm-a.bin ", false, Some(("/m/ggml-a.bin".to_string(), false))),
        Err("Whisper model was not found at /m/gglm-a.bin.".to_string())
    );
    assert_eq!(
        resolve_model_path("/m/x.bin", false, None),
        Err("Whisper model was not found at /m/x.bin.".to_string())
    );
}

#[test]
fn missing_engine_error_text() {
    assert_eq!(engine_missing_error(), "Load a whisper.cpp model before starting dictation.");
}
