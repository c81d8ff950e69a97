use vstd::prelude::*;

verus! {

/// Audio is captured and transcribed at 16 kHz.
pub const SAMPLE_RATE: u32 = 16_000;

/// Length of one capture frame in milliseconds.
pub const FRAME_MS: u32 = 20;

/// Samples in one capture frame: `SAMPLE_RATE * FRAME_MS / 1000`.
pub const FRAME_SAMPLES: usize = 320;

pub proof fn lemma_frame_samples()
    ensures
        FRAME_SAMPLES == SAMPLE_RATE * FRAME_MS / 1000,
{
}

/// How committed text reaches the focused application.
#[derive(Debug, Clone, Copy, PartialEq, Eq, Structural)]
pub enum InsertionMode {
    Off,
    IncrementalTyping,
    FinalPaste,
}

impl Default for InsertionMode {
    fn default() -> (r: Self)
        ensures
            r == InsertionMode::FinalPaste,
    {
        InsertionMode::FinalPaste
    }
}

/// Everything the shell shows about the dictation session.
#[derive(Debug, Clone)]
pub struct DictationStatus {
    pub recording: bool,
    pub continuous_mode: bool,
    pub vad_enabled: bool,
    pub model_loaded: bool,
    pub language: String,
    pub model_path: Option<String>,
    pub hotkey: Option<String>,
    pub insertion_mode: InsertionMode,
    pub finalized_text: String,
    pub partial_text: String,
    pub latency_ms: u64,
    pub chunk_processing_ms: u64,
    pub last_error: Option<String>,
}

pub open spec fn opt_view(o: Option<String>) -> Option<Seq<char>> {
    match o {
        Some(s) => Some(s@),
        None => None,
    }
}

/// The status of a session that has not started anything: voice activity
/// detection on, automatic language, final paste, no model, no text.
pub open spec fn is_initial_status(d: DictationStatus) -> bool {
    &&& !d.recording
    &&& !d.continuous_mode
    &&& d.vad_enabled
    &&& !d.model_loaded
    &&& d.language@ == seq!['a', 'u', 't', 'o']
    &&& d.model_path is None
    &&& d.hotkey is None
    &&& d.insertion_mode == InsertionMode::FinalPaste
    &&& d.finalized_text@ == Seq::<char>::empty()
    &&& d.partial_text@ == Seq::<char>::empty()
    &&& d.latency_ms == 0
    &&& d.chunk_processing_ms == 0
    &&& d.last_error is None
}

/// The word `auto`, which stands for automatic language detection.
pub fn auto_language() -> (r: String)
    ensures
        r@ == seq!['a', 'u', 't', 'o'],
{
    let s = "auto";
    proof {
        reveal_strlit("auto");
    }
    String::from_str(s)
}

impl Default for DictationStatus {
    fn default() -> (r: Self)
        ensures
            is_initial_status(r),
    {
        DictationStatus {
            recording: false,
            continuous_mode: false,
            vad_enabled: true,
            model_loaded: false,
            language: auto_language(),
            model_path: None,
            hotkey: None,
            insertion_mode: InsertionMode::FinalPaste,
            finalized_text: String::new(),
            partial_text: String::new(),
            latency_ms: 0,
            chunk_processing_ms: 0,
            last_error: None,
        }
    }
}

/// What the shell is told after each applied transcription.
#[derive(Debug, Clone)]
pub struct TranscriptionUpdate {
    pub text: String,
    pub finalized_text: String,
    pub partial_text: String,
    pub is_final: bool,
    pub speech_active: bool,
    pub window_start_ms: u64,
    pub window_end_ms: u64,
    pub latency_ms: u64,
    pub chunk_processing_ms: u64,
}

/// What the shell is told after each push-to-talk key event.
#[derive(Debug, Clone)]
pub struct HotkeyUpdate {
    pub hotkey: String,
    pub pressed: bool,
}

fn copy_opt_string(o: &Option<String>) -> (r: Option<String>)
    ensures
        r == *o,
{
    match o {
        Some(s) => Some(s.clone()),
        None => None,
    }
}

/// A copy of the status.
pub fn copy_status(s: &DictationStatus) -> (r: DictationStatus)
    ensures
        r == *s,
{
    DictationStatus {
        recording: s.recording,
        continuous_mode: s.continuous_mode,
        vad_enabled: s.vad_enabled,
        model_loaded: s.model_loaded,
        language: s.language.clone(),
        model_path: copy_opt_string(&s.model_path),
        hotkey: copy_opt_string(&s.hotkey),
        insertion_mode: s.insertion_mode,
        finalized_text: s.finalized_text.clone(),
        partial_text: s.partial_text.clone(),
        latency_ms: s.latency_ms,
        chunk_processing_ms: s.chunk_processing_ms,
        last_error: copy_opt_string(&s.last_error),
    }
}

} // verus!
