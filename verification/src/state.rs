use vstd::prelude::*;
use crate::pipeline::{next_generation, same_settings, PipelineControl};
use crate::text::{chars_of, string_from_chars, trim, trim_chars};
use crate::types::{copy_status, is_initial_status, opt_view, DictationStatus, HotkeyUpdate, InsertionMode};

verus! {

/// The dictation session: the flags that steer the pipeline, the status the
/// shell shows, whether a model is loaded and whether the application is
/// shutting down.
#[derive(Debug)]
pub struct AppState {
    pub control: PipelineControl,
    pub status: DictationStatus,
    pub engine_loaded: bool,
    pub shutting_down: bool,
}

pub open spec fn shutting_down_message() -> Seq<char> {
    "Application is shutting down."@
}

pub open spec fn model_required_message() -> Seq<char> {
    "Load a Whisper model before starting dictation."@
}

pub open spec fn stop_before_load_message() -> Seq<char> {
    "Stop recording and continuous mode before loading another model."@
}

pub open spec fn registered_word() -> Seq<char> {
    "registered"@
}

/// Why recording cannot start, if it cannot.
pub open spec fn ready_error(s: AppState) -> Option<Seq<char>> {
    if s.shutting_down {
        Some(shutting_down_message())
    } else if !s.engine_loaded {
        Some(model_required_message())
    } else {
        None
    }
}

/// Why another model cannot be loaded, if it cannot.
pub open spec fn load_error(s: AppState) -> Option<Seq<char>> {
    if s.shutting_down {
        Some(shutting_down_message())
    } else if s.control.recording || s.control.continuous_mode {
        Some(stop_before_load_message())
    } else {
        None
    }
}

pub open spec fn err_view(r: Result<(), String>) -> Option<Seq<char>> {
    match r {
        Ok(()) => None,
        Err(e) => Some(e@),
    }
}

/// Starting to record: refused unless ready; then recording is on and the
/// last error is cleared.
pub open spec fn after_start_recording(s: AppState) -> AppState {
    if ready_error(s) is Some {
        s
    } else {
        AppState {
            control: PipelineControl { recording: true, ..s.control },
            status: DictationStatus { recording: true, last_error: None, ..s.status },
            ..s
        }
    }
}

/// Stopping recording: nothing while shutting down; otherwise recording is
/// off and the utterance is to be finalized.
pub open spec fn after_stop_recording(s: AppState) -> AppState {
    if s.shutting_down {
        s
    } else {
        AppState {
            control: PipelineControl { recording: false, finalize_requested: true, ..s.control },
            status: DictationStatus { recording: false, ..s.status },
            ..s
        }
    }
}

/// Switching continuous mode: nothing while shutting down; switching it on is
/// refused unless ready; switching it off also finalizes the utterance.
pub open spec fn after_set_continuous(s: AppState, enabled: bool) -> AppState {
    if s.shutting_down || (enabled && ready_error(s) is Some) {
        s
    } else {
        AppState {
            control: PipelineControl {
                continuous_mode: enabled,
                finalize_requested: if enabled {
                    s.control.finalize_requested
                } else {
                    true
                },
                ..s.control
            },
            status: DictationStatus { continuous_mode: enabled, ..s.status },
            ..s
        }
    }
}

impl AppState {
    /// A fresh session: the pipeline running with voice activity detection,
    /// nothing recording, no model, the initial status.
    pub fn new() -> (r: Self)
        ensures
            r.control == (PipelineControl {
                recording: false,
                continuous_mode: false,
                vad_enabled: true,
                finalize_requested: false,
                reset_requested: false,
                reset_generation: 0,
                running: true,
            }),
            is_initial_status(r.status),
            !r.engine_loaded,
            !r.shutting_down,
    {
        AppState {
            control: PipelineControl {
                recording: false,
                continuous_mode: false,
                vad_enabled: true,
                finalize_requested: false,
                reset_requested: false,
                reset_generation: 0,
                running: true,
            },
            status: DictationStatus::default(),
            engine_loaded: false,
            shutting_down: false,
        }
    }

    /// Begin shutting down: the first call stops the pipeline and unloads the
    /// model and returns true; later calls change nothing and return false.
    pub fn shutdown(&mut self) -> (started: bool)
        ensures
            started == !old(self).shutting_down,
            started ==> *final(self) == (AppState {
                control: PipelineControl { running: false, ..old(self).control },
                engine_loaded: false,
                shutting_down: true,
                ..*old(self)
            }),
            !started ==> *final(self) == *old(self),
    {
        if self.shutting_down {
            return false;
        }
        self.shutting_down = true;
        self.control.request_stop();
        self.engine_loaded = false;
        true
    }

    pub fn is_shutting_down(&self) -> (r: bool)
        ensures
            r == self.shutting_down,
    {
        self.shutting_down
    }

    /// A copy of the status.
    pub fn snapshot_status(&self) -> (r: DictationStatus)
        ensures
            r == self.status,
    {
        copy_status(&self.status)
    }

    /// Recording needs a model and an application that is not shutting down.
    pub fn ensure_ready_to_record(&self) -> (r: Result<(), String>)
        ensures
            err_view(r) == ready_error(*self),
    {
        if self.shutting_down {
            return Err(String::from_str("Application is shutting down."));
        }
        if !self.engine_loaded {
            return Err(String::from_str("Load a Whisper model before starting dictation."));
        }
        Ok(())
    }

    /// Loading a model needs recording and continuous mode off and an
    /// application that is not shutting down.
    pub fn ensure_can_load_model(&self) -> (r: Result<(), String>)
        ensures
            err_view(r) == load_error(*self),
    {
        if self.shutting_down {
            return Err(String::from_str("Application is shutting down."));
        }
        if self.control.recording || self.control.continuous_mode {
            return Err(
                String::from_str("Stop recording and continuous mode before loading another model."),
            );
        }
        Ok(())
    }

    pub fn start_recording(&mut self) -> (r: Result<(), String>)
        ensures
            err_view(r) == ready_error(*old(self)),
            *final(self) == after_start_recording(*old(self)),
    {
        self.ensure_ready_to_record()?;
        self.control.recording = true;
        self.status.recording = true;
        self.status.last_error = None;
        Ok(())
    }

    pub fn stop_recording(&mut self) -> (r: Result<(), String>)
        ensures
            r is Ok,
            *final(self) == after_stop_recording(*old(self)),
    {
        if self.shutting_down {
            return Ok(());
        }
        self.control.recording = false;
        self.control.finalize_requested = true;
        self.status.recording = false;
        Ok(())
    }

    pub fn set_continuous_mode(&mut self, enabled: bool) -> (r: Result<(), String>)
        ensures
            err_view(r) == (if !old(self).shutting_down && enabled {
                ready_error(*old(self))
            } else {
                None
            }),
            *final(self) == after_set_continuous(*old(self), enabled),
    {
        if self.shutting_down {
            return Ok(());
        }
        if enabled {
            self.ensure_ready_to_record()?;
        }
        self.control.continuous_mode = enabled;
        if !enabled {
            self.control.finalize_requested = true;
        }
        self.status.continuous_mode = enabled;
        Ok(())
    }

    pub fn set_vad_enabled(&mut self, enabled: bool)
        ensures
            old(self).shutting_down ==> *final(self) == *old(self),
            !old(self).shutting_down ==> *final(self) == (AppState {
                control: PipelineControl { vad_enabled: enabled, ..old(self).control },
                status: DictationStatus { vad_enabled: enabled, ..old(self).status },
                ..*old(self)
            }),
    {
        if self.shutting_down {
            return;
        }
        self.control.vad_enabled = enabled;
        self.status.vad_enabled = enabled;
    }

    pub fn set_insertion_mode(&mut self, mode: InsertionMode)
        ensures
            old(self).shutting_down ==> *final(self) == *old(self),
            !old(self).shutting_down ==> *final(self) == (AppState {
                status: DictationStatus { insertion_mode: mode, ..old(self).status },
                ..*old(self)
            }),
    {
        if self.shutting_down {
            return;
        }
        self.status.insertion_mode = mode;
    }

    /// Clear the transcript: the pipeline is asked to reset, the finalized
    /// and partial texts, the timings and the last error are cleared, and the
    /// new status is returned. While shutting down nothing changes.
    pub fn reset_transcript(&mut self) -> (r: DictationStatus)
        ensures
            r == final(self).status,
            old(self).shutting_down ==> *final(self) == *old(self),
            !old(self).shutting_down ==> {
                &&& final(self).control == (PipelineControl {
                    reset_generation: next_generation(old(self).control.reset_generation),
                    reset_requested: true,
                    ..old(self).control
                })
                &&& final(self).engine_loaded == old(self).engine_loaded
                &&& final(self).shutting_down == old(self).shutting_down
                &&& same_settings(final(self).status, old(self).status)
                &&& final(self).status.finalized_text@ == Seq::<char>::empty()
                &&& final(self).status.partial_text@ == Seq::<char>::empty()
                &&& final(self).status.latency_ms == 0
                &&& final(self).status.chunk_processing_ms == 0
                &&& final(self).status.last_error is None
            },
    {
        if self.shutting_down {
            return self.snapshot_status();
        }
        self.control.request_reset();
        self.status.finalized_text = String::new();
        self.status.partial_text = String::new();
        self.status.latency_ms = 0;
        self.status.chunk_processing_ms = 0;
        self.status.last_error = None;
        self.snapshot_status()
    }

    /// Record the push-to-talk key `value` once the shell has registered it
    /// (`registration` is how that went). While shutting down nothing is
    /// recorded; a failed registration is passed on.
    pub fn register_hotkey(&mut self, value: &str, registration: Result<(), String>) -> (r: Result<
        (),
        String,
    >)
        ensures
            old(self).shutting_down ==> r is Ok && *final(self) == *old(self),
            !old(self).shutting_down ==> (err_view(r) == err_view(registration)),
            !old(self).shutting_down && registration is Err ==> *final(self) == *old(self),
            !old(self).shutting_down && registration is Ok ==> {
                &&& final(self).control == old(self).control
                &&& final(self).engine_loaded == old(self).engine_loaded
                &&& final(self).shutting_down == old(self).shutting_down
                &&& opt_view(final(self).status.hotkey) == Some(value@)
                &&& final(self).status == (DictationStatus {
                    hotkey: final(self).status.hotkey,
                    ..old(self).status
                })
            },
    {
        if self.shutting_down {
            return Ok(());
        }
        registration?;
        self.status.hotkey = Some(String::from_str(value));
        Ok(())
    }

    /// Record a loaded model: the model path and normalized language are
    /// shown, the last error is cleared, and the new status is returned.
    pub fn record_model_loaded(&mut self, model_path: &str, language: &str) -> (r: DictationStatus)
        ensures
            r == final(self).status,
            final(self).engine_loaded,
            final(self).control == old(self).control,
            final(self).shutting_down == old(self).shutting_down,
            final(self).status.model_loaded,
            opt_view(final(self).status.model_path) == Some(model_path@),
            final(self).status.language@ == language@,
            final(self).status.last_error is None,
            final(self).status == (DictationStatus {
                model_loaded: true,
                model_path: final(self).status.model_path,
                language: final(self).status.language,
                last_error: None,
                ..old(self).status
            }),
    {
        self.engine_loaded = true;
        self.status.model_loaded = true;
        self.status.model_path = Some(String::from_str(model_path));
        self.status.language = String::from_str(language);
        self.status.last_error = None;
        self.snapshot_status()
    }

    /// A push-to-talk key event: pressing starts recording and releasing
    /// stops it; a refusal becomes the last error. Returns what to show and
    /// the refusal, if any.
    pub fn handle_hotkey_event(&mut self, pressed: bool) -> (r: (HotkeyUpdate, Option<String>))
        ensures
            ({
                let s1 = if pressed {
                    after_start_recording(*old(self))
                } else {
                    after_stop_recording(*old(self))
                };
                let err = if pressed {
                    ready_error(*old(self))
                } else {
                    None
                };
                &&& opt_view(r.1) == err
                &&& r.0.pressed == pressed
                &&& r.0.hotkey@ == match opt_view(old(self).status.hotkey) {
                    Some(h) => h,
                    None => registered_word(),
                }
                &&& err is None ==> *final(self) == s1
                &&& err is Some ==> {
                    &&& final(self).control == s1.control
                    &&& final(self).engine_loaded == s1.engine_loaded
                    &&& final(self).shutting_down == s1.shutting_down
                    &&& opt_view(final(self).status.last_error) == err
                    &&& final(self).status == (DictationStatus {
                        last_error: final(self).status.last_error,
                        ..s1.status
                    })
                }
            }),
    {
        let result = if pressed {
            self.start_recording()
        } else {
            self.stop_recording()
        };
        let hotkey = match &self.status.hotkey {
            Some(h) => h.clone(),
            None => String::from_str("registered"),
        };
        let error = match result {
            Ok(()) => None,
            Err(e) => {
                self.status.last_error = Some(e.clone());
                Some(e)
            },
        };
        (HotkeyUpdate { hotkey, pressed }, error)
    }
}

/// The model path asked for, trimmed, or `None` when it is empty and the
/// bundled model is to be found.
pub fn requested_model_path(model_path: &str) -> (r: Option<String>)
    ensures
        trim(model_path@).len() == 0 <==> r is None,
        r matches Some(p) ==> p@ == trim(model_path@),
{
    let t = trim_chars(&chars_of(model_path));
    if t.len() == 0 {
        None
    } else {
        Some(string_from_chars(&t))
    }
}

/// The text of the error when no model path was given and none is bundled.
pub open spec fn choose_model_message() -> Seq<char> {
    "Choose a Whisper model before loading."@
}

/// The model to load: the path asked for (see `requested_model_path`), or,
/// when none was, the bundled model found on disk; the error when there is
/// neither.
pub fn chosen_model_path(requested: Option<String>, bundled: Option<String>) -> (r: Result<String, String>)
    ensures
        r is Ok <==> (requested is Some || bundled is Some),
        r matches Ok(p) ==> p@ == match requested {
            Some(q) => q@,
            None => bundled->0@,
        },
        r matches Err(e) ==> e@ == choose_model_message(),
{
    match requested {
        Some(path) => Ok(path),
        None => match bundled {
            Some(path) => Ok(path),
            None => Err(String::from_str("Choose a Whisper model before loading.")),
        },
    }
}

/// The language asked for, `auto` when none is given.
pub fn requested_language(language: Option<String>) -> (r: String)
    ensures
        r@ == match language {
            Some(l) => l@,
            None => seq!['a', 'u', 't', 'o'],
        },
{
    match language {
        Some(l) => l,
        None => crate::types::auto_language(),
    }
}

/// Once the application is shutting down, recording and continuous mode can
/// no longer be switched: the session stays as it is.
pub proof fn lemma_shutdown_freezes_session(s: AppState, enabled: bool)
    requires
        s.shutting_down,
    ensures
        after_start_recording(s) == s,
        after_stop_recording(s) == s,
        after_set_continuous(s, enabled) == s,
        ready_error(s) == Some(shutting_down_message()),
        load_error(s) == Some(shutting_down_message()),
{
}

/// Stopping after a successful start turns recording off again, keeps the
/// last error cleared and asks for the utterance to be finalized.
pub proof fn lemma_stop_after_start(s: AppState)
    requires
        ready_error(s) is None,
    ensures
        after_start_recording(s).control.recording,
        after_start_recording(s).status.recording,
        !after_stop_recording(after_start_recording(s)).control.recording,
        !after_stop_recording(after_start_recording(s)).status.recording,
        after_stop_recording(after_start_recording(s)).control.finalize_requested,
        after_stop_recording(after_start_recording(s)).status.last_error is None,
{
}

/// Recording cannot start without a model, and another model cannot be
/// loaded while recording or in continuous mode.
pub proof fn lemma_model_rules(s: AppState)
    ensures
        !s.shutting_down && !s.engine_loaded ==> ready_error(s) == Some(model_required_message()),
        !s.shutting_down && (s.control.recording || s.control.continuous_mode) ==> load_error(s)
            == Some(stop_before_load_message()),
{
}

/// Switching continuous mode, when not refused, sets the pipeline's flag and
/// the status shown alike. Switched off, the session takes audio only while
/// recording and the utterance is finalized; switching it on and then off
/// leaves it off.
pub proof fn lemma_continuous_switch(s: AppState, enabled: bool)
    requires
        !s.shutting_down,
        !(enabled && ready_error(s) is Some),
    ensures
        after_set_continuous(s, enabled).control.continuous_mode == enabled,
        after_set_continuous(s, enabled).status.continuous_mode == enabled,
        !enabled ==> {
            let t = after_set_continuous(s, enabled);
            &&& (t.control.recording || t.control.continuous_mode) == s.control.recording
            &&& t.control.finalize_requested
        },
        !after_set_continuous(after_set_continuous(s, true), false).control.continuous_mode,
        !after_set_continuous(after_set_continuous(s, true), false).status.continuous_mode,
{
}


} // verus!
