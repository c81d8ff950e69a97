use vstd::prelude::*;
use crate::buffer::{lemma_push_all_ok, push_all, slice_of, state_ok, BufferState, RollingBuffer};
use crate::input::{plan_for, InsertionPlan, PlanView, TextInserter};
use crate::text::{
    clean, clean_text, lemma_trim_empty, lemma_trim_last, lemma_words_nonempty_when_last_is_word, lemma_words_trim, trim,
    words,
};
use crate::transcript::{
    append_with_overlap, appended, lemma_appended_extends_target, lemma_appended_words, overlap, segment_times_fit, split_committed, split_committed_and_partial,
    split_partial, split_until,
};
use crate::types::{opt_view, DictationStatus, InsertionMode, TranscriptionUpdate};
use crate::whisper::WhisperOutput;

verus! {

/// Seconds of audio the pipeline keeps.
pub const ROLLING_SECONDS: usize = 10;

/// Samples the pipeline keeps: `ROLLING_SECONDS * SAMPLE_RATE`.
pub const ROLLING_CAPACITY: usize = 160_000;

/// Seconds of audio one transcription looks at, at most.
pub const WINDOW_SECONDS: u64 = 6;

/// Samples one transcription looks at, at most: `WINDOW_SECONDS * SAMPLE_RATE`.
pub const WINDOW_SAMPLES: u64 = 96_000;

/// Audio kept from before speech was first detected.
pub const PRE_ROLL_MS: u64 = 240;

/// Time between two interim transcriptions.
pub const INFER_INTERVAL_MS: u64 = 500;

/// Silence after which the utterance is finalized.
pub const SILENCE_FINALIZE_MS: u64 = 900;

/// Speech needed before the first interim transcription.
pub const MIN_INFERENCE_MS: u64 = 600;

/// The end of an interim window that is not yet taken as stable.
pub const STABLE_OVERLAP_MS: u64 = 1_200;

/// Fewest samples worth transcribing: half a second.
pub const MIN_JOB_SAMPLES: usize = 8_000;

/// Largest absolute sample index whose time in milliseconds fits a `u64`.
pub const MAX_STREAM_SAMPLES: u64 = 18_446_744_073_709_551;

/// How the constants above derive from the sample rate and the `u64` range.
pub proof fn lemma_pipeline_constants()
    ensures
        ROLLING_CAPACITY == ROLLING_SECONDS * crate::types::SAMPLE_RATE,
        WINDOW_SAMPLES == WINDOW_SECONDS * crate::types::SAMPLE_RATE,
        MIN_JOB_SAMPLES == crate::types::SAMPLE_RATE / 2,
        MAX_STREAM_SAMPLES == u64::MAX / 1000,
{
}

// ---------------------------------------------------------------------------
// Control flags
// ---------------------------------------------------------------------------

/// The flags through which the session steers the pipeline.
#[derive(Debug, Clone, Copy)]
pub struct PipelineControl {
    pub recording: bool,
    pub continuous_mode: bool,
    pub vad_enabled: bool,
    pub finalize_requested: bool,
    pub reset_requested: bool,
    pub reset_generation: u64,
    pub running: bool,
}

impl Default for PipelineControl {
    fn default() -> (r: Self)
        ensures
            !r.recording,
            !r.continuous_mode,
            !r.vad_enabled,
            !r.finalize_requested,
            !r.reset_requested,
            r.reset_generation == 0,
            !r.running,
    {
        PipelineControl {
            recording: false,
            continuous_mode: false,
            vad_enabled: false,
            finalize_requested: false,
            reset_requested: false,
            reset_generation: 0,
            running: false,
        }
    }
}

/// The generation after `g`, wrapping at the end of the `u64` range.
pub open spec fn next_generation(g: u64) -> u64 {
    if g == u64::MAX {
        0
    } else {
        (g + 1) as u64
    }
}

impl PipelineControl {
    /// Ask the pipeline to stop.
    pub fn request_stop(&mut self)
        ensures
            *final(self) == (PipelineControl { running: false, ..*old(self) }),
    {
        self.running = false;
    }

    /// Ask the pipeline to drop its state and every transcription still under
    /// way; results of earlier generations are ignored from then on.
    pub fn request_reset(&mut self)
        ensures
            *final(self) == (PipelineControl {
                reset_generation: next_generation(old(self).reset_generation),
                reset_requested: true,
                ..*old(self)
            }),
    {
        self.reset_generation = if self.reset_generation == u64::MAX {
            0
        } else {
            self.reset_generation + 1
        };
        self.reset_requested = true;
    }

    pub fn is_running(&self) -> (r: bool)
        ensures
            r == self.running,
    {
        self.running
    }

    /// Whether a reset was asked for; the request is taken.
    pub fn take_reset_request(&mut self) -> (r: bool)
        ensures
            r == old(self).reset_requested,
            *final(self) == (PipelineControl { reset_requested: false, ..*old(self) }),
    {
        let r = self.reset_requested;
        self.reset_requested = false;
        r
    }

    /// Whether finalization was asked for; the request is taken.
    pub fn take_finalize_request(&mut self) -> (r: bool)
        ensures
            r == old(self).finalize_requested,
            *final(self) == (PipelineControl { finalize_requested: false, ..*old(self) }),
    {
        let r = self.finalize_requested;
        self.finalize_requested = false;
        r
    }

    /// Audio is taken in while recording or in continuous mode.
    pub fn is_active(&self) -> (r: bool)
        ensures
            r == (self.recording || self.continuous_mode),
    {
        self.recording || self.continuous_mode
    }
}

// ---------------------------------------------------------------------------
// Time
// ---------------------------------------------------------------------------

/// Samples in `ms` milliseconds at 16 kHz, rounded down.
pub open spec fn samples_of_ms(ms: int) -> int {
    ms * 16000 / 1000
}

/// Milliseconds spanned by `samples` samples at 16 kHz, rounded down.
pub open spec fn ms_of_samples(samples: int) -> int {
    samples * 1000 / 16000
}

pub fn ms_to_samples(ms: u64) -> (r: u64)
    requires
        ms * 16000 <= u64::MAX,
    ensures
        r == samples_of_ms(ms as int),
{
    (ms * 16000) / 1_000
}

pub fn samples_to_ms(samples: u64) -> (r: u64)
    requires
        samples * 1000 <= u64::MAX,
    ensures
        r == ms_of_samples(samples as int),
{
    (samples * 1_000) / 16000
}

// ---------------------------------------------------------------------------
// Transcription jobs
// ---------------------------------------------------------------------------

/// Audio handed to the transcription worker, with the absolute sample
/// indices it spans and the reset generation it belongs to.
#[derive(Debug)]
pub struct InferenceJob<T> {
    pub generation: u64,
    pub samples: Vec<T>,
    pub window_start_sample: u64,
    pub window_end_sample: u64,
    pub is_final: bool,
}

/// A job and what its transcription gave.
#[derive(Debug)]
pub struct InferenceResult<T> {
    pub job: InferenceJob<T>,
    pub output: Result<WhisperOutput, String>,
}

/// Where a window ending at `now` starts: at the start of speech, but no
/// more than a window before `now` and not before the oldest retained sample.
pub open spec fn window_start_for(speech_start: int, now: int, buffer_start: int) -> int {
    let back = if now >= WINDOW_SAMPLES {
        now - WINDOW_SAMPLES
    } else {
        0
    };
    let a = if speech_start >= back {
        speech_start
    } else {
        back
    };
    if a >= buffer_start {
        a
    } else {
        buffer_start
    }
}

/// The audio a job ending at `now` would carry.
pub open spec fn job_samples<T>(b: BufferState<T>, speech_start: int, now: int) -> Seq<T> {
    slice_of(b, window_start_for(speech_start, now, b.start), now)
}

/// A job is sent only when its audio is at least half a second long.
pub open spec fn job_ready<T>(b: BufferState<T>, speech_start: int, now: int) -> bool {
    job_samples(b, speech_start, now).len() >= MIN_JOB_SAMPLES
}

/// A window that holds enough audio and ends within the retained samples
/// holds exactly the samples from its start to its end, at most a window of
/// them.
proof fn lemma_window_len<T>(b: BufferState<T>, speech_start: int, now: int)
    requires
        state_ok(b),
        now <= b.next,
        job_ready(b, speech_start, now),
    ensures
        job_samples(b, speech_start, now).len() == now - window_start_for(speech_start, now, b.start),
        now - window_start_for(speech_start, now, b.start) <= WINDOW_SAMPLES,
{
}

/// What every job holds: half a second of audio at least and a window at
/// most, exactly the samples of its window, which starts no earlier than the
/// speech and the oldest retained sample.
pub open spec fn job_in_bounds<T>(j: InferenceJob<T>, speech_start: int, buffer_start: int) -> bool {
    &&& MIN_JOB_SAMPLES <= j.samples@.len()
    &&& j.samples@.len() == j.window_end_sample - j.window_start_sample
    &&& j.window_end_sample - j.window_start_sample <= WINDOW_SAMPLES
    &&& j.window_start_sample >= speech_start
    &&& j.window_start_sample >= buffer_start
}

/// The job for the window of speech ending at `now`, or `None` when it would
/// hold less than half a second of audio.
pub fn build_inference_job<T: Copy>(
    buffer: &RollingBuffer<T>,
    speech_start: u64,
    now_sample: u64,
    is_final: bool,
    generation: u64,
) -> (r: Option<InferenceJob<T>>)
    requires
        buffer.inv(),
    ensures
        r is Some <==> job_ready(buffer@, speech_start as int, now_sample as int),
        r matches Some(j) ==> {
            &&& j.samples@ == job_samples(buffer@, speech_start as int, now_sample as int)
            &&& j.window_start_sample == window_start_for(
                speech_start as int,
                now_sample as int,
                buffer@.start,
            )
            &&& j.window_end_sample == now_sample
            &&& j.is_final == is_final
            &&& j.generation == generation
            &&& now_sample <= buffer@.next ==> job_in_bounds(j, speech_start as int, buffer@.start)
        },
{
    let back = now_sample.saturating_sub(WINDOW_SAMPLES);
    let a = if speech_start >= back {
        speech_start
    } else {
        back
    };
    let buffer_start = buffer.start_sample();
    let window_start = if a >= buffer_start {
        a
    } else {
        buffer_start
    };
    let samples = buffer.slice(window_start, now_sample);
    if samples.len() < MIN_JOB_SAMPLES {
        return None;
    }
    proof {
        if now_sample <= buffer@.next {
            lemma_window_len(buffer@, speech_start as int, now_sample as int);
        }
    }
    Some(
        InferenceJob {
            generation,
            samples,
            window_start_sample: window_start,
            window_end_sample: now_sample,
            is_final,
        },
    )
}

// ---------------------------------------------------------------------------
// Applying transcriptions
// ---------------------------------------------------------------------------

/// The status fields that transcription results leave alone.
pub open spec fn same_settings(a: DictationStatus, b: DictationStatus) -> bool {
    &&& a.recording == b.recording
    &&& a.continuous_mode == b.continuous_mode
    &&& a.vad_enabled == b.vad_enabled
    &&& a.model_loaded == b.model_loaded
    &&& a.language@ == b.language@
    &&& opt_view(a.model_path) == opt_view(b.model_path)
    &&& opt_view(a.hotkey) == opt_view(b.hotkey)
    &&& a.insertion_mode == b.insertion_mode
}

/// Two statuses that differ at most in their last error.
pub open spec fn same_but_error(a: DictationStatus, b: DictationStatus) -> bool {
    &&& same_settings(a, b)
    &&& a.finalized_text@ == b.finalized_text@
    &&& a.partial_text@ == b.partial_text@
    &&& a.latency_ms == b.latency_ms
    &&& a.chunk_processing_ms == b.chunk_processing_ms
}

/// Record `error` as the last error.
pub fn set_error(status: &mut DictationStatus, error: &str)
    ensures
        same_but_error(*final(status), *old(status)),
        opt_view(final(status).last_error) == Some(error@),
{
    status.last_error = Some(String::from_str(error));
}

/// What the shell does after a transcription was applied: the insertions to
/// carry out, in order, and the update to show.
#[derive(Debug)]
pub struct InferenceEffects {
    pub typing: InsertionPlan,
    pub paste: InsertionPlan,
    pub update: TranscriptionUpdate,
}

/// The point up to which an interim window is taken as stable: all of a
/// final window, and all but its last `STABLE_OVERLAP_MS` otherwise.
pub open spec fn stable_cutoff_ms(window_end_ms: int, is_final: bool) -> int {
    if is_final {
        window_end_ms
    } else if window_end_ms >= STABLE_OVERLAP_MS {
        window_end_ms - STABLE_OVERLAP_MS
    } else {
        0
    }
}

/// The effect of applying a transcription `out` of the window
/// `[ws_sample, we_sample)` whose text is not empty once cleaned.
pub open spec fn result_applied(
    old_s: DictationStatus,
    new_s: DictationStatus,
    old_cu: u64,
    new_cu: u64,
    old_ib: Seq<char>,
    new_ib: Seq<char>,
    ws_sample: u64,
    we_sample: u64,
    is_final: bool,
    out: WhisperOutput,
    fx: InferenceEffects,
) -> bool {
    let ws_ms = ms_of_samples(ws_sample as int);
    let we_ms = ms_of_samples(we_sample as int);
    let cutoff = stable_cutoff_ms(we_ms, is_final);
    let segs = out.segments@;
    let committed = split_committed(segs, ws_ms as u64, cutoff as u64, old_cu);
    let partial = split_partial(segs, out.text@, ws_ms as u64, cutoff as u64, old_cu);
    let until = split_until(segs, ws_ms as u64, cutoff as u64, old_cu);
    let has = committed.len() > 0;
    let mode = old_s.insertion_mode;
    let finalized = if has {
        appended(old_s.finalized_text@, committed)
    } else {
        old_s.finalized_text@
    };
    let ib = if has {
        appended(old_ib, committed)
    } else {
        old_ib
    };
    let latency = out.processing_ms + INFER_INTERVAL_MS;
    &&& same_settings(new_s, old_s)
    &&& new_s.chunk_processing_ms == out.processing_ms
    &&& new_s.latency_ms == latency
    &&& new_s.last_error is None
    &&& new_s.finalized_text@ == finalized
    &&& new_s.partial_text@ == (if is_final {
        Seq::<char>::empty()
    } else {
        partial
    })
    &&& new_cu == (if has && until > old_cu {
        until
    } else {
        old_cu as int
    })
    &&& new_ib == (if is_final {
        Seq::<char>::empty()
    } else {
        ib
    })
    &&& fx.typing@ == (if has && mode == InsertionMode::IncrementalTyping {
        plan_for(committed, mode)
    } else {
        PlanView::Skip
    })
    &&& fx.paste@ == (if is_final && mode == InsertionMode::FinalPaste && ib.len() > 0 {
        plan_for(ib, mode)
    } else {
        PlanView::Skip
    })
    &&& fx.update.text@ == clean(out.text@)
    &&& fx.update.finalized_text@ == finalized
    &&& fx.update.partial_text@ == new_s.partial_text@
    &&& fx.update.is_final == is_final
    &&& fx.update.speech_active == !is_final
    &&& fx.update.window_start_ms == ws_ms
    &&& fx.update.window_end_ms == we_ms
    &&& fx.update.latency_ms == latency
    &&& fx.update.chunk_processing_ms == out.processing_ms
}

/// What applying a result needs to stay within `u64`: window times in
/// milliseconds, absolute segment times and the latency.
pub open spec fn result_fits<T>(result: InferenceResult<T>) -> bool {
    &&& result.job.window_start_sample <= MAX_STREAM_SAMPLES
    &&& result.job.window_end_sample <= MAX_STREAM_SAMPLES
    &&& result.output matches Ok(out) ==> {
        &&& out.processing_ms + INFER_INTERVAL_MS <= u64::MAX
        &&& segment_times_fit(
            out.segments@,
            ms_of_samples(result.job.window_start_sample as int) as u64,
        )
    }
}

/// What applying `result` does: a failed transcription records its error
/// when it was final and changes nothing else; a transcription without text
/// changes nothing; any other is applied as `result_applied` says.
pub open spec fn apply_outcome<T>(
    old_s: DictationStatus,
    new_s: DictationStatus,
    old_cu: u64,
    new_cu: u64,
    old_ib: Seq<char>,
    new_ib: Seq<char>,
    result: InferenceResult<T>,
    r: Option<InferenceEffects>,
) -> bool {
    match result.output {
        Err(e) => {
            &&& r is None
            &&& new_cu == old_cu
            &&& new_ib == old_ib
            &&& if result.job.is_final {
                same_but_error(new_s, old_s) && opt_view(
                    new_s.last_error,
                ) == Some(e@)
            } else {
                new_s == old_s
            }
        },
        Ok(out) => if clean(out.text@).len() == 0 {
            &&& r is None
            &&& new_s == old_s
            &&& new_cu == old_cu
            &&& new_ib == old_ib
        } else {
            &&& r is Some
            &&& result_applied(
                old_s,
                new_s,
                old_cu,
                new_cu,
                old_ib,
                new_ib,
                result.job.window_start_sample,
                result.job.window_end_sample,
                result.job.is_final,
                out,
                r->0,
            )
        },
    }
}

/// Apply a transcription result: a failed final transcription records its
/// error; a transcription with text updates the timings, merges the newly
/// stable text into the finalized text and the text awaiting insertion,
/// moves the committed point, replaces or (at the end of an utterance)
/// clears the partial text, and says what to insert and what to show.
pub fn apply_inference_result<T>(
    status: &mut DictationStatus,
    inserter: &mut TextInserter,
    committed_until_ms: &mut u64,
    insertion_buffer: &mut String,
    result: InferenceResult<T>,
) -> (r: Option<InferenceEffects>)
    requires
        result_fits(result),
    ensures
        *final(inserter) == *old(inserter),
        apply_outcome(
            *old(status),
            *final(status),
            *old(committed_until_ms),
            *final(committed_until_ms),
            old(insertion_buffer)@,
            final(insertion_buffer)@,
            result,
            r,
        ),
{
    let job = result.job;
    let output = match result.output {
        Ok(output) => output,
        Err(error) => {
            if job.is_final {
                set_error(status, error.as_str());
            }
            return None;
        },
    };
    let cleaned = clean_text(output.text.as_str());
    if cleaned.as_str().unicode_len() == 0 {
        return None;
    }
    let ghost old_status = *status;
    let ghost old_cu = *committed_until_ms;
    let ghost old_ib = insertion_buffer@;
    status.chunk_processing_ms = output.processing_ms;
    status.latency_ms = output.processing_ms + INFER_INTERVAL_MS;
    status.last_error = None;

    let insertion_mode = status.insertion_mode;
    let window_start_ms = samples_to_ms(job.window_start_sample);
    let window_end_ms = samples_to_ms(job.window_end_sample);
    let stable_cutoff_ms = if job.is_final {
        window_end_ms
    } else {
        window_end_ms.saturating_sub(STABLE_OVERLAP_MS)
    };
    let (committed_text, partial_text, committed_until) = split_committed_and_partial(
        &output,
        window_start_ms,
        stable_cutoff_ms,
        *committed_until_ms,
    );

    let mut typing = InsertionPlan::Skip;
    if committed_text.as_str().unicode_len() > 0 {
        append_with_overlap(&mut status.finalized_text, committed_text.as_str());
        append_with_overlap(insertion_buffer, committed_text.as_str());
        if committed_until > *committed_until_ms {
            *committed_until_ms = committed_until;
        }
        if insertion_mode == InsertionMode::IncrementalTyping {
            typing = inserter.insert_committed(committed_text.as_str(), insertion_mode);
        }
    }
    let mut paste = InsertionPlan::Skip;
    if job.is_final {
        if insertion_mode == InsertionMode::FinalPaste && insertion_buffer.as_str().unicode_len()
            > 0 {
            paste = inserter.insert_committed(insertion_buffer.as_str(), insertion_mode);
        }
        *insertion_buffer = String::new();
        inserter.reset_incremental();
        status.partial_text = String::new();
    } else {
        status.partial_text = partial_text;
    }

    let update = TranscriptionUpdate {
        text: cleaned,
        finalized_text: status.finalized_text.clone(),
        partial_text: status.partial_text.clone(),
        is_final: job.is_final,
        speech_active: !job.is_final,
        window_start_ms,
        window_end_ms,
        latency_ms: status.latency_ms,
        chunk_processing_ms: output.processing_ms,
    };
    Some(InferenceEffects { typing, paste, update })
}


// ---------------------------------------------------------------------------
// The pipeline's decisions
// ---------------------------------------------------------------------------

/// A job the worker has handed out and whose fate it waits to hear: whether
/// the transcription worker's channel took it decides what comes next.
#[derive(Debug, Clone, Copy, PartialEq, Eq, Structural)]
pub enum PendingOffer {
    /// An interim job of a frame; the frame's silence check follows.
    Interim { vad_enabled: bool },
    /// A final job asked for by a request or by silence.
    Final,
    /// A final job that waited for the previous transcription's result.
    DeferredFinal,
}

/// What the pipeline worker holds between events.
pub ghost struct WorkerState<T> {
    pub buffer: BufferState<T>,
    pub in_speech: bool,
    pub speech_start: int,
    pub last_voice: int,
    pub last_infer: int,
    pub committed_until_ms: int,
    pub insertion_buffer: Seq<char>,
    pub inflight: bool,
    pub final_after_inflight: bool,
    pub clear_after_final: bool,
    pub generation: int,
    pub offer: Option<PendingOffer>,
}

/// The buffer with nothing retained, numbering going on.
pub open spec fn cleared<T>(b: BufferState<T>) -> BufferState<T> {
    BufferState { samples: Seq::<T>::empty(), capacity: b.capacity, start: b.next, next: b.next }
}

/// The job for the utterance of `w` up to its latest sample: the window that
/// `window_start_for` picks, in the worker's generation.
pub open spec fn is_job_for<T>(j: InferenceJob<T>, w: WorkerState<T>, is_final: bool) -> bool {
    &&& j.samples@ == job_samples(w.buffer, w.speech_start, w.buffer.next)
    &&& j.window_start_sample == window_start_for(w.speech_start, w.buffer.next, w.buffer.start)
    &&& j.window_end_sample == w.buffer.next
    &&& j.is_final == is_final
    &&& j.generation == w.generation
}

/// Every offer but an interim one is a final job.
pub open spec fn offers_final(p: PendingOffer) -> bool {
    !(p is Interim)
}

/// A handler hands out a job exactly when it leaves an offer pending, and
/// that job is the one the pending offer stands for.
pub open spec fn offered<T>(job: Option<InferenceJob<T>>, w: WorkerState<T>) -> bool {
    &&& job is Some <==> w.offer is Some
    &&& job matches Some(j) ==> {
        &&& is_job_for(j, w, offers_final(w.offer->0))
        &&& job_in_bounds(j, w.speech_start, w.buffer.start)
    }
}

/// A reset: speech, timers, committed point, pending text and every pending
/// transcription are dropped, the buffer is emptied, and results of other
/// generations are ignored from then on.
pub open spec fn after_reset<T>(w: WorkerState<T>, generation: int) -> WorkerState<T> {
    WorkerState {
        buffer: cleared(w.buffer),
        in_speech: false,
        last_voice: 0,
        last_infer: 0,
        committed_until_ms: 0,
        insertion_buffer: Seq::<char>::empty(),
        inflight: false,
        final_after_inflight: false,
        clear_after_final: false,
        generation,
        offer: None,
        ..w
    }
}

/// A final job is due: it is offered when it holds enough audio, and
/// otherwise the utterance ends here.
pub open spec fn final_due<T>(w: WorkerState<T>) -> WorkerState<T> {
    if job_ready(w.buffer, w.speech_start, w.buffer.next) {
        WorkerState { offer: Some(PendingOffer::Final), ..w }
    } else {
        WorkerState {
            inflight: false,
            clear_after_final: false,
            in_speech: false,
            buffer: cleared(w.buffer),
            ..w
        }
    }
}

/// A request to finalize: deferred while a transcription is under way.
pub open spec fn finalize_step<T>(w: WorkerState<T>) -> WorkerState<T> {
    if w.inflight {
        WorkerState { final_after_inflight: true, ..w }
    } else {
        final_due(w)
    }
}

/// A frame while neither recording nor in continuous mode: unless a
/// transcription is under way or a final one awaits its result, speech ends
/// and the buffer is emptied.
pub open spec fn idle_frame<T>(w: WorkerState<T>) -> WorkerState<T> {
    if !w.inflight && !w.clear_after_final {
        WorkerState { in_speech: false, buffer: cleared(w.buffer), ..w }
    } else {
        w
    }
}

/// The worker with the committed point and pending text that applying a
/// result left.
pub open spec fn with_merged_text<T>(w: WorkerState<T>, cu: int, ib: Seq<char>) -> WorkerState<T> {
    WorkerState { committed_until_ms: cu, insertion_buffer: ib, ..w }
}

/// After a current result was applied (`w` holds the merged committed point
/// and pending text): the buffer is cleared if that was the final result,
/// and a deferred finalization is offered now if it holds enough audio.
pub open spec fn result_step<T>(w: WorkerState<T>) -> WorkerState<T> {
    let w0 = WorkerState { inflight: false, ..w };
    let w1 = if w0.clear_after_final {
        WorkerState { in_speech: false, buffer: cleared(w0.buffer), clear_after_final: false, ..w0 }
    } else {
        w0
    };
    if w1.final_after_inflight {
        if job_ready(w1.buffer, w1.speech_start, w1.buffer.next) {
            WorkerState { final_after_inflight: false, offer: Some(PendingOffer::DeferredFinal), ..w1 }
        } else {
            WorkerState { final_after_inflight: false, inflight: false, clear_after_final: false, ..w1 }
        }
    } else {
        w1
    }
}

/// The start of speech: a pre-roll before the current sample, where the
/// committed point also starts.
pub open spec fn speech_started<T>(w: WorkerState<T>, now: int) -> WorkerState<T> {
    let pre = samples_of_ms(PRE_ROLL_MS as int);
    let start = if now >= pre {
        now - pre
    } else {
        0
    };
    WorkerState {
        speech_start: start,
        committed_until_ms: ms_of_samples(start),
        insertion_buffer: Seq::<char>::empty(),
        in_speech: true,
        ..w
    }
}

pub open spec fn since(now: int, then: int) -> int {
    if now >= then {
        now - then
    } else {
        0
    }
}

/// A frame heard while recording or in continuous mode: its samples are
/// kept; speech (or any frame, without voice activity detection) starts an
/// utterance and marks the last voice.
pub open spec fn frame_heard<T>(
    w: WorkerState<T>,
    samples: Seq<T>,
    speech: bool,
    vad_enabled: bool,
) -> WorkerState<T> {
    let b = push_all(w.buffer, samples);
    let now = b.next;
    let gate = if vad_enabled {
        speech
    } else {
        true
    };
    let w1 = WorkerState { buffer: b, ..w };
    if gate {
        let w2 = if !w1.in_speech {
            speech_started(w1, now)
        } else {
            w1
        };
        WorkerState { last_voice: now, ..w2 }
    } else {
        w1
    }
}

/// An interim transcription is due every `INFER_INTERVAL_MS` once
/// `MIN_INFERENCE_MS` of speech is there and none is under way.
pub open spec fn interim_due<T>(w: WorkerState<T>) -> bool {
    &&& !w.inflight
    &&& ms_of_samples(since(w.buffer.next, w.last_infer)) >= INFER_INTERVAL_MS
    &&& ms_of_samples(since(w.buffer.next, w.speech_start)) >= MIN_INFERENCE_MS
}

/// With voice activity detection, `SILENCE_FINALIZE_MS` of silence
/// finalizes the utterance.
pub open spec fn silence_due<T>(w: WorkerState<T>, vad_enabled: bool) -> bool {
    vad_enabled && ms_of_samples(since(w.buffer.next, w.last_voice)) >= SILENCE_FINALIZE_MS
}

/// The end of a frame: finalize on silence.
pub open spec fn silence_step<T>(w: WorkerState<T>, vad_enabled: bool) -> WorkerState<T> {
    if silence_due(w, vad_enabled) {
        finalize_step(w)
    } else {
        w
    }
}

/// A frame heard while recording or in continuous mode, up to its first
/// offer: during an utterance a due interim job is offered when it holds
/// enough audio, and otherwise the silence check follows at once.
pub open spec fn frame_step<T>(
    w: WorkerState<T>,
    samples: Seq<T>,
    speech: bool,
    vad_enabled: bool,
) -> WorkerState<T> {
    let w2 = frame_heard(w, samples, speech, vad_enabled);
    if !w2.in_speech {
        w2
    } else if interim_due(w2) {
        let w3 = WorkerState { last_infer: w2.buffer.next, ..w2 };
        if job_ready(w3.buffer, w3.speech_start, w3.buffer.next) {
            WorkerState { offer: Some(PendingOffer::Interim { vad_enabled }), ..w3 }
        } else {
            silence_step(w3, vad_enabled)
        }
    } else {
        silence_step(w2, vad_enabled)
    }
}

/// The answer to a pending offer: `sent` says whether the channel took the
/// job. A job taken is under way; a final job refused ends the utterance,
/// and after an interim job the frame's silence check follows.
pub open spec fn offer_outcome<T>(w: WorkerState<T>, sent: bool) -> WorkerState<T> {
    match w.offer {
        None => w,
        Some(PendingOffer::Interim { vad_enabled }) => silence_step(
            WorkerState { inflight: sent, offer: None, ..w },
            vad_enabled,
        ),
        Some(PendingOffer::Final) => if sent {
            WorkerState { inflight: true, clear_after_final: true, offer: None, ..w }
        } else {
            WorkerState {
                inflight: false,
                clear_after_final: false,
                in_speech: false,
                buffer: cleared(w.buffer),
                offer: None,
                ..w
            }
        },
        Some(PendingOffer::DeferredFinal) => WorkerState {
            inflight: sent,
            clear_after_final: sent,
            offer: None,
            ..w
        },
    }
}

/// The pipeline's state between events: the audio window, the current
/// utterance, the transcription under way, the reset generation and the job
/// handed out and not yet answered.
pub struct PipelineWorker<T> {
    buffer: RollingBuffer<T>,
    inserter: TextInserter,
    in_speech: bool,
    speech_start: u64,
    last_voice: u64,
    last_infer: u64,
    committed_until_ms: u64,
    insertion_buffer: String,
    inference_inflight: bool,
    final_after_inflight: bool,
    clear_after_final: bool,
    generation: u64,
    offer: Option<PendingOffer>,
}

impl<T> View for PipelineWorker<T> {
    type V = WorkerState<T>;

    closed spec fn view(&self) -> WorkerState<T> {
        WorkerState {
            buffer: self.buffer@,
            in_speech: self.in_speech,
            speech_start: self.speech_start as int,
            last_voice: self.last_voice as int,
            last_infer: self.last_infer as int,
            committed_until_ms: self.committed_until_ms as int,
            insertion_buffer: self.insertion_buffer@,
            inflight: self.inference_inflight,
            final_after_inflight: self.final_after_inflight,
            clear_after_final: self.clear_after_final,
            generation: self.generation as int,
            offer: self.offer,
        }
    }
}

impl<T: Copy> PipelineWorker<T> {
    /// The buffer is well formed and its sample numbering stays where times
    /// in milliseconds fit a `u64`.
    pub closed spec fn inv(&self) -> bool {
        &&& self.buffer.inv()
        &&& self.buffer@.next <= MAX_STREAM_SAMPLES
    }

    /// A worker with nothing heard yet, in the given reset generation.
    pub fn new(generation: u64) -> (r: Self)
        ensures
            r.inv(),
            r@.buffer.samples == Seq::<T>::empty(),
            r@.buffer.capacity == ROLLING_CAPACITY,
            r@.buffer.start == 0,
            r@.buffer.next == 0,
            !r@.in_speech,
            r@.speech_start == 0,
            r@.last_voice == 0,
            r@.last_infer == 0,
            r@.committed_until_ms == 0,
            r@.insertion_buffer == Seq::<char>::empty(),
            !r@.inflight,
            !r@.final_after_inflight,
            !r@.clear_after_final,
            r@.generation == generation,
            r@.offer is None,
    {
        PipelineWorker {
            buffer: RollingBuffer::new(ROLLING_CAPACITY),
            inserter: TextInserter,
            in_speech: false,
            speech_start: 0,
            last_voice: 0,
            last_infer: 0,
            committed_until_ms: 0,
            insertion_buffer: String::new(),
            inference_inflight: false,
            final_after_inflight: false,
            clear_after_final: false,
            generation,
            offer: None,
        }
    }

    /// The reset generation whose results are applied.
    pub fn generation(&self) -> (r: u64)
        ensures
            r == self@.generation,
    {
        self.generation
    }

    /// The absolute index of the next sample.
    pub fn next_sample(&self) -> (r: u64)
        ensures
            r == self@.buffer.next,
    {
        self.buffer.next_sample()
    }

    /// Whether a job was handed out whose fate `job_offered` has not been
    /// told yet.
    pub fn is_awaiting_offer(&self) -> (r: bool)
        ensures
            r == self@.offer is Some,
    {
        self.offer.is_some()
    }

    /// Drop everything for a reset into `generation`.
    pub fn reset(&mut self, generation: u64)
        requires
            old(self).inv(),
        ensures
            final(self).inv(),
            final(self)@ == after_reset(old(self)@, generation as int),
    {
        self.in_speech = false;
        self.last_voice = 0;
        self.last_infer = 0;
        self.committed_until_ms = 0;
        self.insertion_buffer = String::new();
        self.inference_inflight = false;
        self.final_after_inflight = false;
        self.clear_after_final = false;
        self.offer = None;
        self.inserter.reset_incremental();
        self.buffer.clear();
        self.generation = generation;
    }

    /// Handle a request to finalize the utterance. The job returned, if
    /// any, is to be offered to the transcription worker and its fate told
    /// to `job_offered`.
    pub fn handle_finalize_request(&mut self) -> (job: Option<InferenceJob<T>>)
        requires
            old(self).inv(),
            old(self)@.offer is None,
        ensures
            final(self).inv(),
            final(self)@ == finalize_step(old(self)@),
            offered(job, final(self)@),
            job matches Some(j) ==> j.is_final && j.generation == old(self)@.generation,
    {
        self.finalize_step()
    }

    fn finalize_step(&mut self) -> (job: Option<InferenceJob<T>>)
        requires
            old(self).inv(),
            old(self)@.offer is None,
        ensures
            final(self).inv(),
            final(self)@ == finalize_step(old(self)@),
            offered(job, final(self)@),
    {
        if self.inference_inflight {
            self.final_after_inflight = true;
            return None;
        }
        let now = self.buffer.next_sample();
        match build_inference_job(&self.buffer, self.speech_start, now, true, self.generation) {
            Some(job) => {
                self.offer = Some(PendingOffer::Final);
                Some(job)
            },
            None => {
                self.inference_inflight = false;
                self.clear_after_final = false;
                self.in_speech = false;
                self.buffer.clear();
                None
            },
        }
    }

    fn silence_step(&mut self, vad_enabled: bool) -> (job: Option<InferenceJob<T>>)
        requires
            old(self).inv(),
            old(self)@.offer is None,
        ensures
            final(self).inv(),
            final(self)@ == silence_step(old(self)@, vad_enabled),
            offered(job, final(self)@),
    {
        let now = self.buffer.next_sample();
        let silence_ms = samples_to_ms(now.saturating_sub(self.last_voice));
        if vad_enabled && silence_ms >= SILENCE_FINALIZE_MS {
            self.finalize_step()
        } else {
            None
        }
    }

    /// Tell the worker whether the transcription worker's channel took the
    /// job it handed out last. What follows may be one more (final) job to
    /// offer in the same way.
    pub fn job_offered(&mut self, sent: bool) -> (job: Option<InferenceJob<T>>)
        requires
            old(self).inv(),
        ensures
            final(self).inv(),
            final(self)@ == offer_outcome(old(self)@, sent),
            offered(job, final(self)@),
            job matches Some(j) ==> j.is_final && j.generation == old(self)@.generation,
    {
        match self.offer {
            None => None,
            Some(PendingOffer::Interim { vad_enabled }) => {
                self.offer = None;
                self.inference_inflight = sent;
                self.silence_step(vad_enabled)
            },
            Some(PendingOffer::Final) => {
                self.offer = None;
                self.inference_inflight = sent;
                self.clear_after_final = sent;
                if !sent {
                    self.in_speech = false;
                    self.buffer.clear();
                }
                None
            },
            Some(PendingOffer::DeferredFinal) => {
                self.offer = None;
                self.inference_inflight = sent;
                self.clear_after_final = sent;
                None
            },
        }
    }

    /// Handle a frame heard while neither recording nor in continuous mode.
    pub fn handle_idle_frame(&mut self)
        requires
            old(self).inv(),
            old(self)@.offer is None,
        ensures
            final(self).inv(),
            final(self)@ == idle_frame(old(self)@),
    {
        if !self.inference_inflight && !self.clear_after_final {
            self.in_speech = false;
            self.inserter.reset_incremental();
            self.buffer.clear();
        }
    }

    /// Handle a transcription result. Results of another generation are
    /// ignored; a current one is applied, then a final result empties the
    /// buffer and a deferred finalization hands out its job (to be offered,
    /// and its fate told to `job_offered`).
    pub fn handle_result(&mut self, status: &mut DictationStatus, result: InferenceResult<T>) -> (r: (
        Option<InferenceEffects>,
        Option<InferenceJob<T>>,
    ))
        requires
            old(self).inv(),
            old(self)@.offer is None,
            result_fits(result),
        ensures
            final(self).inv(),
            result.job.generation != old(self)@.generation ==> {
                &&& r.0 is None
                &&& r.1 is None
                &&& final(self)@ == old(self)@
                &&& *final(status) == *old(status)
            },
            result.job.generation == old(self)@.generation ==> {
                &&& apply_outcome(
                    *old(status),
                    *final(status),
                    old(self)@.committed_until_ms as u64,
                    final(self)@.committed_until_ms as u64,
                    old(self)@.insertion_buffer,
                    final(self)@.insertion_buffer,
                    result,
                    r.0,
                )
                &&& final(self)@ == result_step(
                    with_merged_text(
                        old(self)@,
                        final(self)@.committed_until_ms,
                        final(self)@.insertion_buffer,
                    ),
                )
            },
            offered(r.1, final(self)@),
            r.1 matches Some(j) ==> j.is_final && j.generation == old(self)@.generation,
    {
        if result.job.generation != self.generation {
            return (None, None);
        }
        self.inference_inflight = false;
        let effects = apply_inference_result(
            status,
            &mut self.inserter,
            &mut self.committed_until_ms,
            &mut self.insertion_buffer,
            result,
        );
        if self.clear_after_final {
            self.in_speech = false;
            self.buffer.clear();
            self.clear_after_final = false;
        }
        let mut job = None;
        if self.final_after_inflight {
            self.final_after_inflight = false;
            let now = self.buffer.next_sample();
            job = build_inference_job(&self.buffer, self.speech_start, now, true, self.generation);
            if job.is_some() {
                self.offer = Some(PendingOffer::DeferredFinal);
            } else {
                self.inference_inflight = false;
                self.clear_after_final = false;
            }
        }
        (effects, job)
    }

    /// Handle a frame heard while recording or in continuous mode; `speech`
    /// is the voice activity verdict on it. The job returned, if any, is to
    /// be offered to the transcription worker and its fate told to
    /// `job_offered`.
    pub fn handle_frame(&mut self, samples: &[T], speech: bool, vad_enabled: bool) -> (job: Option<
        InferenceJob<T>,
    >)
        requires
            old(self).inv(),
            old(self)@.offer is None,
            old(self)@.buffer.next + samples@.len() <= MAX_STREAM_SAMPLES,
        ensures
            final(self).inv(),
            final(self)@ == frame_step(old(self)@, samples@, speech, vad_enabled),
            offered(job, final(self)@),
            job matches Some(j) ==> j.generation == old(self)@.generation,
    {
        proof {
            lemma_push_all_ok(self.buffer@, samples@);
        }
        self.buffer.push(samples);
        let now = self.buffer.next_sample();
        let gate = if vad_enabled {
            speech
        } else {
            true
        };
        if gate {
            if !self.in_speech {
                let pre_roll_samples = ms_to_samples(PRE_ROLL_MS);
                self.speech_start = now.saturating_sub(pre_roll_samples);
                self.committed_until_ms = samples_to_ms(self.speech_start);
                self.insertion_buffer = String::new();
                self.in_speech = true;
                self.inserter.reset_incremental();
            }
            self.last_voice = now;
        }
        if !self.in_speech {
            return None;
        }
        let elapsed_since_infer = samples_to_ms(now.saturating_sub(self.last_infer));
        let speech_len = samples_to_ms(now.saturating_sub(self.speech_start));
        if !self.inference_inflight && elapsed_since_infer >= INFER_INTERVAL_MS && speech_len
            >= MIN_INFERENCE_MS {
            self.last_infer = now;
            let interim = build_inference_job(&self.buffer, self.speech_start, now, false, self.generation);
            if interim.is_some() {
                self.offer = Some(PendingOffer::Interim { vad_enabled });
                return interim;
            }
        }
        self.silence_step(vad_enabled)
    }
}

// ---------------------------------------------------------------------------
// Laws of the pipeline
// ---------------------------------------------------------------------------

/// A deferred finalization, or a final job awaiting its result, only exists
/// while a transcription is under way.
pub open spec fn pending_ok<T>(w: WorkerState<T>) -> bool {
    (w.clear_after_final || w.final_after_inflight) ==> w.inflight
}

/// A frame's offers answered: an interim offer by `s_interim`, then the
/// final offer it may lead to, or a final offer directly, by `s_final`.
pub open spec fn settle_frame<T>(w: WorkerState<T>, s_interim: bool, s_final: bool) -> WorkerState<T> {
    match w.offer {
        Some(PendingOffer::Interim { .. }) => offer_outcome(offer_outcome(w, s_interim), s_final),
        _ => offer_outcome(w, s_final),
    }
}

/// Every event keeps pending work tied to a transcription under way: a
/// reset, a finalization request, an idle frame, an active frame and an
/// applied result, once the channel has answered the offers they made.
pub proof fn lemma_events_keep_pending_ok<T>(
    w: WorkerState<T>,
    generation: int,
    samples: Seq<T>,
    speech: bool,
    vad_enabled: bool,
    s1: bool,
    s2: bool,
    cu: int,
    ib: Seq<char>,
)
    requires
        pending_ok(w),
        w.offer is None,
    ensures
        pending_ok(after_reset(w, generation)),
        pending_ok(offer_outcome(finalize_step(w), s1)),
        pending_ok(idle_frame(w)),
        pending_ok(settle_frame(frame_step(w, samples, speech, vad_enabled), s1, s2)),
        pending_ok(offer_outcome(result_step(with_merged_text(w, cu, ib)), s1)),
        settle_frame(frame_step(w, samples, speech, vad_enabled), s1, s2).offer is None,
        offer_outcome(finalize_step(w), s1).offer is None,
        offer_outcome(result_step(with_merged_text(w, cu, ib)), s1).offer is None,
{
}

/// No step but a reset changes the generation, so every job the worker
/// hands out carries the generation it was in when the job's event came.
pub proof fn lemma_steps_keep_generation<T>(
    w: WorkerState<T>,
    samples: Seq<T>,
    speech: bool,
    vad_enabled: bool,
    sent: bool,
)
    ensures
        frame_step(w, samples, speech, vad_enabled).generation == w.generation,
        finalize_step(w).generation == w.generation,
        idle_frame(w).generation == w.generation,
        result_step(w).generation == w.generation,
        offer_outcome(w, sent).generation == w.generation,
{
}

/// The committed point never moves back.
pub proof fn lemma_committed_point_monotone(
    segs: Seq<crate::whisper::WhisperSegment>,
    ws: u64,
    cutoff: u64,
    cu: u64,
)
    ensures
        split_until(segs, ws, cutoff, cu) >= cu,
    decreases segs.len(),
{
    if segs.len() > 0 {
        lemma_committed_point_monotone(segs.drop_last(), ws, cutoff, cu);
        lemma_committed_end_monotone(segs, ws, cutoff, cu);
    }
}

proof fn lemma_committed_end_monotone(
    segs: Seq<crate::whisper::WhisperSegment>,
    ws: u64,
    cutoff: u64,
    cu: u64,
)
    ensures
        crate::transcript::committed_end(segs, ws, cutoff, cu) >= cu,
    decreases segs.len(),
{
    if segs.len() > 0 {
        lemma_committed_end_monotone(segs.drop_last(), ws, cutoff, cu);
    }
}

/// A reset always moves to a generation other than the current one, so no
/// result of a job sent before the reset is applied after it.
pub proof fn lemma_reset_changes_generation(c: PipelineControl)
    ensures
        next_generation(c.reset_generation) != c.reset_generation,
{
}

/// Applying a transcription never takes finalized text away: the earlier
/// finalized text is a prefix of the new one.
pub proof fn lemma_finalized_text_grows(
    old_s: DictationStatus,
    new_s: DictationStatus,
    old_cu: u64,
    new_cu: u64,
    old_ib: Seq<char>,
    new_ib: Seq<char>,
    ws_sample: u64,
    we_sample: u64,
    is_final: bool,
    out: WhisperOutput,
    fx: InferenceEffects,
)
    requires
        result_applied(old_s, new_s, old_cu, new_cu, old_ib, new_ib, ws_sample, we_sample, is_final, out, fx),
    ensures
        old_s.finalized_text@.is_prefix_of(new_s.finalized_text@),
        new_cu >= old_cu,
{
    let ws_ms = ms_of_samples(ws_sample as int);
    let we_ms = ms_of_samples(we_sample as int);
    let cutoff = stable_cutoff_ms(we_ms, is_final);
    let committed = split_committed(out.segments@, ws_ms as u64, cutoff as u64, old_cu);
    lemma_appended_extends_target(old_s.finalized_text@, committed);
    assert(old_s.finalized_text@.take(old_s.finalized_text@.len() as int) =~= old_s.finalized_text@);
}

/// At the end of an utterance in final-paste mode everything awaiting
/// insertion is pasted at once: the words held before the result, followed
/// by the words the result newly commits that do not repeat them. Nothing is
/// pasted only when there are no such words at all, and nothing is typed.
pub proof fn lemma_final_paste_takes_all_pending(
    old_s: DictationStatus,
    new_s: DictationStatus,
    old_cu: u64,
    new_cu: u64,
    old_ib: Seq<char>,
    new_ib: Seq<char>,
    ws_sample: u64,
    we_sample: u64,
    out: WhisperOutput,
    fx: InferenceEffects,
)
    requires
        result_applied(old_s, new_s, old_cu, new_cu, old_ib, new_ib, ws_sample, we_sample, true, out, fx),
        old_s.insertion_mode == InsertionMode::FinalPaste,
    ensures
        ({
            let we_ms = ms_of_samples(we_sample as int) as u64;
            let c = split_committed(out.segments@, ms_of_samples(ws_sample as int) as u64, we_ms, old_cu);
            let fresh = words(trim(c)).skip(overlap(words(old_ib), words(trim(c))) as int);
            &&& (fx.paste@ is Paste <==> words(old_ib).len() + fresh.len() > 0)
            &&& (fx.paste@ is Paste || fx.paste@ is Skip)
            &&& (fx.paste@ matches PlanView::Paste(t) ==> words(t) == words(old_ib) + fresh)
        }),
        words(old_ib).len() > 0 ==> (fx.paste@ matches PlanView::Paste(t) && words(old_ib).is_prefix_of(
            words(t),
        )),
{
    let we_ms = ms_of_samples(we_sample as int) as u64;
    let c = split_committed(out.segments@, ms_of_samples(ws_sample as int) as u64, we_ms, old_cu);
    let k = overlap(words(old_ib), words(trim(c)));
    let fresh = words(trim(c)).skip(k as int);
    let pending = if c.len() > 0 {
        appended(old_ib, c)
    } else {
        old_ib
    };
    if c.len() > 0 {
        lemma_appended_words(old_ib, c);
    } else {
        assert(trim(c).len() == 0);
        lemma_trim_empty(trim(c));
        assert(words(trim(c)).len() == 0);
        assert(fresh.len() == 0);
        assert(words(old_ib) + fresh =~= words(old_ib));
    }
    assert(words(pending) == words(old_ib) + fresh);
    lemma_words_trim(pending);
    if trim(pending).len() == 0 {
        lemma_trim_empty(pending);
    } else {
        lemma_trim_last(pending);
        lemma_words_nonempty_when_last_is_word(trim(pending));
    }
    if words(old_ib).len() > 0 {
        assert(words(old_ib).is_prefix_of(words(old_ib) + fresh)) by {
            assert((words(old_ib) + fresh).take(words(old_ib).len() as int) =~= words(old_ib));
        }
    }
}

/// A frame heard while neither recording nor in continuous mode leaves the
/// worker alone while a transcription is under way. So a finalization
/// deferred behind that transcription still finds the utterance's audio
/// when its result comes in, and hands out that audio as the final job.
pub proof fn lemma_idle_frame_spares_work_under_way<T>(w: WorkerState<T>, cu: int, ib: Seq<char>)
    requires
        w.inflight,
    ensures
        idle_frame(w) == w,
        ({
            let deferred = idle_frame(finalize_step(w));
            let after = result_step(with_merged_text(deferred, cu, ib));
            !w.clear_after_final && job_ready(w.buffer, w.speech_start, w.buffer.next) ==> {
                &&& after.offer == Some(PendingOffer::DeferredFinal)
                &&& after.buffer == w.buffer
                &&& after.speech_start == w.speech_start
            }
        }),
{
}

} // verus!
