use crossbeam_channel::{bounded, Sender};
use whispering::buffer::RollingBuffer;
use whispering::input::{InsertionPlan, TextInserter};
use whispering::pipeline::{
    apply_inference_result, build_inference_job, ms_to_samples, samples_to_ms,
    set_error, InferenceJob, InferenceResult, PipelineControl, PipelineWorker,
};
use whispering::types::{DictationStatus, InsertionMode};
use whispering::whisper::{WhisperOutput, WhisperSegment};

fn job(start: u64, end: u64, is_final: bool, generation: u64) -> InferenceJob<i16> {
    InferenceJob { generation, samples: vec![], window_start_sample: start, window_end_sample: end, is_final }
}

fn output(text: &str, segments: Vec<(&str, u64, u64)>, processing_ms: u64) -> WhisperOutput {
    WhisperOutput {
        text: text.to_string(),
        segments: segments
            .into_iter()
            .map(|(t, s, e)| WhisperSegment { text: t.to_string(), start_ms: s, end_ms: e })
            .collect(),
        processing_ms,
    }
}

#[test]
fn time_conversions_round_down() {
    assert_eq!(ms_to_samples(240), 3840);
    assert_eq!(ms_to_samples(1), 16);
    assert_eq!(samples_to_ms(16000), 1000);
    assert_eq!(samples_to_ms(15999), 999);
    assert_eq!(samples_to_ms(15), 0);
}

#[test]
fn control_requests() {
    let mut control = PipelineControl::default();
    control.running = true;
    assert!(control.is_running());
    control.request_reset();
    assert_eq!(control.reset_generation, 1);
    assert!(control.take_reset_request());
    assert!(!control.take_reset_request());
    control.reset_generation = u64::MAX;
    control.request_reset();
    assert_eq!(control.reset_generation, 0);
    control.finalize_requested = true;
    assert!(control.take_finalize_request());
    assert!(!control.finalize_requested);
    assert!(!control.is_active());
    control.continuous_mode = true;
    assert!(control.is_active());
    control.request_stop();
    assert!(!control.is_running());
}

#[test]
fn jobs_need_half_a_second_of_audio() {
    let mut buffer = RollingBuffer::<i16>::new(160_000);
    buffer.push(&vec![1i16; 7999]);
    assert!(build_inference_job(&buffer, 0, 7999, false, 0).is_none());
    buffer.push(&[2]);
    let job = build_inference_job(&buffer, 0, 8000, true, 5).unwrap();
    assert_eq!(job.samples.len(), 8000);
    assert_eq!(job.window_start_sample, 0);
    assert_eq!(job.window_end_sample, 8000);
    assert!(job.is_final);
    assert_eq!(job.generation, 5);
}

#[test]
fn job_window_is_at_most_six_seconds() {
    let mut buffer = RollingBuffer::<i16>::new(160_000);
    buffer.push(&vec![0i16; 100_000]);
    let job = build_inference_job(&buffer, 0, 100_000, false, 0).unwrap();
    assert_eq!(job.window_start_sample, 4_000);
    assert_eq!(job.samples.len(), 96_000);
    let job = build_inference_job(&buffer, 50_000, 100_000, false, 0).unwrap();
    assert_eq!(job.window_start_sample, 50_000);
}

#[test]
fn interim_result_sets_partial_text() {
    let mut status = DictationStatus::default();
    let mut inserter = TextInserter;
    let mut committed_until = 0u64;
    let mut pending = String::new();
    let result = InferenceResult {
        job: job(0, 16000, false, 0),
        output: Ok(output("hello world", vec![("hello world", 0, 900)], 40)),
    };
    let fx = apply_inference_result(&mut status, &mut inserter, &mut committed_until, &mut pending, result)
        .unwrap();
    assert_eq!(status.partial_text, "hello world");
    assert_eq!(status.finalized_text, "");
    assert_eq!(status.latency_ms, 540);
    assert_eq!(status.chunk_processing_ms, 40);
    assert_eq!(committed_until, 0);
    assert_eq!(fx.typing, InsertionPlan::Skip);
    assert_eq!(fx.paste, InsertionPlan::Skip);
    assert_eq!(fx.update.text, "hello world");
    assert_eq!(fx.update.window_end_ms, 1000);
    assert!(fx.update.speech_active);
}

#[test]
fn final_result_commits_and_pastes() {
    let mut status = DictationStatus::default();
    status.last_error = Some("old".to_string());
    let mut inserter = TextInserter;
    let mut committed_until = 0u64;
    let mut pending = String::new();
    let result = InferenceResult {
        job: job(0, 16000, true, 0),
        output: Ok(output("hello world", vec![("hello world", 0, 900)], 10)),
    };
    let fx = apply_inference_result(&mut status, &mut inserter, &mut committed_until, &mut pending, result)
        .unwrap();
    assert_eq!(status.finalized_text, "hello world");
    assert_eq!(status.partial_text, "");
    assert_eq!(status.last_error, None);
    assert_eq!(committed_until, 900);
    assert_eq!(pending, "");
    assert_eq!(fx.paste, InsertionPlan::Paste("hello world".to_string()));
    assert_eq!(fx.typing, InsertionPlan::Skip);
    assert!(fx.update.is_final);
    assert_eq!(fx.update.finalized_text, "hello world");
}

#[test]
fn incremental_mode_types_committed_text() {
    let mut status = DictationStatus::default();
    status.insertion_mode = InsertionMode::IncrementalTyping;
    let mut inserter = TextInserter;
    let mut committed_until = 0u64;
    let mut pending = String::new();
    let result = InferenceResult {
        job: job(0, 48000, false, 0),
        output: Ok(output("one two", vec![("one", 0, 800), ("two", 2000, 2900)], 5)),
    };
    let fx = apply_inference_result(&mut status, &mut inserter, &mut committed_until, &mut pending, result)
        .unwrap();
    assert_eq!(fx.typing, InsertionPlan::Type("one ".to_string()));
    assert_eq!(status.finalized_text, "one");
    assert_eq!(status.partial_text, "two");
    assert_eq!(pending, "one");
    assert_eq!(committed_until, 800);
}

#[test]
fn failed_final_transcription_sets_error() {
    let mut status = DictationStatus::default();
    let mut inserter = TextInserter;
    let mut committed_until = 3u64;
    let mut pending = "x".to_string();
    let result = InferenceResult { job: job(0, 16000, true, 0), output: Err("boom".to_string()) };
    assert!(apply_inference_result(&mut status, &mut inserter, &mut committed_until, &mut pending, result).is_none());
    assert_eq!(status.last_error, Some("boom".to_string()));
    assert_eq!(committed_until, 3);
    assert_eq!(pending, "x");
    let result = InferenceResult { job: job(0, 16000, false, 0), output: Err("again".to_string()) };
    assert!(apply_inference_result(&mut status, &mut inserter, &mut committed_until, &mut pending, result).is_none());
    assert_eq!(status.last_error, Some("boom".to_string()));
}

#[test]
fn blank_transcription_changes_nothing() {
    let mut status = DictationStatus::default();
    let mut inserter = TextInserter;
    let mut committed_until = 0u64;
    let mut pending = String::new();
    let result = InferenceResult { job: job(0, 16000, true, 0), output: Ok(output("   ", vec![], 9)) };
    assert!(apply_inference_result(&mut status, &mut inserter, &mut committed_until, &mut pending, result).is_none());
    assert_eq!(status.latency_ms, 0);
}

#[test]
fn set_error_records_the_message() {
    let mut status = DictationStatus::default();
    set_error(&mut status, "mic gone");
    assert_eq!(status.last_error, Some("mic gone".to_string()));
}

/// Offer each job the worker hands out to the channel and tell the worker
/// whether the channel took it, until it hands out no more.
fn offer(worker: &mut PipelineWorker<i16>, tx: &Sender<InferenceJob<i16>>, mut job: Option<InferenceJob<i16>>) {
    while let Some(j) = job {
        let sent = tx.try_send(j).is_ok();
        job = worker.job_offered(sent);
    }
    assert!(!worker.is_awaiting_offer());
}

#[test]
fn worker_sends_interim_job_after_enough_speech() {
    let (tx, rx) = bounded::<InferenceJob<i16>>(2);
    let mut worker = PipelineWorker::<i16>::new(0);
    let frame = vec![1i16; 320];
    for _ in 0..29 {
        let job = worker.handle_frame(&frame, false, false);
        assert!(job.is_none());
    }
    let job = worker.handle_frame(&frame, false, false);
    assert!(worker.is_awaiting_offer());
    offer(&mut worker, &tx, job);
    let sent = rx.try_recv().unwrap();
    assert_eq!(sent.window_start_sample, 0);
    assert_eq!(sent.window_end_sample, 9600);
    assert_eq!(sent.samples.len(), 9600);
    assert!(!sent.is_final);
    assert_eq!(sent.generation, 0);
    assert_eq!(worker.next_sample(), 9600);
}

#[test]
fn worker_defers_finalization_until_result() {
    let (tx, rx) = bounded::<InferenceJob<i16>>(2);
    let mut worker = PipelineWorker::<i16>::new(0);
    let frame = vec![1i16; 320];
    for _ in 0..30 {
        let job = worker.handle_frame(&frame, false, false);
        offer(&mut worker, &tx, job);
    }
    let interim = rx.try_recv().unwrap();
    let job = worker.handle_finalize_request();
    assert!(job.is_none());
    let mut status = DictationStatus::default();
    let result = InferenceResult {
        job: interim,
        output: Ok(output("hi", vec![("hi", 0, 100)], 1)),
    };
    let (fx, job) = worker.handle_result(&mut status, result);
    assert!(fx.is_some());
    offer(&mut worker, &tx, job);
    let final_job = rx.try_recv().unwrap();
    assert!(final_job.is_final);
    assert_eq!(final_job.window_end_sample, 9600);
}

#[test]
fn worker_ignores_results_of_an_earlier_generation() {
    let (tx, rx) = bounded::<InferenceJob<i16>>(2);
    let mut worker = PipelineWorker::<i16>::new(0);
    let frame = vec![1i16; 320];
    for _ in 0..30 {
        let job = worker.handle_frame(&frame, false, false);
        offer(&mut worker, &tx, job);
    }
    let interim = rx.try_recv().unwrap();
    worker.reset(1);
    assert_eq!(worker.generation(), 1);
    let mut status = DictationStatus::default();
    let result = InferenceResult { job: interim, output: Ok(output("hi", vec![("hi", 0, 100)], 1)) };
    let (fx, job) = worker.handle_result(&mut status, result);
    assert!(fx.is_none());
    assert!(job.is_none());
    assert_eq!(status.partial_text, "");
}

#[test]
fn worker_without_speech_sends_no_interim_job() {
    let (tx, rx) = bounded::<InferenceJob<i16>>(2);
    let mut worker = PipelineWorker::<i16>::new(0);
    let frame = vec![0i16; 320];
    for _ in 0..100 {
        let job = worker.handle_frame(&frame, false, true);
        assert!(job.is_none());
    }
    assert!(rx.try_recv().is_err());
    // A finalization request still sends what the buffer holds.
    let job = worker.handle_finalize_request();
    offer(&mut worker, &tx, job);
    let final_job = rx.try_recv().unwrap();
    assert!(final_job.is_final);
    assert_eq!(final_job.window_end_sample, 32000);
    assert_eq!(final_job.samples.len(), 32000);
}

#[test]
fn worker_finalizes_after_silence() {
    let (tx, rx) = bounded::<InferenceJob<i16>>(4);
    let mut worker = PipelineWorker::<i16>::new(7);
    let frame = vec![1i16; 320];
    for _ in 0..30 {
        let job = worker.handle_frame(&frame, true, true);
        offer(&mut worker, &tx, job);
    }
    let interim = rx.try_recv().unwrap();
    assert_eq!(interim.generation, 7);
    let mut status = DictationStatus::default();
    let result = InferenceResult { job: interim, output: Ok(output("hi", vec![("hi", 0, 100)], 1)) };
    let (_, job) = worker.handle_result(&mut status, result);
    assert!(job.is_none());
    // 500 ms into the silence another interim job goes out; at 900 ms of
    // silence the finalization waits for it.
    for _ in 0..45 {
        let job = worker.handle_frame(&frame, false, true);
        offer(&mut worker, &tx, job);
    }
    let second = rx.try_recv().unwrap();
    assert!(!second.is_final);
    assert_eq!(second.window_end_sample, 9600 + 25 * 320);
    assert!(rx.try_recv().is_err());
    let result = InferenceResult { job: second, output: Ok(output("hi", vec![("hi", 0, 100)], 1)) };
    let (_, job) = worker.handle_result(&mut status, result);
    offer(&mut worker, &tx, job);
    let final_job = rx.try_recv().unwrap();
    assert!(final_job.is_final);
    assert_eq!(final_job.generation, 7);
    assert_eq!(final_job.window_end_sample, 9600 + 45 * 320);
}

#[test]
fn idle_frames_drop_the_utterance() {
    let (tx, rx) = bounded::<InferenceJob<i16>>(2);
    let mut worker = PipelineWorker::<i16>::new(0);
    let frame = vec![1i16; 320];
    for _ in 0..10 {
        let job = worker.handle_frame(&frame, false, false);
        offer(&mut worker, &tx, job);
    }
    worker.handle_idle_frame();
    let job = worker.handle_finalize_request();
    assert!(job.is_none());
    assert!(rx.try_recv().is_err());
}

#[test]
fn refused_interim_job_leaves_nothing_under_way() {
    let mut worker = PipelineWorker::<i16>::new(3);
    let frame = vec![1i16; 320];
    for _ in 0..29 {
        assert!(worker.handle_frame(&frame, false, false).is_none());
    }
    let interim = worker.handle_frame(&frame, false, false).unwrap();
    assert!(!interim.is_final);
    assert_eq!(interim.generation, 3);
    // The channel is full: the job is refused and no transcription is under
    // way, so a finalization request is not deferred.
    assert!(worker.job_offered(false).is_none());
    assert!(!worker.is_awaiting_offer());
    let final_job = worker.handle_finalize_request().unwrap();
    assert!(final_job.is_final);
    assert_eq!(final_job.window_end_sample, 9600);
    assert_eq!(final_job.generation, 3);
}

#[test]
fn refused_final_job_ends_the_utterance() {
    let mut worker = PipelineWorker::<i16>::new(0);
    let frame = vec![1i16; 320];
    for _ in 0..29 {
        assert!(worker.handle_frame(&frame, false, false).is_none());
    }
    assert!(worker.handle_finalize_request().is_some());
    assert!(worker.job_offered(false).is_none());
    // The audio was dropped: nothing is left to finalize.
    assert!(worker.handle_finalize_request().is_none());
    assert_eq!(worker.next_sample(), 29 * 320);
}

#[test]
fn accepted_final_job_waits_for_its_result() {
    let mut worker = PipelineWorker::<i16>::new(0);
    let frame = vec![1i16; 320];
    for _ in 0..29 {
        assert!(worker.handle_frame(&frame, false, false).is_none());
    }
    let final_job = worker.handle_finalize_request().unwrap();
    assert!(worker.job_offered(true).is_none());
    // A second request waits for the first final job's result.
    assert!(worker.handle_finalize_request().is_none());
    let mut status = DictationStatus::default();
    let result = InferenceResult { job: final_job, output: Ok(output("done", vec![("done", 0, 300)], 1)) };
    let (fx, job) = worker.handle_result(&mut status, result);
    assert!(fx.is_some());
    assert_eq!(status.finalized_text, "done");
    // The buffer was cleared when the final result came in, so the deferred
    // request has nothing to send.
    assert!(job.is_none());
}
