use webrtc_vad::{SampleRate, Vad, VadMode};
use whispering::audio::{push_into_frames, supports_capture};
use whispering::types::FRAME_SAMPLES;
use whispering::vad::{combine_verdict, speech_verdict};

#[test]
fn capture_needs_mono_at_sixteen_khz() {
    assert!(supports_capture(1, 8000, 48000));
    assert!(supports_capture(1, 16000, 16000));
    assert!(!supports_capture(2, 8000, 48000));
    assert!(!supports_capture(1, 22050, 48000));
    assert!(!supports_capture(1, 8000, 11025));
}

#[test]
fn samples_are_cut_into_frames() {
    let mut frame: Vec<u16> = (0..300).collect();
    let incoming: Vec<u16> = (300..1000).collect();
    let frames = push_into_frames(&mut frame, &incoming);
    assert_eq!(frames.len(), 3);
    assert_eq!(frames[0], (0..320).collect::<Vec<u16>>());
    assert_eq!(frames[2], (640..960).collect::<Vec<u16>>());
    assert_eq!(frame, (960..1000).collect::<Vec<u16>>());
    let none = push_into_frames(&mut frame, &[1, 2]);
    assert!(none.is_empty());
    assert_eq!(frame.len(), 42);
}

#[test]
fn verdicts_combine_detector_and_loudness() {
    assert!(combine_verdict(Ok(true), false));
    assert!(!combine_verdict(Ok(false), false));
    assert!(!combine_verdict(Err(()), false));
    assert!(combine_verdict(Err(()), true));
}

#[test]
fn energy_decides_without_detection() {
    let mut vad = Vad::new_with_rate_and_mode(SampleRate::Rate16kHz, VadMode::Aggressive);
    let pcm = vec![0i16; FRAME_SAMPLES];
    assert!(speech_verdict(&mut vad, &pcm, false, true, false).speech);
    assert!(!speech_verdict(&mut vad, &pcm, false, false, true).speech);
    let short = vec![0i16; 160];
    assert!(speech_verdict(&mut vad, &short, true, true, false).speech);
    assert!(!speech_verdict(&mut vad, &short, true, false, true).speech);
    assert!(speech_verdict(&mut vad, &pcm, true, false, true).speech);
    assert!(!speech_verdict(&mut vad, &pcm, true, true, false).speech);
}
