use vstd::prelude::*;
use crate::types::{FRAME_SAMPLES, SAMPLE_RATE};

verus! {

/// A capture configuration range is usable when it is mono and its sample
/// rates include 16 kHz.
pub fn supports_capture(channels: u16, min_sample_rate: u32, max_sample_rate: u32) -> (r: bool)
    ensures
        r == (channels == 1 && min_sample_rate <= SAMPLE_RATE && max_sample_rate >= SAMPLE_RATE),
{
    channels == 1 && min_sample_rate <= SAMPLE_RATE && max_sample_rate >= SAMPLE_RATE
}

/// Add captured samples to the frame being filled; every time it reaches
/// `FRAME_SAMPLES` samples it is handed out and a new one begins. The frames
/// handed out, followed by the frame still being filled, are exactly the
/// earlier partial frame followed by the new samples.
pub fn push_into_frames<T: Copy>(frame: &mut Vec<T>, samples: &[T]) -> (r: Vec<Vec<T>>)
    requires
        old(frame)@.len() < FRAME_SAMPLES,
    ensures
        final(frame)@.len() < FRAME_SAMPLES,
        old(frame)@.len() + samples@.len() == FRAME_SAMPLES * r@.len() + final(frame)@.len(),
        forall|i: int|
            0 <= i < r@.len() ==> (#[trigger] r@[i])@ == (old(frame)@ + samples@).subrange(
                FRAME_SAMPLES * i,
                FRAME_SAMPLES * i + FRAME_SAMPLES,
            ),
        final(frame)@ == (old(frame)@ + samples@).skip(FRAME_SAMPLES * r@.len()),
{
    let ghost whole = old(frame)@ + samples@;
    let ghost f0 = old(frame)@;
    let mut out: Vec<Vec<T>> = Vec::new();
    let mut i: usize = 0;
    while i < samples.len()
        invariant
            i <= samples.len(),
            whole == f0 + samples@,
            frame@.len() < FRAME_SAMPLES,
            f0.len() + i == FRAME_SAMPLES * out@.len() + frame@.len(),
            forall|k: int|
                0 <= k < out@.len() ==> (#[trigger] out@[k])@ == whole.subrange(
                    FRAME_SAMPLES * k,
                    FRAME_SAMPLES * k + FRAME_SAMPLES,
                ),
            frame@ == whole.subrange(FRAME_SAMPLES * out@.len(), f0.len() + i),
        decreases samples.len() - i,
    {
        frame.push(samples[i]);
        proof {
            assert(whole[f0.len() + i] == samples@[i as int]);
            assert(frame@ =~= whole.subrange(FRAME_SAMPLES * out@.len(), f0.len() + i + 1));
        }
        if frame.len() == FRAME_SAMPLES {
            let mut ready: Vec<T> = Vec::with_capacity(FRAME_SAMPLES);
            std::mem::swap(&mut ready, frame);
            out.push(ready);
        }
        i += 1;
    }
    proof {
        assert(whole.subrange(FRAME_SAMPLES * out@.len(), whole.len() as int) =~= whole.skip(
            FRAME_SAMPLES * out@.len(),
        ));
    }
    out
}

} // verus!
