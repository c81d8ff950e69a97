use vstd::prelude::*;
use webrtc_vad::Vad;
use crate::types::FRAME_SAMPLES;

verus! {

/// Whether a frame holds speech.
#[derive(Debug, Clone, Copy)]
pub struct VadDecision {
    pub speech: bool,
}

#[verifier::external_type_specification]
#[verifier::external_body]
pub struct ExVad(Vad);

/// `webrtc_vad::Vad::is_voice_segment`: the detector's verdict on a frame of
/// 16-bit samples, or an error for a frame length it does not take. The
/// verdict depends on the detector's state from earlier frames, so nothing is
/// stated of it. It reads the first sample, so the frame must not be empty.
#[verifier::external_body]
fn is_voice_segment(vad: &mut Vad, pcm: &[i16]) -> (r: Result<bool, ()>)
    requires
        pcm@.len() > 0,
{
    vad.is_voice_segment(pcm)
}

/// A frame is speech when the detector says so (an error counts as no) or
/// when it is loud.
pub fn combine_verdict(verdict: Result<bool, ()>, loud: bool) -> (r: bool)
    ensures
        r == (verdict == Ok::<bool, ()>(true) || loud),
{
    let voiced = match verdict {
        Ok(v) => v,
        Err(()) => false,
    };
    voiced || loud
}

/// Decide whether a frame holds speech. `pcm` is the frame as 16-bit
/// samples, `above_floor` whether its energy is above the quiet floor and
/// `loud` whether it is clearly loud. Without detection, or for a frame that
/// is not exactly one capture frame long, the energy floor decides;
/// otherwise the detector decides, and a loud frame is speech regardless.
pub fn speech_verdict(
    vad: &mut Vad,
    pcm: &[i16],
    enabled: bool,
    above_floor: bool,
    loud: bool,
) -> (r: VadDecision)
    ensures
        !enabled || pcm@.len() != FRAME_SAMPLES ==> r.speech == above_floor,
        enabled && pcm@.len() == FRAME_SAMPLES && loud ==> r.speech,
{
    if !enabled {
        return VadDecision { speech: above_floor };
    }
    if pcm.len() != FRAME_SAMPLES {
        return VadDecision { speech: above_floor };
    }
    let verdict = is_voice_segment(vad, pcm);
    VadDecision { speech: combine_verdict(verdict, loud) }
}

} // verus!
