//! The voice-activity classifier: the `webrtc_vad` crate behind a verdict
//! that never fails.
use vstd::prelude::*;

verus! {

/// The classifier of `webrtc_vad`, carried through unread: it keeps a model
/// of the background noise that every call updates.
#[verifier::external_type_specification]
#[verifier::external_body]
pub struct ExVad(webrtc_vad::Vad);

/// The lengths of the frames that the classifier takes at one of its sample
/// rates: 10, 20 or 30 milliseconds at 8, 16, 32 or 48 kilohertz.
pub open spec fn is_classifier_frame_len(len: nat) -> bool {
    ||| len == 80
    ||| len == 160
    ||| len == 240
    ||| len == 320
    ||| len == 480
    ||| len == 640
    ||| len == 960
    ||| len == 1440
}

/// `webrtc_vad::Vad::is_voice_segment`: the call reads the first sample of
/// the frame before anything else, so the frame must not be empty. A frame
/// whose length the classifier takes at none of its sample rates is refused
/// with an error. The verdict on another frame depends on the rate that the
/// classifier was set to and on what it has heard before; nothing is claimed
/// about it.
#[verifier::external_body]
fn is_voice_segment(vad: &mut webrtc_vad::Vad, pcm: &[i16]) -> (r: Result<bool, ()>)
    requires
        pcm@.len() > 0,
    ensures
        !is_classifier_frame_len(pcm@.len()) ==> r is Err,
{
    vad.is_voice_segment(pcm)
}

/// What the segmenter takes a classification for: a voice only where the
/// classifier said so. A failure counts as no voice.
pub open spec fn verdict_spec(classified: Result<bool, ()>) -> bool {
    classified == Ok::<bool, ()>(true)
}

/// Turns the classifier's answer into a verdict.
pub fn verdict_of(classified: Result<bool, ()>) -> (is_voice: bool)
    ensures
        is_voice == verdict_spec(classified),
{
    match classified {
        Ok(voiced) => voiced,
        Err(_) => false,
    }
}

/// Asks the classifier whether the frame holds a voice. An empty frame holds
/// none, and a frame that the classifier refuses counts as holding none: so
/// does every frame whose length the classifier takes at none of its sample
/// rates.
pub fn classify(vad: &mut webrtc_vad::Vad, pcm: &[i16]) -> (is_voice: bool)
    ensures
        pcm@.len() == 0 ==> !is_voice,
        !is_classifier_frame_len(pcm@.len()) ==> !is_voice,
{
    if pcm.len() == 0 {
        false
    } else {
        verdict_of(is_voice_segment(vad, pcm))
    }
}

} // verus!
