//! Static configuration of the segmentation pipeline.
//!
//! Energies are fixed-point numbers: millionths of full scale, so that
//! `10_000` stands for a loudness of `0.01`.
use vstd::prelude::*;

verus! {

/// What the segmenter does with the audio of an utterance.
#[derive(Clone, Copy, Debug, PartialEq, Eq, Structural)]
pub enum Mode {
    /// Every frame of an utterance is emitted as it arrives, and an end
    /// marker follows the last one.
    Streaming,
    /// The frames of an utterance are kept and emitted in one request when it
    /// ends, unless it lasted less than `min_utterance_ms`.
    Batch { min_utterance_ms: u32 },
}

/// Why a configuration was refused.
#[derive(Clone, Copy, Debug, PartialEq, Eq, Structural)]
pub enum ConfigError {
    /// `frame_ms` is zero.
    ZeroFrameDuration,
    /// `onset_threshold_frames` is zero.
    ZeroOnsetThreshold,
    /// `silence_threshold_frames` is zero.
    ZeroSilenceThreshold,
}

/// The thresholds that steer the segmenter.
#[derive(Clone, Copy, Debug, PartialEq, Eq, Structural)]
pub struct SegmenterConfig {
    /// Rate of the frames handed to the segmenter, in hertz.
    pub sample_rate: u32,
    /// Duration of one frame in milliseconds.
    pub frame_ms: u32,
    /// Least energy of a frame, and least average energy of an utterance.
    pub min_energy: u32,
    /// Consecutive speech frames that start an utterance.
    pub onset_threshold_frames: u32,
    /// Consecutive frames without speech that end an utterance.
    pub silence_threshold_frames: u32,
    /// Duration at which an utterance ends whatever is heard.
    pub max_utterance_ms: u32,
    /// Streaming or batch operation.
    pub mode: Mode,
}

impl SegmenterConfig {
    /// The first fault of the configuration, if it has one.
    pub open spec fn fault(&self) -> Option<ConfigError> {
        if self.frame_ms == 0 {
            Some(ConfigError::ZeroFrameDuration)
        } else if self.onset_threshold_frames == 0 {
            Some(ConfigError::ZeroOnsetThreshold)
        } else if self.silence_threshold_frames == 0 {
            Some(ConfigError::ZeroSilenceThreshold)
        } else {
            None
        }
    }

    /// A configuration is valid when its frame duration and its two debounce
    /// thresholds are positive.
    pub open spec fn valid(&self) -> bool {
        &&& self.frame_ms > 0
        &&& self.onset_threshold_frames > 0
        &&& self.silence_threshold_frames > 0
    }

    /// Checks the configuration and names its first fault.
    pub fn validate(&self) -> (r: Result<(), ConfigError>)
        ensures
            r is Ok <==> self.valid(),
            r matches Err(e) ==> self.fault() == Some(e),
    {
        if self.frame_ms == 0 {
            Err(ConfigError::ZeroFrameDuration)
        } else if self.onset_threshold_frames == 0 {
            Err(ConfigError::ZeroOnsetThreshold)
        } else if self.silence_threshold_frames == 0 {
            Err(ConfigError::ZeroSilenceThreshold)
        } else {
            Ok(())
        }
    }
}

/// Number of samples in a frame of `frame_ms` milliseconds at `sample_rate`.
pub open spec fn frame_len_spec(sample_rate: u32, frame_ms: u32) -> nat {
    ((sample_rate * frame_ms) / 1000) as nat
}

/// Number of samples in a frame of `frame_ms` milliseconds at `sample_rate`.
pub fn frame_len(sample_rate: u32, frame_ms: u32) -> (n: usize)
    requires
        frame_len_spec(sample_rate, frame_ms) <= usize::MAX,
    ensures
        n == frame_len_spec(sample_rate, frame_ms),
{
    assert(sample_rate * frame_ms <= 0xffff_ffff * 0xffff_ffff) by (nonlinear_arith)
        requires
            sample_rate <= 0xffff_ffff,
            frame_ms <= 0xffff_ffff,
    ;
    (((sample_rate as u64) * (frame_ms as u64)) / 1000) as usize
}

/// Number of whole frames of `frame_ms` milliseconds in `duration_ms`.
pub fn frames_in(duration_ms: u32, frame_ms: u32) -> (n: u32)
    requires
        frame_ms > 0,
    ensures
        n == duration_ms / frame_ms,
{
    duration_ms / frame_ms
}

} // verus!
