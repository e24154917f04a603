//! The pipeline driver: from batches of captured samples to messages.
//!
//! A batch goes into the chunk buffer; every full frame that comes out is
//! resampled to the target rate, measured, converted to PCM for the
//! classifier, and handed to the segmenter with the verdict and the energy.
use vstd::prelude::*;
use crate::chunk_buffer::{after_drain, drained_frames, ChunkBuffer};
use crate::classifier::{classify, is_classifier_frame_len};
use crate::config::{frame_len_spec, ConfigError, SegmenterConfig};
use crate::energy::{calculate_energy, energy_of};
use crate::resample::{blends_all, is_resampled, resample, resampled_len};
use crate::sample::f32_to_i16;
use crate::segmenter::{
    next_audio, next_state, speech_detected, step_view, Segmenter, StepOutcome, StepView,
};
use crate::state::SpeechState;

verus! {

/// What became of one frame.
pub struct FrameReport {
    /// The classifier's verdict.
    pub is_voice: bool,
    /// The energy of the frame.
    pub energy: u32,
    /// What the segmenter did.
    pub outcome: StepOutcome,
    /// The frame as the segmenter got it, at the target rate.
    pub frame: Ghost<Seq<u32>>,
}

/// The mathematical content of a [`FrameReport`].
pub struct ReportView {
    pub is_voice: bool,
    pub energy: u32,
    pub outcome: StepView,
    pub frame: Seq<u32>,
}

impl View for FrameReport {
    type V = ReportView;

    open spec fn view(&self) -> ReportView {
        ReportView {
            is_voice: self.is_voice,
            energy: self.energy,
            outcome: self.outcome@,
            frame: self.frame@,
        }
    }
}

/// The contents of a list of reports, in order.
pub open spec fn report_views(reports: Seq<FrameReport>) -> Seq<ReportView> {
    Seq::new(reports.len(), |i: int| reports[i]@)
}

/// The report is the one that the frame in it gives, when the segmenter has
/// the counters `s` and keeps the audio `audio`: the energy is that of the
/// frame, a frame holds no voice where it is empty or of a length that the
/// classifier takes at none of its sample rates, and the outcome is the step
/// of the segmenter for this verdict and energy.
pub open spec fn report_follows(
    cfg: SegmenterConfig,
    s: SpeechState,
    audio: Seq<u32>,
    report: ReportView,
) -> bool {
    &&& report.energy == energy_of(report.frame)
    &&& report.frame.len() == 0 ==> !report.is_voice
    &&& !is_classifier_frame_len(report.frame.len()) ==> !report.is_voice
    &&& report.outcome == step_view(
        cfg,
        s,
        audio,
        report.frame,
        speech_detected(cfg, report.is_voice, report.energy),
        report.energy,
    )
}

/// The counters after the frames that `reports` tell of.
pub open spec fn state_after_reports(
    cfg: SegmenterConfig,
    s: SpeechState,
    reports: Seq<ReportView>,
) -> SpeechState
    decreases reports.len(),
{
    if reports.len() == 0 {
        s
    } else {
        let last = reports.last();
        next_state(
            cfg,
            state_after_reports(cfg, s, reports.drop_last()),
            speech_detected(cfg, last.is_voice, last.energy),
            last.energy,
        )
    }
}

/// The audio kept after the frames that `reports` tell of.
pub open spec fn audio_after_reports(
    cfg: SegmenterConfig,
    s: SpeechState,
    audio: Seq<u32>,
    reports: Seq<ReportView>,
) -> Seq<u32>
    decreases reports.len(),
{
    if reports.len() == 0 {
        audio
    } else {
        let last = reports.last();
        next_audio(
            cfg,
            state_after_reports(cfg, s, reports.drop_last()),
            audio_after_reports(cfg, s, audio, reports.drop_last()),
            last.frame,
            speech_detected(cfg, last.is_voice, last.energy),
            last.energy,
        )
    }
}

/// Classifies and measures one frame at the target rate and hands it to the
/// segmenter.
pub fn process_frame(
    segmenter: &mut Segmenter,
    vad: &mut webrtc_vad::Vad,
    frame: Vec<u32>,
) -> (report: FrameReport)
    requires
        old(segmenter).wf(),
    ensures
        final(segmenter).wf(),
        final(segmenter).config_spec() == old(segmenter).config_spec(),
        report@.frame == frame@,
        report_follows(
            old(segmenter).config_spec(),
            old(segmenter).state_spec(),
            old(segmenter).audio_spec(),
            report@,
        ),
        final(segmenter).state_spec() == next_state(
            old(segmenter).config_spec(),
            old(segmenter).state_spec(),
            speech_detected(old(segmenter).config_spec(), report.is_voice, report.energy),
            report.energy,
        ),
        final(segmenter).audio_spec() == next_audio(
            old(segmenter).config_spec(),
            old(segmenter).state_spec(),
            old(segmenter).audio_spec(),
            frame@,
            speech_detected(old(segmenter).config_spec(), report.is_voice, report.energy),
            report.energy,
        ),
{
    let ghost samples = frame@;
    let pcm = f32_to_i16(frame.as_slice());
    let is_voice = classify(vad, pcm.as_slice());
    let energy = calculate_energy(frame.as_slice());
    let outcome = segmenter.step(frame, is_voice, energy);
    FrameReport { is_voice, energy, outcome, frame: Ghost(samples) }
}

/// Why a pipeline could not be set up.
#[derive(Clone, Copy, Debug, PartialEq, Eq, Structural)]
pub enum PipelineError {
    /// The segmenter's configuration has a fault.
    Config(ConfigError),
    /// At the capture rate a frame holds no sample.
    EmptyCaptureFrame,
    /// A frame holds more samples than `usize` can count.
    FrameTooLong,
}

/// The first fault of a pipeline that captures at `capture_rate`.
pub open spec fn pipeline_fault(config: SegmenterConfig, capture_rate: u32) -> Option<
    PipelineError,
> {
    let capture_len = frame_len_spec(capture_rate, config.frame_ms);
    if config.fault() is Some {
        Some(PipelineError::Config(config.fault().unwrap()))
    } else if capture_len == 0 {
        Some(PipelineError::EmptyCaptureFrame)
    } else if capture_len > usize::MAX || resampled_len(
        capture_len,
        capture_rate,
        config.sample_rate,
    ) > usize::MAX {
        Some(PipelineError::FrameTooLong)
    } else {
        None
    }
}

/// The chunk buffer and the segmenter, with the rate of the capture device.
pub struct Pipeline {
    buffer: ChunkBuffer,
    segmenter: Segmenter,
    capture_rate: u32,
    capture_frame_len: usize,
}

impl Pipeline {
    /// The pending samples at the capture rate.
    pub closed spec fn buffer_spec(&self) -> Seq<u32> {
        self.buffer@
    }

    /// The segmenter.
    pub closed spec fn segmenter_spec(&self) -> Segmenter {
        self.segmenter
    }

    /// The rate of the capture device.
    pub closed spec fn capture_rate_spec(&self) -> u32 {
        self.capture_rate
    }

    /// The number of samples of a frame at the capture rate.
    pub closed spec fn capture_frame_len_spec(&self) -> nat {
        self.capture_frame_len as nat
    }

    /// The configuration of the segmenter.
    pub open spec fn config_spec(&self) -> SegmenterConfig {
        self.segmenter_spec().config_spec()
    }

    /// The pipeline is between two batches.
    pub open spec fn wf(&self) -> bool {
        &&& self.segmenter_spec().wf()
        &&& pipeline_fault(self.config_spec(), self.capture_rate_spec()) is None
        &&& self.capture_frame_len_spec() == frame_len_spec(
            self.capture_rate_spec(),
            self.config_spec().frame_ms,
        )
    }

    /// A pipeline with nothing pending and an idle segmenter, or the first
    /// fault of what was asked for.
    pub fn new(config: SegmenterConfig, capture_rate: u32) -> (r: Result<Pipeline, PipelineError>)
        ensures
            r is Ok <==> pipeline_fault(config, capture_rate) is None,
            r matches Err(e) ==> pipeline_fault(config, capture_rate) == Some(e),
            r matches Ok(pipeline) ==> {
                &&& pipeline.wf()
                &&& pipeline.config_spec() == config
                &&& pipeline.capture_rate_spec() == capture_rate
                &&& pipeline.buffer_spec() == Seq::<u32>::empty()
                &&& pipeline.segmenter_spec().state_spec() == SpeechState::idle()
                &&& pipeline.segmenter_spec().audio_spec() == Seq::<u32>::empty()
            },
    {
        let segmenter = match Segmenter::new(config) {
            Ok(segmenter) => segmenter,
            Err(e) => {
                return Err(PipelineError::Config(e));
            },
        };
        assert(capture_rate * config.frame_ms <= 0xffff_ffff * 0xffff_ffff) by (nonlinear_arith)
            requires
                capture_rate <= 0xffff_ffff,
                config.frame_ms <= 0xffff_ffff,
        ;
        let capture_len: u64 = ((capture_rate as u64) * (config.frame_ms as u64)) / 1000;
        if capture_len == 0 {
            return Err(PipelineError::EmptyCaptureFrame);
        }
        if capture_len > usize::MAX as u64 {
            return Err(PipelineError::FrameTooLong);
        }
        assert(capture_rate > 0) by (nonlinear_arith)
            requires
                capture_rate * config.frame_ms >= 1000,
        ;
        if capture_rate != config.sample_rate {
            assert(capture_len * config.sample_rate <= 0xffff_ffff_ffff_ffff * 0xffff_ffff)
                by (nonlinear_arith)
                requires
                    capture_len <= 0xffff_ffff_ffff_ffff,
                    config.sample_rate <= 0xffff_ffff,
            ;
            let target_len: u128 = ((capture_len as u128) * (config.sample_rate as u128)) / (
            capture_rate as u128);
            if target_len > usize::MAX as u128 {
                return Err(PipelineError::FrameTooLong);
            }
        }
        Ok(
            Pipeline {
                buffer: ChunkBuffer::new(),
                segmenter,
                capture_rate,
                capture_frame_len: capture_len as usize,
            },
        )
    }

    /// The segmenter, to look at.
    pub fn segmenter(&self) -> (segmenter: &Segmenter)
        ensures
            *segmenter == self.segmenter_spec(),
    {
        &self.segmenter
    }

    /// Number of samples still waiting for a full frame.
    pub fn pending(&self) -> (n: usize)
        ensures
            n == self.buffer_spec().len(),
    {
        self.buffer.len()
    }

    /// Number of samples of a frame at the capture rate.
    pub fn capture_frame_len(&self) -> (n: usize)
        ensures
            n == self.capture_frame_len_spec(),
    {
        self.capture_frame_len
    }

    /// Takes in a batch of captured samples and processes every full frame
    /// that is then pending, in order. The reports come one for each frame.
    pub fn process_batch<F: Fn(u32, u32, u32, u32) -> u32>(
        &mut self,
        vad: &mut webrtc_vad::Vad,
        batch: &[u32],
        blend: &F,
    ) -> (reports: Vec<FrameReport>)
        requires
            old(self).wf(),
            blends_all(*blend),
        ensures
            final(self).wf(),
            final(self).config_spec() == old(self).config_spec(),
            final(self).capture_rate_spec() == old(self).capture_rate_spec(),
            final(self).buffer_spec() == after_drain(
                old(self).buffer_spec() + batch@,
                old(self).capture_frame_len_spec(),
            ),
            reports@.len() == (old(self).buffer_spec() + batch@).len()
                / old(self).capture_frame_len_spec(),
            forall|k: int|
                0 <= k < reports@.len() ==> is_resampled(
                    drained_frames(
                        old(self).buffer_spec() + batch@,
                        old(self).capture_frame_len_spec(),
                    )[k],
                    old(self).capture_rate_spec(),
                    old(self).config_spec().sample_rate,
                    *blend,
                    (#[trigger] reports@[k])@.frame,
                ),
            forall|k: int|
                0 <= k < reports@.len() ==> report_follows(
                    old(self).config_spec(),
                    state_after_reports(
                        old(self).config_spec(),
                        old(self).segmenter_spec().state_spec(),
                        report_views(reports@).take(k),
                    ),
                    audio_after_reports(
                        old(self).config_spec(),
                        old(self).segmenter_spec().state_spec(),
                        old(self).segmenter_spec().audio_spec(),
                        report_views(reports@).take(k),
                    ),
                    (#[trigger] reports@[k])@,
                ),
            final(self).segmenter_spec().state_spec() == state_after_reports(
                old(self).config_spec(),
                old(self).segmenter_spec().state_spec(),
                report_views(reports@),
            ),
            final(self).segmenter_spec().audio_spec() == audio_after_reports(
                old(self).config_spec(),
                old(self).segmenter_spec().state_spec(),
                old(self).segmenter_spec().audio_spec(),
                report_views(reports@),
            ),
    {
        let ghost cfg = self.config_spec();
        let ghost s0 = self.segmenter.state_spec();
        let ghost a0 = self.segmenter.audio_spec();
        let ghost pending = self.buffer@ + batch@;
        let capture_rate = self.capture_rate;
        let target_rate = self.segmenter.config().sample_rate;
        let frame_len = self.capture_frame_len;

        self.buffer.push(batch);
        let frames = self.buffer.drain_frames(frame_len);
        let n = frames.len();
        let mut reports: Vec<FrameReport> = Vec::new();
        let mut k: usize = 0;
        proof {
            assert(report_views(reports@).take(0) =~= report_views(reports@));
        }
        while k < n
            invariant
                n == frames@.len(),
                k <= n,
                reports@.len() == k,
                blends_all(*blend),
                self.segmenter.wf(),
                self.segmenter.config_spec() == cfg,
                self.capture_rate == capture_rate,
                self.capture_frame_len == frame_len,
                self.buffer@ == after_drain(pending, frame_len as nat),
                target_rate == cfg.sample_rate,
                pipeline_fault(cfg, capture_rate) is None,
                frame_len == frame_len_spec(capture_rate, cfg.frame_ms),
                forall|j: int| 0 <= j < n ==> (#[trigger] frames@[j])@.len() == frame_len,
                forall|j: int|
                    0 <= j < n ==> (#[trigger] frames@[j])@ == drained_frames(
                        pending,
                        frame_len as nat,
                    )[j],
                forall|j: int|
                    0 <= j < k ==> is_resampled(
                        drained_frames(pending, frame_len as nat)[j],
                        capture_rate,
                        target_rate,
                        *blend,
                        (#[trigger] reports@[j])@.frame,
                    ),
                forall|j: int|
                    0 <= j < k ==> report_follows(
                        cfg,
                        state_after_reports(cfg, s0, report_views(reports@).take(j)),
                        audio_after_reports(cfg, s0, a0, report_views(reports@).take(j)),
                        (#[trigger] reports@[j])@,
                    ),
                self.segmenter.state_spec() == state_after_reports(cfg, s0, report_views(reports@)),
                self.segmenter.audio_spec() == audio_after_reports(
                    cfg,
                    s0,
                    a0,
                    report_views(reports@),
                ),
            decreases n - k,
        {
            let ghost before = report_views(reports@);
            let chunk = resample(frames[k].as_slice(), capture_rate, target_rate, blend);
            let report = process_frame(&mut self.segmenter, vad, chunk);
            let ghost view = report@;
            reports.push(report);
            proof {
                let after = report_views(reports@);
                assert(after.drop_last() =~= before);
                assert(after.last() == view);
                assert(after.take(k as int) =~= before);
                assert forall|j: int| 0 <= j < k + 1 implies report_follows(
                    cfg,
                    state_after_reports(cfg, s0, after.take(j)),
                    audio_after_reports(cfg, s0, a0, after.take(j)),
                    (#[trigger] reports@[j])@,
                ) by {
                    if j < k {
                        assert(after.take(j) =~= before.take(j));
                    }
                }
            }
            k += 1;
        }
        reports
    }
}

} // verus!
