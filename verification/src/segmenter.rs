//! The state machine that decides where an utterance starts and ends.
//!
//! Each frame comes with the classifier's verdict and the frame's energy.
//! A run of speech frames starts an utterance; a run of frames without speech
//! ends it, and so does reaching the greatest duration. An utterance that was
//! too quiet on average, or in batch mode too short, is dropped.
use vstd::prelude::*;
use crate::config::{ConfigError, Mode, SegmenterConfig};
use crate::message::{message_views, Message, OutboundMessage};
use crate::state::SpeechState;

verus! {

/// What is known of an utterance when it ends.
#[derive(Clone, Copy, Debug, PartialEq, Eq, Structural)]
pub struct Utterance {
    /// Number of frames.
    pub frames: u32,
    /// Number of frames times the duration of a frame.
    pub duration_ms: u64,
    /// Average energy of the frames, rounded down.
    pub avg_energy: u32,
    /// Whether the utterance passed the guards and was announced.
    pub accepted: bool,
}

/// What one frame did to the segmenter.
pub struct StepOutcome {
    /// Messages to send, in order.
    pub messages: Vec<OutboundMessage>,
    /// An utterance started with this frame.
    pub started: bool,
    /// An utterance ended with this frame.
    pub finalized: Option<Utterance>,
}

/// The mathematical content of a [`StepOutcome`].
pub struct StepView {
    pub messages: Seq<Message>,
    pub started: bool,
    pub finalized: Option<Utterance>,
}

impl View for StepOutcome {
    type V = StepView;

    open spec fn view(&self) -> StepView {
        StepView {
            messages: message_views(self.messages@),
            started: self.started,
            finalized: self.finalized,
        }
    }
}

/// A frame counts as speech when the classifier hears a voice and the frame
/// is loud enough.
pub open spec fn speech_detected(cfg: SegmenterConfig, is_voice: bool, energy: u32) -> bool {
    is_voice && energy >= cfg.min_energy
}

/// The counters after the onset debounce.
pub open spec fn after_onset(cfg: SegmenterConfig, s: SpeechState, detected: bool) -> SpeechState {
    if detected {
        if s.is_speaking {
            SpeechState { silence_count: 0, ..s }
        } else {
            let count = (s.onset_count + 1) as u32;
            SpeechState {
                silence_count: 0,
                onset_count: count,
                is_speaking: count >= cfg.onset_threshold_frames,
                ..s
            }
        }
    } else {
        SpeechState { onset_count: 0, ..s }
    }
}

/// An utterance starts with this frame.
pub open spec fn starts(cfg: SegmenterConfig, s: SpeechState, detected: bool) -> bool {
    !s.is_speaking && after_onset(cfg, s, detected).is_speaking
}

/// The counters after the frame was taken in, before any finalization.
pub open spec fn after_frame(
    cfg: SegmenterConfig,
    s: SpeechState,
    detected: bool,
    energy: u32,
) -> SpeechState {
    let s1 = after_onset(cfg, s, detected);
    if s1.is_speaking {
        SpeechState {
            energy_sum: (s1.energy_sum + energy) as u64,
            chunk_count: (s1.chunk_count + 1) as u32,
            silence_count: if detected {
                s1.silence_count
            } else {
                (s1.silence_count + 1) as u32
            },
            ..s1
        }
    } else {
        s1
    }
}

/// The utterance has reached the greatest duration.
pub open spec fn cap_reached(cfg: SegmenterConfig, s: SpeechState) -> bool {
    s.duration_ms_spec(cfg.frame_ms) >= cfg.max_utterance_ms
}

/// The utterance ends with this frame.
pub open spec fn finalizes(
    cfg: SegmenterConfig,
    s: SpeechState,
    detected: bool,
    energy: u32,
) -> bool {
    let a = after_frame(cfg, s, detected, energy);
    a.is_speaking && ((!detected && a.silence_count >= cfg.silence_threshold_frames)
        || cap_reached(cfg, a))
}

/// The guards at the end of an utterance with the counters `a`: its average
/// energy reaches the threshold and, in batch mode, it lasted long enough.
pub open spec fn accepted(cfg: SegmenterConfig, a: SpeechState) -> bool {
    a.avg_energy_spec() >= cfg.min_energy && match cfg.mode {
        Mode::Streaming => true,
        Mode::Batch { min_utterance_ms } => a.duration_ms_spec(cfg.frame_ms) >= min_utterance_ms,
    }
}

/// The summary of an utterance that ends with the counters `a`.
pub open spec fn utterance_of(cfg: SegmenterConfig, a: SpeechState) -> Utterance {
    Utterance {
        frames: a.chunk_count,
        duration_ms: a.duration_ms_spec(cfg.frame_ms) as u64,
        avg_energy: a.avg_energy_spec() as u32,
        accepted: accepted(cfg, a),
    }
}

/// The counters after the frame.
pub open spec fn next_state(
    cfg: SegmenterConfig,
    s: SpeechState,
    detected: bool,
    energy: u32,
) -> SpeechState {
    if finalizes(cfg, s, detected, energy) {
        SpeechState::idle()
    } else {
        after_frame(cfg, s, detected, energy)
    }
}

/// The audio kept for a batch request after the frame.
pub open spec fn next_audio(
    cfg: SegmenterConfig,
    s: SpeechState,
    audio: Seq<u32>,
    frame: Seq<u32>,
    detected: bool,
    energy: u32,
) -> Seq<u32> {
    if cfg.mode is Batch && after_frame(cfg, s, detected, energy).is_speaking && !finalizes(
        cfg,
        s,
        detected,
        energy,
    ) {
        audio + frame
    } else {
        Seq::empty()
    }
}

/// The messages that the frame gives rise to, in order.
pub open spec fn step_messages(
    cfg: SegmenterConfig,
    s: SpeechState,
    audio: Seq<u32>,
    frame: Seq<u32>,
    detected: bool,
    energy: u32,
) -> Seq<Message> {
    let a = after_frame(cfg, s, detected, energy);
    let announce = finalizes(cfg, s, detected, energy) && accepted(cfg, a);
    if !a.is_speaking {
        Seq::empty()
    } else {
        match cfg.mode {
            Mode::Streaming => {
                let sent = seq![Message::AudioFrame { samples: frame, sample_rate: cfg.sample_rate }];
                if announce {
                    sent.push(Message::UtteranceEnd)
                } else {
                    sent
                }
            },
            Mode::Batch { .. } => {
                if announce {
                    seq![
                        Message::TranscribeRequest {
                            samples: audio + frame,
                            sample_rate: cfg.sample_rate,
                        },
                    ]
                } else {
                    Seq::empty()
                }
            },
        }
    }
}

/// Everything that the frame gives rise to.
pub open spec fn step_view(
    cfg: SegmenterConfig,
    s: SpeechState,
    audio: Seq<u32>,
    frame: Seq<u32>,
    detected: bool,
    energy: u32,
) -> StepView {
    StepView {
        messages: step_messages(cfg, s, audio, frame, detected, energy),
        started: starts(cfg, s, detected),
        finalized: if finalizes(cfg, s, detected, energy) {
            Some(utterance_of(cfg, after_frame(cfg, s, detected, energy)))
        } else {
            None
        },
    }
}

/// The counters `s` are ones that a segmenter with the configuration `cfg`
/// can hold between two frames.
pub open spec fn state_wf(cfg: SegmenterConfig, s: SpeechState) -> bool {
    &&& cfg.valid()
    &&& s.sum_in_range()
    &&& !s.is_speaking ==> {
        &&& s.silence_count == 0
        &&& s.energy_sum == 0
        &&& s.chunk_count == 0
        &&& s.onset_count < cfg.onset_threshold_frames
    }
    &&& s.is_speaking ==> {
        &&& s.chunk_count >= 1
        &&& !cap_reached(cfg, s)
        &&& s.silence_count < cfg.silence_threshold_frames
    }
}


/// The segmenter: its configuration, its counters and, in batch mode, the
/// audio of the utterance in progress.
pub struct Segmenter {
    config: SegmenterConfig,
    state: SpeechState,
    audio: Vec<u32>,
}

impl Segmenter {
    /// The configuration that the segmenter was made with.
    pub closed spec fn config_spec(&self) -> SegmenterConfig {
        self.config
    }

    /// The counters.
    pub closed spec fn state_spec(&self) -> SpeechState {
        self.state
    }

    /// The audio kept for a batch request.
    pub closed spec fn audio_spec(&self) -> Seq<u32> {
        self.audio@
    }

    /// The segmenter is between two frames: its counters fit its
    /// configuration, and it keeps audio only during a batch utterance.
    pub open spec fn wf(&self) -> bool {
        &&& state_wf(self.config_spec(), self.state_spec())
        &&& (self.config_spec().mode is Streaming || !self.state_spec().is_speaking)
            ==> self.audio_spec() == Seq::<u32>::empty()
    }

    /// An idle segmenter, or the first fault of `config`.
    pub fn new(config: SegmenterConfig) -> (r: Result<Segmenter, ConfigError>)
        ensures
            r is Ok <==> config.valid(),
            r matches Ok(seg) ==> {
                &&& seg.wf()
                &&& seg.config_spec() == config
                &&& seg.state_spec() == SpeechState::idle()
                &&& seg.audio_spec() == Seq::<u32>::empty()
            },
            r matches Err(e) ==> config.fault() == Some(e),
    {
        match config.validate() {
            Ok(()) => Ok(Segmenter { config, state: SpeechState::new(), audio: Vec::new() }),
            Err(e) => Err(e),
        }
    }

    /// The configuration that the segmenter was made with.
    pub fn config(&self) -> (cfg: SegmenterConfig)
        ensures
            cfg == self.config_spec(),
    {
        self.config
    }

    /// The counters.
    pub fn state(&self) -> (s: SpeechState)
        ensures
            s == self.state_spec(),
    {
        self.state
    }

    /// Whether an utterance is in progress.
    pub fn is_active(&self) -> (b: bool)
        ensures
            b == self.state_spec().is_speaking,
    {
        self.state.is_speaking
    }

    /// Takes in one frame with the classifier's verdict and its energy.
    pub fn step(&mut self, frame: Vec<u32>, is_voice: bool, energy: u32) -> (outcome: StepOutcome)
        requires
            old(self).wf(),
        ensures
            final(self).wf(),
            final(self).config_spec() == old(self).config_spec(),
            final(self).state_spec() == next_state(
                old(self).config_spec(),
                old(self).state_spec(),
                speech_detected(old(self).config_spec(), is_voice, energy),
                energy,
            ),
            final(self).audio_spec() == next_audio(
                old(self).config_spec(),
                old(self).state_spec(),
                old(self).audio_spec(),
                frame@,
                speech_detected(old(self).config_spec(), is_voice, energy),
                energy,
            ),
            outcome@ == step_view(
                old(self).config_spec(),
                old(self).state_spec(),
                old(self).audio_spec(),
                frame@,
                speech_detected(old(self).config_spec(), is_voice, energy),
                energy,
            ),
    {
        let cfg = self.config;
        let ghost before = self.state;
        let ghost held = self.audio@;
        let mut frame = frame;
        let ghost samples = frame@;
        let detected = is_voice && energy >= cfg.min_energy;
        let mut state = self.state;
        let mut started = false;

        if detected {
            state.silence_count = 0;
            if !state.is_speaking {
                state.onset_count = state.onset_count + 1;
                if state.onset_count >= cfg.onset_threshold_frames {
                    state.start_speaking();
                    started = true;
                }
            }
        } else {
            state.onset_count = 0;
        }
        assert(state == after_onset(cfg, before, detected));

        let mut messages: Vec<OutboundMessage> = Vec::new();
        let mut finalized: Option<Utterance> = None;
        if state.is_speaking {
            proof {
                lemma_room_for_frame(cfg, before, detected);
            }
            state.add_chunk(energy);
            match cfg.mode {
                Mode::Streaming => {
                    messages.push(
                        OutboundMessage::AudioFrame { samples: frame, sample_rate: cfg.sample_rate },
                    );
                },
                Mode::Batch { .. } => {
                    self.audio.append(&mut frame);
                },
            }

            let mut should_finalize = false;
            if !detected {
                state.silence_count = state.silence_count + 1;
                if state.silence_count >= cfg.silence_threshold_frames {
                    should_finalize = true;
                }
            }
            let duration = state.duration_ms(cfg.frame_ms);
            if duration >= cfg.max_utterance_ms as u64 {
                should_finalize = true;
            }
            assert(state == after_frame(cfg, before, detected, energy));
            assert(should_finalize == finalizes(cfg, before, detected, energy));

            if should_finalize {
                let avg = state.avg_energy();
                let passed = avg >= cfg.min_energy && match cfg.mode {
                    Mode::Streaming => true,
                    Mode::Batch { min_utterance_ms } => duration >= min_utterance_ms as u64,
                };
                match cfg.mode {
                    Mode::Streaming => {
                        if passed {
                            messages.push(OutboundMessage::UtteranceEnd);
                        }
                    },
                    Mode::Batch { .. } => {
                        let mut whole: Vec<u32> = Vec::new();
                        std::mem::swap(&mut whole, &mut self.audio);
                        if passed {
                            messages.push(
                                OutboundMessage::TranscribeRequest {
                                    samples: whole,
                                    sample_rate: cfg.sample_rate,
                                },
                            );
                        }
                    },
                }
                finalized = Some(
                    Utterance {
                        frames: state.chunk_count,
                        duration_ms: duration,
                        avg_energy: avg,
                        accepted: passed,
                    },
                );
                state.reset();
            }
        }
        self.state = state;
        let outcome = StepOutcome { messages, started, finalized };
        assert(outcome@.messages =~= step_messages(cfg, before, held, samples, detected, energy));
        outcome
    }
}

/// While an utterance is in progress or about to start, the counters have
/// room for one more frame.
pub proof fn lemma_room_for_frame(cfg: SegmenterConfig, s: SpeechState, detected: bool)
    requires
        state_wf(cfg, s),
        after_onset(cfg, s, detected).is_speaking,
    ensures
        after_onset(cfg, s, detected).chunk_count < u32::MAX,
        after_onset(cfg, s, detected).sum_in_range(),
        after_onset(cfg, s, detected).silence_count < u32::MAX,
{
    if s.is_speaking {
        assert(s.chunk_count < cfg.max_utterance_ms) by (nonlinear_arith)
            requires
                s.chunk_count * cfg.frame_ms < cfg.max_utterance_ms,
                cfg.frame_ms >= 1,
        ;
    }
}

} // verus!
