//! What the segmenter does over runs of frames: onset debounce, finalization
//! after silence, the hard cap on duration, and the guards at the end of an
//! utterance.
use vstd::prelude::*;
use crate::config::{Mode, SegmenterConfig};
use crate::message::Message;
use crate::segmenter::{
    accepted, after_frame, after_onset, finalizes, next_state, speech_detected, starts, state_wf,
    step_messages,
};
use crate::state::SpeechState;

verus! {

/// What comes with one frame: the classifier's verdict and the energy.
pub struct FrameInput {
    pub is_voice: bool,
    pub energy: u32,
}

/// Whether the frame counts as speech.
pub open spec fn detected(cfg: SegmenterConfig, input: FrameInput) -> bool {
    speech_detected(cfg, input.is_voice, input.energy)
}

/// The counters after the frames `inputs`, taken in order from `s`.
pub open spec fn state_after(
    cfg: SegmenterConfig,
    s: SpeechState,
    inputs: Seq<FrameInput>,
) -> SpeechState
    decreases inputs.len(),
{
    if inputs.len() == 0 {
        s
    } else {
        next_state(
            cfg,
            state_after(cfg, s, inputs.drop_last()),
            detected(cfg, inputs.last()),
            inputs.last().energy,
        )
    }
}

/// The counters before frame `k` of `inputs`.
pub open spec fn state_before(
    cfg: SegmenterConfig,
    s: SpeechState,
    inputs: Seq<FrameInput>,
    k: int,
) -> SpeechState {
    state_after(cfg, s, inputs.take(k))
}

/// Taking one more frame of a run is one step of the state machine.
pub proof fn lemma_state_before_next(
    cfg: SegmenterConfig,
    s: SpeechState,
    inputs: Seq<FrameInput>,
    k: int,
)
    requires
        0 <= k < inputs.len(),
    ensures
        state_before(cfg, s, inputs, k + 1) == next_state(
            cfg,
            state_before(cfg, s, inputs, k),
            detected(cfg, inputs[k]),
            inputs[k].energy,
        ),
{
    assert(inputs.take(k + 1).drop_last() == inputs.take(k));
    assert(inputs.take(k + 1).last() == inputs[k]);
}

/// A step keeps the counters within what the configuration allows.
pub proof fn lemma_step_keeps_wf(cfg: SegmenterConfig, s: SpeechState, det: bool, energy: u32)
    requires
        state_wf(cfg, s),
    ensures
        state_wf(cfg, next_state(cfg, s, det, energy)),
{
    if after_onset(cfg, s, det).is_speaking {
        crate::segmenter::lemma_room_for_frame(cfg, s, det);
        assert((s.chunk_count + 1) * 0xffff_ffff == s.chunk_count * 0xffff_ffff + 0xffff_ffff)
            by (nonlinear_arith);
    }
}

/// A run of frames keeps the counters within what the configuration allows.
pub proof fn lemma_run_keeps_wf(cfg: SegmenterConfig, s: SpeechState, inputs: Seq<FrameInput>)
    requires
        state_wf(cfg, s),
    ensures
        state_wf(cfg, state_after(cfg, s, inputs)),
    decreases inputs.len(),
{
    if inputs.len() > 0 {
        lemma_run_keeps_wf(cfg, s, inputs.drop_last());
        lemma_step_keeps_wf(
            cfg,
            state_after(cfg, s, inputs.drop_last()),
            detected(cfg, inputs.last()),
            inputs.last().energy,
        );
    }
}

/// From idle, `k` speech frames in a row, fewer than the onset threshold,
/// only raise the onset counter to `k`.
proof fn lemma_onset_counts(cfg: SegmenterConfig, s: SpeechState, inputs: Seq<FrameInput>, k: int)
    requires
        state_wf(cfg, s),
        !s.is_speaking,
        s.onset_count == 0,
        0 <= k <= inputs.len(),
        k < cfg.onset_threshold_frames,
        forall|j: int| 0 <= j < k ==> detected(cfg, #[trigger] inputs[j]),
    ensures
        state_before(cfg, s, inputs, k) == (SpeechState {
            onset_count: k as u32,
            ..SpeechState::idle()
        }),
    decreases k,
{
    if k == 0 {
        assert(inputs.take(0).len() == 0);
    } else {
        lemma_onset_counts(cfg, s, inputs, k - 1);
        lemma_state_before_next(cfg, s, inputs, k - 1);
    }
}

/// Onset debounce, first half: from idle, one speech frame fewer than the
/// onset threshold followed by a frame without speech starts no utterance,
/// and leaves the segmenter idle with every counter at zero.
pub proof fn lemma_short_run_starts_nothing(
    cfg: SegmenterConfig,
    s: SpeechState,
    inputs: Seq<FrameInput>,
)
    requires
        state_wf(cfg, s),
        !s.is_speaking,
        s.onset_count == 0,
        inputs.len() == cfg.onset_threshold_frames,
        forall|j: int| 0 <= j < inputs.len() - 1 ==> detected(cfg, #[trigger] inputs[j]),
        !detected(cfg, inputs[inputs.len() - 1]),
    ensures
        forall|k: int|
            0 <= k <= inputs.len() ==> !(#[trigger] state_before(cfg, s, inputs, k)).is_speaking,
        forall|k: int|
            0 <= k < inputs.len() ==> !starts(
                cfg,
                state_before(cfg, s, inputs, k),
                detected(cfg, #[trigger] inputs[k]),
            ),
        state_after(cfg, s, inputs) == SpeechState::idle(),
{
    let n = inputs.len() as int;
    assert forall|k: int| 0 <= k < n implies !(#[trigger] state_before(
        cfg,
        s,
        inputs,
        k,
    )).is_speaking && !starts(cfg, state_before(cfg, s, inputs, k), detected(cfg, inputs[k])) by {
        lemma_onset_counts(cfg, s, inputs, k);
    }
    lemma_onset_counts(cfg, s, inputs, n - 1);
    lemma_state_before_next(cfg, s, inputs, n - 1);
    assert(inputs.take(n) == inputs);
}

/// Onset debounce, second half: from idle, as many speech frames in a row as
/// the onset threshold start an utterance with the last one and with none
/// before it. The segmenter is then active, unless one frame alone reaches
/// the greatest duration.
pub proof fn lemma_full_run_starts_on_last(
    cfg: SegmenterConfig,
    s: SpeechState,
    inputs: Seq<FrameInput>,
)
    requires
        state_wf(cfg, s),
        !s.is_speaking,
        s.onset_count == 0,
        inputs.len() == cfg.onset_threshold_frames,
        forall|j: int| 0 <= j < inputs.len() ==> detected(cfg, #[trigger] inputs[j]),
    ensures
        forall|k: int|
            0 <= k < inputs.len() ==> !(#[trigger] state_before(cfg, s, inputs, k)).is_speaking,
        forall|k: int|
            0 <= k < inputs.len() - 1 ==> !starts(
                cfg,
                state_before(cfg, s, inputs, k),
                detected(cfg, #[trigger] inputs[k]),
            ),
        starts(
            cfg,
            state_before(cfg, s, inputs, inputs.len() - 1),
            detected(cfg, inputs[inputs.len() - 1]),
        ),
        cfg.frame_ms < cfg.max_utterance_ms ==> state_after(cfg, s, inputs).is_speaking,
{
    let n = inputs.len() as int;
    assert forall|k: int| 0 <= k < n implies !(#[trigger] state_before(
        cfg,
        s,
        inputs,
        k,
    )).is_speaking by {
        lemma_onset_counts(cfg, s, inputs, k);
    }
    assert forall|k: int| 0 <= k < n - 1 implies !starts(
        cfg,
        state_before(cfg, s, inputs, k),
        detected(cfg, #[trigger] inputs[k]),
    ) by {
        lemma_onset_counts(cfg, s, inputs, k);
    }
    lemma_onset_counts(cfg, s, inputs, n - 1);
    lemma_state_before_next(cfg, s, inputs, n - 1);
    assert(inputs.take(n) == inputs);
    assert(1 * cfg.frame_ms == cfg.frame_ms) by (nonlinear_arith);
}

/// During an utterance, a frame without speech that neither completes the
/// silence run nor reaches the greatest duration is only counted.
proof fn lemma_silent_step(cfg: SegmenterConfig, s: SpeechState, energy: u32)
    requires
        state_wf(cfg, s),
        s.is_speaking,
        s.silence_count + 1 < cfg.silence_threshold_frames,
        (s.chunk_count + 1) * cfg.frame_ms < cfg.max_utterance_ms,
    ensures
        !finalizes(cfg, s, false, energy),
        next_state(cfg, s, false, energy).is_speaking,
        next_state(cfg, s, false, energy).silence_count == s.silence_count + 1,
        next_state(cfg, s, false, energy).chunk_count == s.chunk_count + 1,
        state_wf(cfg, next_state(cfg, s, false, energy)),
{
    crate::segmenter::lemma_room_for_frame(cfg, s, false);
    lemma_step_keeps_wf(cfg, s, false, energy);
}

/// During an utterance, `k` frames without speech in a row, fewer than the
/// silence threshold and short of the greatest duration, only count up.
proof fn lemma_silence_counts(
    cfg: SegmenterConfig,
    s: SpeechState,
    inputs: Seq<FrameInput>,
    k: int,
)
    requires
        state_wf(cfg, s),
        s.is_speaking,
        s.silence_count == 0,
        0 <= k <= inputs.len(),
        k < cfg.silence_threshold_frames,
        (s.chunk_count + k) * cfg.frame_ms < cfg.max_utterance_ms,
        forall|j: int| 0 <= j < k ==> !detected(cfg, #[trigger] inputs[j]),
    ensures
        state_before(cfg, s, inputs, k).is_speaking,
        state_before(cfg, s, inputs, k).silence_count == k,
        state_before(cfg, s, inputs, k).chunk_count == s.chunk_count + k,
        state_wf(cfg, state_before(cfg, s, inputs, k)),
        forall|j: int|
            0 <= j < k ==> !finalizes(
                cfg,
                state_before(cfg, s, inputs, j),
                detected(cfg, #[trigger] inputs[j]),
                inputs[j].energy,
            ),
    decreases k,
{
    if k == 0 {
        assert(inputs.take(0).len() == 0);
    } else {
        let f = cfg.frame_ms as int;
        let c = s.chunk_count as int;
        assert((c + (k - 1)) * f <= (c + k) * f) by (nonlinear_arith)
            requires
                f >= 0,
        ;
        lemma_silence_counts(cfg, s, inputs, k - 1);
        let prev = state_before(cfg, s, inputs, k - 1);
        assert(prev.chunk_count + 1 == c + k);
        assert(!detected(cfg, inputs[k - 1]));
        lemma_silent_step(cfg, prev, inputs[k - 1].energy);
        lemma_state_before_next(cfg, s, inputs, k - 1);
    }
}

/// Silence finalize: during an utterance, right after a speech frame, as many
/// frames without speech in a row as the silence threshold end the utterance
/// with the last one and with none before it, and every counter is zero
/// afterwards. The run is one that stays short of the greatest duration until
/// its last frame.
pub proof fn lemma_silence_finalizes_on_last(
    cfg: SegmenterConfig,
    s: SpeechState,
    inputs: Seq<FrameInput>,
)
    requires
        state_wf(cfg, s),
        s.is_speaking,
        s.silence_count == 0,
        inputs.len() == cfg.silence_threshold_frames,
        (s.chunk_count + inputs.len() - 1) * cfg.frame_ms < cfg.max_utterance_ms,
        forall|j: int| 0 <= j < inputs.len() ==> !detected(cfg, #[trigger] inputs[j]),
    ensures
        forall|k: int|
            0 <= k < inputs.len() ==> (#[trigger] state_before(cfg, s, inputs, k)).is_speaking,
        forall|k: int|
            0 <= k < inputs.len() - 1 ==> !finalizes(
                cfg,
                state_before(cfg, s, inputs, k),
                detected(cfg, #[trigger] inputs[k]),
                inputs[k].energy,
            ),
        finalizes(
            cfg,
            state_before(cfg, s, inputs, inputs.len() - 1),
            detected(cfg, inputs[inputs.len() - 1]),
            inputs[inputs.len() - 1].energy,
        ),
        state_after(cfg, s, inputs) == SpeechState::idle(),
{
    let n = inputs.len() as int;
    assert forall|k: int| 0 <= k < n implies (#[trigger] state_before(
        cfg,
        s,
        inputs,
        k,
    )).is_speaking by {
        assert((s.chunk_count + k) * cfg.frame_ms <= (s.chunk_count + n - 1) * cfg.frame_ms)
            by (nonlinear_arith)
            requires
                k <= n - 1,
                cfg.frame_ms >= 0,
        ;
        lemma_silence_counts(cfg, s, inputs, k);
    }
    lemma_silence_counts(cfg, s, inputs, n - 1);
    let prev = state_before(cfg, s, inputs, n - 1);
    crate::segmenter::lemma_room_for_frame(cfg, prev, false);
    lemma_state_before_next(cfg, s, inputs, n - 1);
    assert(inputs.take(n) == inputs);
}

/// Hard cap, one frame: a frame that brings the duration of the utterance to
/// the greatest duration ends it, speech or not.
pub proof fn lemma_cap_finalizes(cfg: SegmenterConfig, s: SpeechState, det: bool, energy: u32)
    requires
        state_wf(cfg, s),
        after_onset(cfg, s, det).is_speaking,
        (s.chunk_count + 1) * cfg.frame_ms >= cfg.max_utterance_ms,
    ensures
        finalizes(cfg, s, det, energy),
        next_state(cfg, s, det, energy) == SpeechState::idle(),
{
    crate::segmenter::lemma_room_for_frame(cfg, s, det);
}

/// Hard cap, between frames: an utterance in progress is always shorter than
/// the greatest duration.
pub proof fn lemma_duration_below_cap(cfg: SegmenterConfig, s: SpeechState)
    requires
        state_wf(cfg, s),
        s.is_speaking,
    ensures
        s.duration_ms_spec(cfg.frame_ms) < cfg.max_utterance_ms,
{
}

/// Hard cap, over a run: during an utterance, a run of frames long enough to
/// bring its duration to the greatest duration holds a frame that ends it,
/// whatever is heard.
pub proof fn lemma_cap_ends_utterance(
    cfg: SegmenterConfig,
    s: SpeechState,
    inputs: Seq<FrameInput>,
)
    requires
        state_wf(cfg, s),
        s.is_speaking,
        (s.chunk_count + inputs.len()) * cfg.frame_ms >= cfg.max_utterance_ms,
    ensures
        exists|k: int|
            0 <= k < inputs.len() && finalizes(
                cfg,
                state_before(cfg, s, inputs, k),
                detected(cfg, #[trigger] inputs[k]),
                inputs[k].energy,
            ),
{
    assert(inputs.len() > 0) by {
        if inputs.len() == 0 {
            assert((s.chunk_count + 0) * cfg.frame_ms == s.chunk_count * cfg.frame_ms);
        }
    }
    lemma_cap_search(cfg, s, inputs, inputs.len() as int);
    let m = inputs.len() as int;
    let last = state_before(cfg, s, inputs, m);
    if forall|j: int|
        0 <= j < m ==> !finalizes(
            cfg,
            state_before(cfg, s, inputs, j),
            detected(cfg, #[trigger] inputs[j]),
            inputs[j].energy,
        ) {
        assert(last.is_speaking && last.chunk_count == s.chunk_count + m);
        lemma_run_keeps_wf(cfg, s, inputs.take(m));
        assert(false);
    }
}

/// As long as no frame of a run ends the utterance, every frame is counted.
proof fn lemma_cap_search(cfg: SegmenterConfig, s: SpeechState, inputs: Seq<FrameInput>, k: int)
    requires
        state_wf(cfg, s),
        s.is_speaking,
        0 <= k <= inputs.len(),
    ensures
        (forall|j: int|
            0 <= j < k ==> !finalizes(
                cfg,
                state_before(cfg, s, inputs, j),
                detected(cfg, #[trigger] inputs[j]),
                inputs[j].energy,
            )) ==> state_before(cfg, s, inputs, k).is_speaking && state_before(
            cfg,
            s,
            inputs,
            k,
        ).chunk_count == s.chunk_count + k,
    decreases k,
{
    if k == 0 {
        assert(inputs.take(0).len() == 0);
    } else {
        lemma_cap_search(cfg, s, inputs, k - 1);
        if forall|j: int|
            0 <= j < k ==> !finalizes(
                cfg,
                state_before(cfg, s, inputs, j),
                detected(cfg, #[trigger] inputs[j]),
                inputs[j].energy,
            ) {
            let prev = state_before(cfg, s, inputs, k - 1);
            assert(!finalizes(cfg, prev, detected(cfg, inputs[k - 1]), inputs[k - 1].energy));
            lemma_state_before_next(cfg, s, inputs, k - 1);
            lemma_run_keeps_wf(cfg, s, inputs.take(k - 1));
            crate::segmenter::lemma_room_for_frame(cfg, prev, detected(cfg, inputs[k - 1]));
        }
    }
}

/// Energy guard in streaming mode: a frame after which the average energy of
/// the utterance is below the threshold gives no end marker.
pub proof fn lemma_quiet_utterance_not_announced(
    cfg: SegmenterConfig,
    s: SpeechState,
    audio: Seq<u32>,
    frame: Seq<u32>,
    det: bool,
    energy: u32,
)
    requires
        cfg.mode is Streaming,
        after_frame(cfg, s, det, energy).avg_energy_spec() < cfg.min_energy,
    ensures
        !step_messages(cfg, s, audio, frame, det, energy).contains(Message::UtteranceEnd),
        !accepted(cfg, after_frame(cfg, s, det, energy)),
{
    let messages = step_messages(cfg, s, audio, frame, det, energy);
    assert forall|i: int| 0 <= i < messages.len() implies messages[i] != Message::UtteranceEnd by {}
}

/// The end marker of streaming mode comes exactly when an utterance ends and
/// passes the energy guard, and then it is the last message.
pub proof fn lemma_end_marker(
    cfg: SegmenterConfig,
    s: SpeechState,
    audio: Seq<u32>,
    frame: Seq<u32>,
    det: bool,
    energy: u32,
)
    requires
        cfg.mode is Streaming,
    ensures
        step_messages(cfg, s, audio, frame, det, energy).contains(Message::UtteranceEnd) <==> (
        finalizes(cfg, s, det, energy) && after_frame(cfg, s, det, energy).avg_energy_spec()
            >= cfg.min_energy),
{
    let messages = step_messages(cfg, s, audio, frame, det, energy);
    if finalizes(cfg, s, det, energy) && accepted(cfg, after_frame(cfg, s, det, energy)) {
        assert(messages[1] == Message::UtteranceEnd);
    } else {
        assert forall|i: int| 0 <= i < messages.len() implies messages[i]
            != Message::UtteranceEnd by {}
    }
}

/// Duration and energy guard in batch mode: an utterance that lasted less
/// than the least duration, or whose average energy is below the threshold,
/// gives no message at all; nor does a frame that ends no utterance.
pub proof fn lemma_batch_guard(
    cfg: SegmenterConfig,
    s: SpeechState,
    audio: Seq<u32>,
    frame: Seq<u32>,
    det: bool,
    energy: u32,
    min_utterance_ms: u32,
)
    requires
        cfg.mode == (Mode::Batch { min_utterance_ms }),
        !finalizes(cfg, s, det, energy) || after_frame(cfg, s, det, energy).duration_ms_spec(
            cfg.frame_ms,
        ) < min_utterance_ms || after_frame(cfg, s, det, energy).avg_energy_spec()
            < cfg.min_energy,
    ensures
        step_messages(cfg, s, audio, frame, det, energy) == Seq::<Message>::empty(),
{
}

/// Frames without speech leave an idle segmenter as it is, and give no
/// message.
pub proof fn lemma_silence_keeps_idle(
    cfg: SegmenterConfig,
    s: SpeechState,
    audio: Seq<u32>,
    frame: Seq<u32>,
    energy: u32,
)
    requires
        state_wf(cfg, s),
        !s.is_speaking,
        s.onset_count == 0,
    ensures
        next_state(cfg, s, false, energy) == s,
        step_messages(cfg, s, audio, frame, false, energy) == Seq::<Message>::empty(),
{
}

/// A frame gives at most two messages: in streaming mode the frame itself
/// and, where the utterance ends with it and passes the guard, the end
/// marker behind it; in batch mode at most the one request.
pub proof fn lemma_message_count(
    cfg: SegmenterConfig,
    s: SpeechState,
    audio: Seq<u32>,
    frame: Seq<u32>,
    det: bool,
    energy: u32,
)
    ensures
        step_messages(cfg, s, audio, frame, det, energy).len() <= 2,
        cfg.mode is Batch ==> step_messages(cfg, s, audio, frame, det, energy).len() <= 1,
        step_messages(cfg, s, audio, frame, det, energy).len() == 2 <==> (cfg.mode is Streaming
            && finalizes(cfg, s, det, energy) && accepted(
            cfg,
            after_frame(cfg, s, det, energy),
        )),
        !after_frame(cfg, s, det, energy).is_speaking ==> step_messages(
            cfg,
            s,
            audio,
            frame,
            det,
            energy,
        ).len() == 0,
{
}

} // verus!
