//! The counters that the segmenter keeps between frames.
use vstd::prelude::*;

verus! {

/// Counters of the utterance in progress; all zero while none is.
#[derive(Clone, Copy, Debug, PartialEq, Eq, Structural)]
pub struct SpeechState {
    /// Whether an utterance is in progress.
    pub is_speaking: bool,
    /// Consecutive frames without speech, counted while speaking.
    pub silence_count: u32,
    /// Consecutive speech frames, counted while idle.
    pub onset_count: u32,
    /// Sum of the energies of the frames of the utterance.
    pub energy_sum: u64,
    /// Number of frames of the utterance.
    pub chunk_count: u32,
}

impl SpeechState {
    /// The state in which nothing has been heard.
    pub open spec fn idle() -> SpeechState {
        SpeechState {
            is_speaking: false,
            silence_count: 0,
            onset_count: 0,
            energy_sum: 0,
            chunk_count: 0,
        }
    }

    /// Average energy of the frames counted so far: the sum divided by the
    /// count, rounded down, and zero when no frame was counted.
    pub open spec fn avg_energy_spec(&self) -> nat {
        if self.chunk_count == 0 {
            0
        } else {
            (self.energy_sum / (self.chunk_count as u64)) as nat
        }
    }

    /// Duration of the frames counted so far, each lasting `chunk_ms`.
    pub open spec fn duration_ms_spec(&self, chunk_ms: u32) -> nat {
        (self.chunk_count * chunk_ms) as nat
    }

    /// The sum of energies is one that `chunk_count` frames can have.
    pub open spec fn sum_in_range(&self) -> bool {
        self.energy_sum <= self.chunk_count * 0xffff_ffff
    }

    /// The idle state.
    pub fn new() -> (s: Self)
        ensures
            s == Self::idle(),
    {
        SpeechState {
            is_speaking: false,
            silence_count: 0,
            onset_count: 0,
            energy_sum: 0,
            chunk_count: 0,
        }
    }

    /// Back to idle: every counter is zero again.
    pub fn reset(&mut self)
        ensures
            *final(self) == Self::idle(),
    {
        self.is_speaking = false;
        self.silence_count = 0;
        self.onset_count = 0;
        self.energy_sum = 0;
        self.chunk_count = 0;
    }

    /// Marks the start of an utterance; the counters stay as they are.
    pub fn start_speaking(&mut self)
        ensures
            *final(self) == (SpeechState { is_speaking: true, ..*old(self) }),
    {
        self.is_speaking = true;
    }

    /// Counts one more frame with the given energy.
    pub fn add_chunk(&mut self, energy: u32)
        requires
            old(self).chunk_count < u32::MAX,
            old(self).sum_in_range(),
        ensures
            *final(self) == (SpeechState {
                energy_sum: (old(self).energy_sum + energy) as u64,
                chunk_count: (old(self).chunk_count + 1) as u32,
                ..*old(self)
            }),
            final(self).sum_in_range(),
    {
        assert(self.chunk_count * 0xffff_ffff + 0xffff_ffff <= 0xffff_ffff * 0xffff_ffff)
            by (nonlinear_arith)
            requires
                self.chunk_count < 0xffff_ffff,
        ;
        self.energy_sum = self.energy_sum + energy as u64;
        self.chunk_count = self.chunk_count + 1;
    }

    /// Average energy of the frames counted so far.
    pub fn avg_energy(&self) -> (avg: u32)
        requires
            self.sum_in_range(),
        ensures
            avg == self.avg_energy_spec(),
    {
        if self.chunk_count == 0 {
            0
        } else {
            let count = self.chunk_count as u64;
            assert(self.energy_sum / count <= 0xffff_ffff) by (nonlinear_arith)
                requires
                    self.energy_sum <= count * 0xffff_ffff,
                    count > 0,
            ;
            (self.energy_sum / count) as u32
        }
    }

    /// Duration of the frames counted so far, each lasting `chunk_ms`.
    pub fn duration_ms(&self, chunk_ms: u32) -> (ms: u64)
        ensures
            ms == self.duration_ms_spec(chunk_ms),
    {
        assert(self.chunk_count * chunk_ms <= 0xffff_ffff * 0xffff_ffff) by (nonlinear_arith)
            requires
                self.chunk_count <= 0xffff_ffff,
                chunk_ms <= 0xffff_ffff,
        ;
        (self.chunk_count as u64) * (chunk_ms as u64)
    }
}

impl Default for SpeechState {
    fn default() -> (s: Self)
        ensures
            s == Self::idle(),
    {
        SpeechState::new()
    }
}

} // verus!
