use whisper_client::config::{frame_len, frames_in, ConfigError, Mode, SegmenterConfig};
use whisper_client::state::SpeechState;

fn config() -> SegmenterConfig {
    SegmenterConfig {
        sample_rate: 16000,
        frame_ms: 30,
        min_energy: 10_000,
        onset_threshold_frames: 3,
        silence_threshold_frames: 10,
        max_utterance_ms: 5000,
        mode: Mode::Streaming,
    }
}

#[test]
fn config_with_positive_thresholds_is_valid() {
    assert_eq!(config().validate(), Ok(()));
    let batch = SegmenterConfig { mode: Mode::Batch { min_utterance_ms: 300 }, ..config() };
    assert_eq!(batch.validate(), Ok(()));
    let odd = SegmenterConfig { sample_rate: 0, min_energy: 0, max_utterance_ms: 0, ..config() };
    assert_eq!(odd.validate(), Ok(()));
}

#[test]
fn config_with_zero_frame_duration_is_refused() {
    let cfg = SegmenterConfig { frame_ms: 0, ..config() };
    assert_eq!(cfg.validate(), Err(ConfigError::ZeroFrameDuration));
}

#[test]
fn config_with_zero_onset_threshold_is_refused() {
    let cfg = SegmenterConfig { onset_threshold_frames: 0, ..config() };
    assert_eq!(cfg.validate(), Err(ConfigError::ZeroOnsetThreshold));
}

#[test]
fn config_with_zero_silence_threshold_is_refused() {
    let cfg = SegmenterConfig { silence_threshold_frames: 0, ..config() };
    assert_eq!(cfg.validate(), Err(ConfigError::ZeroSilenceThreshold));
}

#[test]
fn config_names_its_first_fault() {
    let cfg = SegmenterConfig {
        frame_ms: 0,
        onset_threshold_frames: 0,
        silence_threshold_frames: 0,
        ..config()
    };
    assert_eq!(cfg.validate(), Err(ConfigError::ZeroFrameDuration));
    let cfg = SegmenterConfig { onset_threshold_frames: 0, silence_threshold_frames: 0, ..config() };
    assert_eq!(cfg.validate(), Err(ConfigError::ZeroOnsetThreshold));
}

#[test]
fn frame_len_is_rate_times_duration() {
    assert_eq!(frame_len(16000, 30), 480);
    assert_eq!(frame_len(48000, 30), 1440);
    assert_eq!(frame_len(44100, 30), 1323);
    assert_eq!(frame_len(8000, 10), 80);
    assert_eq!(frame_len(22050, 30), 661);
    assert_eq!(frame_len(0, 30), 0);
    assert_eq!(frame_len(16000, 0), 0);
    assert_eq!(frame_len(33, 30), 0);
    assert_eq!(frame_len(34, 30), 1);
}

#[test]
fn frame_len_of_the_largest_arguments() {
    let expected = (u32::MAX as u64 * u32::MAX as u64 / 1000) as usize;
    assert_eq!(frame_len(u32::MAX, u32::MAX), expected);
}

#[test]
fn frames_in_rounds_down() {
    assert_eq!(frames_in(300, 30), 10);
    assert_eq!(frames_in(299, 30), 9);
    assert_eq!(frames_in(29, 30), 0);
    assert_eq!(frames_in(0, 30), 0);
    assert_eq!(frames_in(5000, 30), 166);
}

#[test]
fn state_starts_idle() {
    let state = SpeechState::new();
    assert!(!state.is_speaking);
    assert_eq!(state.silence_count, 0);
    assert_eq!(state.onset_count, 0);
    assert_eq!(state.energy_sum, 0);
    assert_eq!(state.chunk_count, 0);
    assert_eq!(SpeechState::default(), state);
}

#[test]
fn state_reset_clears_every_counter() {
    let mut state = SpeechState {
        is_speaking: true,
        silence_count: 4,
        onset_count: 3,
        energy_sum: 123_456,
        chunk_count: 17,
    };
    state.reset();
    assert_eq!(state, SpeechState::new());
}

#[test]
fn state_start_speaking_keeps_the_counters() {
    let mut state = SpeechState { onset_count: 3, ..SpeechState::new() };
    state.start_speaking();
    assert_eq!(state, SpeechState { is_speaking: true, onset_count: 3, ..SpeechState::new() });
}

#[test]
fn state_add_chunk_counts_and_sums() {
    let mut state = SpeechState::new();
    state.add_chunk(20_000);
    state.add_chunk(10_001);
    state.add_chunk(0);
    assert_eq!(state.chunk_count, 3);
    assert_eq!(state.energy_sum, 30_001);
    state.add_chunk(u32::MAX);
    assert_eq!(state.energy_sum, 30_001 + u32::MAX as u64);
}

#[test]
fn state_average_energy_rounds_down() {
    let mut state = SpeechState::new();
    assert_eq!(state.avg_energy(), 0);
    state.add_chunk(20_000);
    assert_eq!(state.avg_energy(), 20_000);
    state.add_chunk(10_001);
    assert_eq!(state.avg_energy(), 15_000);
    state.add_chunk(0);
    assert_eq!(state.avg_energy(), 10_000);
    state.add_chunk(0);
    assert_eq!(state.avg_energy(), 7_500);
}

#[test]
fn state_average_of_the_largest_energies() {
    let mut state = SpeechState::new();
    for _ in 0..1000 {
        state.add_chunk(u32::MAX);
    }
    assert_eq!(state.avg_energy(), u32::MAX);
}

#[test]
fn state_duration_is_count_times_frame_duration() {
    let mut state = SpeechState::new();
    assert_eq!(state.duration_ms(30), 0);
    for _ in 0..13 {
        state.add_chunk(1);
    }
    assert_eq!(state.duration_ms(30), 390);
    assert_eq!(state.duration_ms(0), 0);
    let full = SpeechState { chunk_count: u32::MAX, ..SpeechState::new() };
    assert_eq!(full.duration_ms(u32::MAX), u32::MAX as u64 * u32::MAX as u64);
}
