//! Speech endpoint detection for a streaming transcription client.
//!
//! A continuous stream of captured samples is cut into frames, brought to the
//! target sample rate, classified and measured frame by frame, and segmented
//! into utterances; what qualifies is encoded as messages for the
//! transcription service.
pub mod behaviour;
pub mod chunk_buffer;
pub mod classifier;
pub mod config;
pub mod energy;
pub mod message;
pub mod pipeline;
pub mod resample;
pub mod sample;
pub mod segmenter;
pub mod state;
pub mod wire;
