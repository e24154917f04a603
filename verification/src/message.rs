//! What the segmenter hands to the transport.
use vstd::prelude::*;

verus! {

/// A message for the transcription service. Samples are bit patterns of
/// IEEE 754 binary32 values.
#[derive(Debug)]
pub enum OutboundMessage {
    /// One frame of an utterance in progress.
    AudioFrame { samples: Vec<u32>, sample_rate: u32 },
    /// The utterance in progress has ended.
    UtteranceEnd,
    /// A whole utterance, to be transcribed at once.
    TranscribeRequest { samples: Vec<u32>, sample_rate: u32 },
}

/// The mathematical content of an [`OutboundMessage`].
pub enum Message {
    AudioFrame { samples: Seq<u32>, sample_rate: u32 },
    UtteranceEnd,
    TranscribeRequest { samples: Seq<u32>, sample_rate: u32 },
}

impl View for OutboundMessage {
    type V = Message;

    open spec fn view(&self) -> Message {
        match *self {
            OutboundMessage::AudioFrame { samples, sample_rate } => Message::AudioFrame {
                samples: samples@,
                sample_rate,
            },
            OutboundMessage::UtteranceEnd => Message::UtteranceEnd,
            OutboundMessage::TranscribeRequest { samples, sample_rate } => Message::TranscribeRequest {
                samples: samples@,
                sample_rate,
            },
        }
    }
}

/// The contents of a list of messages, in order.
pub open spec fn message_views(messages: Seq<OutboundMessage>) -> Seq<Message> {
    Seq::new(messages.len(), |i: int| messages[i]@)
}

} // verus!
