//! The frame encoder: outbound messages as JSON text.
//!
//! An audio payload is the samples' bit patterns as little-endian bytes, in
//! base64, as a JSON string. Base64 and the quoting of the JSON string are
//! done by the `base64` and `serde_json` crates; this module lays out the
//! bytes and frames the object around the payload. Base64 text holds nothing
//! that JSON escapes, so the payload stands between two quote marks.
use vstd::prelude::*;
use vstd::string::StringExecFns;
use base64::Engine;
use crate::message::{Message, OutboundMessage};

verus! {

/// The error type of `serde_json`, carried through unread.
#[verifier::external_type_specification]
#[verifier::external_body]
pub struct ExJsonError(serde_json::Error);

/// Why a message could not be encoded.
#[derive(Clone, Copy, Debug, PartialEq, Eq, Structural)]
pub enum EncodeError {
    /// The JSON serializer reported a fault.
    Serialization,
}

/// A character of base64 text: a letter, a digit, `+`, `/`, or the padding
/// character `=`.
pub open spec fn is_base64_char(c: char) -> bool {
    ||| 'A' as u32 <= c as u32 <= 'Z' as u32
    ||| 'a' as u32 <= c as u32 <= 'z' as u32
    ||| '0' as u32 <= c as u32 <= '9' as u32
    ||| c == '+'
    ||| c == '/'
    ||| c == '='
}

/// A character that JSON escapes inside a string: the quote mark, the
/// backslash, and the control characters below the space.
pub open spec fn is_escaped_char(c: char) -> bool {
    c == '"' || c == '\\' || (c as u32) < 0x20
}

/// A text that holds no character that JSON escapes.
pub open spec fn is_plain_text(s: Seq<char>) -> bool {
    forall|i: int| 0 <= i < s.len() ==> !is_escaped_char(#[trigger] s[i])
}

/// The text between two quote marks.
pub open spec fn quoted(s: Seq<char>) -> Seq<char> {
    seq!['"'] + s + seq!['"']
}

/// The text that the standard base64 engine, with padding, gives for `bytes`.
pub uninterp spec fn base64_text(bytes: Seq<u8>) -> Seq<char>;

/// `base64::engine::general_purpose::STANDARD.encode`: the result is the
/// base64 text of the bytes, made of the characters of the standard alphabet
/// and the padding character. The engine panics where the length of the text
/// does not fit `usize`, which the precondition rules out.
#[verifier::external_body]
fn base64_encode(bytes: &[u8]) -> (text: String)
    requires
        (bytes@.len() / 3) * 4 + 4 <= usize::MAX,
    ensures
        text@ == base64_text(bytes@),
        forall|i: int| 0 <= i < text@.len() ==> is_base64_char(#[trigger] text@[i]),
{
    base64::engine::general_purpose::STANDARD.encode(bytes)
}

/// `serde_json::to_string` on a string slice. It writes into a vector and
/// reports only what the writer reports, so it does not fail. It puts the
/// string between two quote marks and escapes the quote mark, the backslash
/// and the control characters below the space: a text without any of these
/// comes back unchanged between the quote marks. Nothing is claimed about
/// the text for another string.
#[verifier::external_body]
fn json_string(s: &str) -> (r: Result<String, serde_json::Error>)
    ensures
        r is Ok,
        r matches Ok(text) ==> (is_plain_text(s@) ==> text@ == quoted(s@)),
{
    serde_json::to_string(s)
}

/// The four bytes of a bit pattern, least significant first.
pub open spec fn sample_bytes(bits: u32) -> Seq<u8> {
    seq![
        (bits % 256) as u8,
        ((bits / 0x100) % 256) as u8,
        ((bits / 0x1_0000) % 256) as u8,
        (bits / 0x100_0000) as u8,
    ]
}

/// The samples as bytes: four for each, in order.
pub open spec fn le_bytes(samples: Seq<u32>) -> Seq<u8> {
    Seq::new(samples.len() * 4, |i: int| sample_bytes(samples[i / 4])[i % 4])
}

/// The most samples that a message can carry: the encoded audio of more
/// would be longer than `usize` can count.
pub open spec fn fits_message(samples: Seq<u32>) -> bool {
    samples.len() * 8 <= usize::MAX
}

/// The decimal digit `d`.
pub open spec fn digit_char(d: nat) -> char {
    if d == 0 {
        '0'
    } else if d == 1 {
        '1'
    } else if d == 2 {
        '2'
    } else if d == 3 {
        '3'
    } else if d == 4 {
        '4'
    } else if d == 5 {
        '5'
    } else if d == 6 {
        '6'
    } else if d == 7 {
        '7'
    } else if d == 8 {
        '8'
    } else {
        '9'
    }
}

/// The decimal digits of `n`, without leading zeros.
pub open spec fn decimal_text(n: nat) -> Seq<char>
    decreases n,
{
    if n < 10 {
        seq![digit_char(n)]
    } else {
        decimal_text(n / 10).push(digit_char(n % 10))
    }
}

/// A message with an audio payload: the object with the fields `type`,
/// `audio` and `sample_rate`, in this order and without white space.
/// `audio_token` is the payload as a JSON string, quote marks included.
pub open spec fn payload_text(kind: Seq<char>, audio_token: Seq<char>, sample_rate: u32) -> Seq<
    char,
> {
    "{\"type\":\""@ + kind + "\",\"audio\":"@ + audio_token + ",\"sample_rate\":"@ + decimal_text(
        sample_rate as nat,
    ) + "}"@
}

/// The text of an `audio_frame` message.
pub open spec fn audio_frame_text(audio_token: Seq<char>, sample_rate: u32) -> Seq<char> {
    payload_text("audio_frame"@, audio_token, sample_rate)
}

/// The text of a `transcribe` message.
pub open spec fn transcribe_text(audio_token: Seq<char>, sample_rate: u32) -> Seq<char> {
    payload_text("transcribe"@, audio_token, sample_rate)
}

/// The text of the `vad_end` message.
pub open spec fn vad_end_text() -> Seq<char> {
    "{\"type\":\"vad_end\"}"@
}

/// The JSON string that carries `samples`: their little-endian bytes in
/// base64, between two quote marks.
pub open spec fn audio_token_of(samples: Seq<u32>) -> Seq<char> {
    quoted(base64_text(le_bytes(samples)))
}

/// The text of a message.
pub open spec fn message_text(message: Message) -> Seq<char> {
    match message {
        Message::AudioFrame { samples, sample_rate } => audio_frame_text(
            audio_token_of(samples),
            sample_rate,
        ),
        Message::UtteranceEnd => vad_end_text(),
        Message::TranscribeRequest { samples, sample_rate } => transcribe_text(
            audio_token_of(samples),
            sample_rate,
        ),
    }
}

/// Base64 text holds no character that JSON escapes.
pub proof fn lemma_base64_char_is_plain(c: char)
    requires
        is_base64_char(c),
    ensures
        !is_escaped_char(c),
{
}

/// Lays the samples out as little-endian bytes.
pub fn samples_to_le_bytes(samples: &[u32]) -> (bytes: Vec<u8>)
    requires
        samples@.len() * 4 <= usize::MAX,
    ensures
        bytes@ == le_bytes(samples@),
{
    let n = samples.len();
    let mut bytes: Vec<u8> = Vec::new();
    let mut i: usize = 0;
    while i < n
        invariant
            n == samples@.len(),
            i <= n,
            bytes@.len() == i * 4,
            forall|k: int| 0 <= k < i * 4 ==> #[trigger] bytes@[k] == le_bytes(samples@)[k],
        decreases n - i,
    {
        let bits = samples[i];
        let ghost done = bytes@;
        bytes.push((bits % 256) as u8);
        bytes.push(((bits / 0x100) % 256) as u8);
        bytes.push(((bits / 0x1_0000) % 256) as u8);
        bytes.push((bits / 0x100_0000) as u8);
        assert forall|k: int| 0 <= k < (i + 1) * 4 implies #[trigger] bytes@[k] == le_bytes(
            samples@,
        )[k] by {
            if k < i * 4 {
                assert(bytes@[k] == done[k]);
            } else {
                assert(k / 4 == i as int && k % 4 == k - i * 4);
            }
        }
        i += 1;
    }
    assert(bytes@ =~= le_bytes(samples@));
    bytes
}

/// The audio payload of `samples`: base64 of their little-endian bytes.
pub fn encode_audio(samples: &[u32]) -> (text: String)
    requires
        fits_message(samples@),
    ensures
        text@ == base64_text(le_bytes(samples@)),
        is_plain_text(text@),
{
    let bytes = samples_to_le_bytes(samples);
    let text = base64_encode(bytes.as_slice());
    proof {
        assert forall|i: int| 0 <= i < text@.len() implies !is_escaped_char(
            #[trigger] text@[i],
        ) by {
            lemma_base64_char_is_plain(text@[i]);
        }
    }
    text
}

/// The audio payload of `samples` as a JSON string. The serializer does not
/// fail on a string, and leaves base64 text as it is between the quote marks.
pub fn encode_audio_token(samples: &[u32]) -> (r: Result<String, EncodeError>)
    requires
        fits_message(samples@),
    ensures
        r matches Ok(token) && token@ == audio_token_of(samples@),
{
    let payload = encode_audio(samples);
    match json_string(payload.as_str()) {
        Ok(token) => Ok(token),
        Err(_) => Err(EncodeError::Serialization),
    }
}

/// One decimal digit as text.
fn digit_str(d: u32) -> (s: &'static str)
    requires
        d < 10,
    ensures
        s@ == seq![digit_char(d as nat)],
{
    proof {
        reveal_strlit("0");
        reveal_strlit("1");
        reveal_strlit("2");
        reveal_strlit("3");
        reveal_strlit("4");
        reveal_strlit("5");
        reveal_strlit("6");
        reveal_strlit("7");
        reveal_strlit("8");
        reveal_strlit("9");
    }
    let s = if d == 0 {
        "0"
    } else if d == 1 {
        "1"
    } else if d == 2 {
        "2"
    } else if d == 3 {
        "3"
    } else if d == 4 {
        "4"
    } else if d == 5 {
        "5"
    } else if d == 6 {
        "6"
    } else if d == 7 {
        "7"
    } else if d == 8 {
        "8"
    } else {
        "9"
    };
    assert(s@ =~= seq![digit_char(d as nat)]);
    s
}

/// Appends the decimal digits of `n` to `text`.
pub fn push_decimal(text: &mut String, n: u32)
    ensures
        final(text)@ == old(text)@ + decimal_text(n as nat),
    decreases n,
{
    if n >= 10 {
        push_decimal(text, n / 10);
    }
    let ghost sofar = text@;
    text.append(digit_str(n % 10));
    proof {
        if n >= 10 {
            assert(text@ =~= old(text)@ + decimal_text((n / 10) as nat).push(
                digit_char((n % 10) as nat),
            ));
        } else {
            assert(text@ =~= old(text)@ + seq![digit_char(n as nat)]);
        }
    }
}

/// Frames a message with an audio payload around its token.
fn frame_payload(kind: &str, audio_token: &str, sample_rate: u32) -> (text: String)
    ensures
        text@ == payload_text(kind@, audio_token@, sample_rate),
{
    let mut text = String::from_str("{\"type\":\"");
    text.append(kind);
    text.append("\",\"audio\":");
    text.append(audio_token);
    text.append(",\"sample_rate\":");
    push_decimal(&mut text, sample_rate);
    text.append("}");
    text
}

/// The `audio_frame` message around an audio payload that is already a JSON
/// string.
pub fn frame_audio_message(audio_token: &str, sample_rate: u32) -> (text: String)
    ensures
        text@ == audio_frame_text(audio_token@, sample_rate),
{
    frame_payload("audio_frame", audio_token, sample_rate)
}

/// The `transcribe` message around an audio payload that is already a JSON
/// string.
pub fn frame_transcribe_message(audio_token: &str, sample_rate: u32) -> (text: String)
    ensures
        text@ == transcribe_text(audio_token@, sample_rate),
{
    frame_payload("transcribe", audio_token, sample_rate)
}

/// The `audio_frame` message for one frame: the object framed around the
/// frame's audio payload. It succeeds on every frame that fits a message.
pub fn build_audio_frame(audio: &[u32], sample_rate: u32) -> (r: Result<String, EncodeError>)
    requires
        fits_message(audio@),
    ensures
        r matches Ok(text) && text@ == audio_frame_text(audio_token_of(audio@), sample_rate),
{
    match encode_audio_token(audio) {
        Ok(token) => Ok(frame_audio_message(token.as_str(), sample_rate)),
        Err(e) => Err(e),
    }
}

/// The `transcribe` message for a whole utterance: the object framed around
/// the utterance's audio payload. It succeeds on every utterance that fits a
/// message.
pub fn build_transcribe(audio: &[u32], sample_rate: u32) -> (r: Result<String, EncodeError>)
    requires
        fits_message(audio@),
    ensures
        r matches Ok(text) && text@ == transcribe_text(audio_token_of(audio@), sample_rate),
{
    match encode_audio_token(audio) {
        Ok(token) => Ok(frame_transcribe_message(token.as_str(), sample_rate)),
        Err(e) => Err(e),
    }
}

/// The `vad_end` message.
pub fn build_vad_end() -> (text: String)
    ensures
        text@ == vad_end_text(),
{
    String::from_str("{\"type\":\"vad_end\"}")
}

/// Whether a message is one that can be encoded.
pub open spec fn encodable(message: Message) -> bool {
    match message {
        Message::AudioFrame { samples, .. } => fits_message(samples),
        Message::UtteranceEnd => true,
        Message::TranscribeRequest { samples, .. } => fits_message(samples),
    }
}

/// The wire text of a message. It succeeds on every message that can be
/// encoded.
pub fn encode_message(message: &OutboundMessage) -> (r: Result<String, EncodeError>)
    requires
        encodable(message@),
    ensures
        r matches Ok(text) && text@ == message_text(message@),
{
    match message {
        OutboundMessage::AudioFrame { samples, sample_rate } => build_audio_frame(
            samples.as_slice(),
            *sample_rate,
        ),
        OutboundMessage::UtteranceEnd => Ok(build_vad_end()),
        OutboundMessage::TranscribeRequest { samples, sample_rate } => build_transcribe(
            samples.as_slice(),
            *sample_rate,
        ),
    }
}

} // verus!
