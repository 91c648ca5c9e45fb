//! Streaming speech-transcription bridge.
//!
//! The crate normalizes raw PCM audio into the fixed format an external
//! recognition worker expects (16-bit, mono, 16 kHz), frames it for the
//! worker's input pipe, and decodes the newline-delimited result records the
//! worker writes back, all through a non-blocking polling interface.
//! Process and pipe handling is left to the embedding application; the
//! session here is a verified state machine over plain values.

pub mod audio;
pub mod errors;
pub mod locate;
pub mod session;
pub mod wire;

pub use audio::normalize_i16;
pub use audio::pcm_le_bytes;
pub use audio::resample_i16;
pub use audio::to_mono_i16;
pub use audio::TARGET_SAMPLE_RATE;
pub use errors::SessionError;
pub use locate::Transcriber;
pub use session::AudioInputMode;
pub use session::SpawnRequest;
pub use session::StreamingTranscriber;
pub use session::StreamingTranscriberBuilder;
pub use wire::decode_result_line;
pub use wire::StreamingResult;
