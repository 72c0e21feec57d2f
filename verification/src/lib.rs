//! Rolling window over a live audio stream: the bounded sample buffer that a
//! capture worker fills and a transcription loop reads, the sample
//! reductions applied on the way in and out, and the decisions each of the
//! two loops takes.

pub mod buffer;
pub mod signal;
pub mod capture;
pub mod config;
pub mod transcribe;
