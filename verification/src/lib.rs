//! Keyboard typing-sound generator: the integer and byte-level core.
//!
//! The crate holds everything of the generator that is not floating point:
//! the seeded noise source and file-name hash, the RIFF/WAVE PCM 16-bit
//! writer and reader, the per-preset sound shapes (kinds, durations and file
//! names), and the command-line grammar.

pub mod rng;
pub mod wav;
pub mod text;
pub mod presets;
pub mod args;
pub mod errors;
pub mod laws;
pub mod wav_laws;
pub mod args_laws;
