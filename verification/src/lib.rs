//! A real-time audio mixing engine over signed 32-bit PCM samples.
//!
//! The engine is driven by a periodic callback that hands it a buffer to
//! fill. Control events (MIDI notes, user interface triggers) arrive through
//! two non-blocking inboxes and add sound sources; every active source then
//! contributes one buffer of samples, and the contributions are summed.
//!
//! Everything here is integer arithmetic. Waveform tables and decoded sample
//! data are handed in by the caller as plain sample vectors.

pub mod audio;
pub mod dsp;
pub mod format;
pub mod inbox;
pub mod midi;
pub mod mix;
pub mod sample;
