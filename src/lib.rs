//! A one-bit sound engine: square-wave voices mixed by logical OR inside a
//! channel, channels interleaved sample by sample, one-shot drum voices, and a
//! scheduler that applies timed note events in lock-step with rendering.

use vstd::prelude::*;

pub mod channel;
pub mod config;
pub mod drum_machine;
pub mod midi_reader;
pub mod output;
pub mod player;
pub mod score;
pub mod sequencer;
pub mod signal;
pub mod synth;
pub mod voice;
pub mod wav_reader;

verus! {

/// Default number of output samples per second.
pub const SAMPLE_RATE: u32 = 300_000;

/// Output level written for a low bit.
pub const AMPLITUDE_MIN: u8 = 0;

/// Output level written for a high bit.
pub const AMPLITUDE_MAX: u8 = 100;

/// Default number of samples in one rendered buffer.
pub const BUFFER_SIZE: usize = 2048;

/// Default number of voices a channel can hold.
pub const VOICES_MAX: usize = 4;

/// Default number of channels of a synth.
pub const CHANNELS_MAX: usize = 16;

/// A duty cycle is a fraction `duty / DUTY_MAX` of the period.
pub const DUTY_MAX: u32 = 10_000;

/// Duty cycle of notes whose source gives none: a tenth of the period.
pub const DEFAULT_DUTY: u32 = 1_000;

} // verus!
