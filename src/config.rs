//! The parameters an engine is built with.

use vstd::prelude::*;

use crate::{BUFFER_SIZE, CHANNELS_MAX, SAMPLE_RATE, VOICES_MAX};

verus! {

/// Sample rate, buffer size and polyphony limits of one engine.
#[derive(Clone, Copy, Debug, PartialEq, Eq, Structural)]
pub struct Config {
    /// Output samples per second.
    pub sample_rate: u32,
    /// Samples rendered per loop iteration.
    pub buffer_size: usize,
    /// Voices a channel can hold.
    pub voices_max: usize,
    /// Channels of the synth.
    pub channels_max: usize,
}

impl Config {
    /// The defaults: `SAMPLE_RATE`, `BUFFER_SIZE`, `VOICES_MAX`, `CHANNELS_MAX`.
    pub fn standard() -> (r: Config)
        ensures
            r == (Config {
                sample_rate: SAMPLE_RATE,
                buffer_size: BUFFER_SIZE,
                voices_max: VOICES_MAX,
                channels_max: CHANNELS_MAX,
            }),
            r.valid(),
    {
        Config {
            sample_rate: SAMPLE_RATE,
            buffer_size: BUFFER_SIZE,
            voices_max: VOICES_MAX,
            channels_max: CHANNELS_MAX,
        }
    }

    /// A synth needs at least one channel, and a loop iteration at least one
    /// sample.
    pub open spec fn valid(self) -> bool {
        self.channels_max > 0 && self.buffer_size > 0
    }
}

} // verus!
