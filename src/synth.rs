//! A synth: channels interleaved on one output line, one sample each in turn.

use vstd::prelude::*;

use crate::channel::{
    channel_tick, lemma_channel_after, Channel, ChannelModel, SynthError,
};
use crate::config::Config;
use crate::output::{amplitude, level};
use crate::signal::{after, emitted, lemma_emitted};
use crate::{CHANNELS_MAX, SAMPLE_RATE, VOICES_MAX};

verus! {

/// What a [`Synth`] holds, as mathematical values.
pub struct SynthModel {
    /// The channels, in order.
    pub channels: Seq<ChannelModel>,
    /// The channel whose bit the next sample carries.
    pub current: nat,
    /// The channel picked by `channel_select`.
    pub selected: nat,
}

impl SynthModel {
    /// At least one channel, both cursors on a channel, every channel well formed.
    pub open spec fn wf(self) -> bool {
        &&& self.channels.len() > 0
        &&& self.current < self.channels.len()
        &&& self.selected < self.channels.len()
        &&& forall|i: int| 0 <= i < self.channels.len() ==> (#[trigger] self.channels[i]).wf()
    }

    /// The bit of the next sample: that of the channel at the cursor.
    pub open spec fn bit(self) -> bool {
        self.channels[self.current as int].bit()
    }

    /// The synth after one sample: every channel ticks, and the cursor moves
    /// on to the next channel, wrapping around.
    pub open spec fn tick(self) -> SynthModel {
        SynthModel {
            channels: self.channels.map_values(|c: ChannelModel| c.tick()),
            current: (self.current + 1) % self.channels.len(),
            selected: self.selected,
        }
    }

    /// Whether `note_on(freq, _, channel_n)` succeeds.
    pub open spec fn accepts(self, freq: nat, channel_n: nat) -> bool {
        channel_n < self.channels.len() && self.channels[channel_n as int].accepts(freq)
    }

    /// The synth after a successful `note_on(freq, duty, channel_n)`.
    pub open spec fn note_on(self, freq: nat, duty: nat, channel_n: nat) -> SynthModel {
        SynthModel {
            channels: self.channels.update(
                channel_n as int,
                self.channels[channel_n as int].note_on(freq, duty),
            ),
            ..self
        }
    }

    /// The synth after `note_off(freq, channel_n)`.
    pub open spec fn note_off(self, freq: nat, channel_n: nat) -> SynthModel {
        if channel_n < self.channels.len() {
            SynthModel {
                channels: self.channels.update(
                    channel_n as int,
                    self.channels[channel_n as int].note_off(freq),
                ),
                ..self
            }
        } else {
            self
        }
    }
}

/// One sample of a synth, as a function.
pub open spec fn synth_tick() -> spec_fn(SynthModel) -> SynthModel {
    |s: SynthModel| s.tick()
}

/// The bit of a synth's next sample, as a function.
pub open spec fn synth_bit() -> spec_fn(SynthModel) -> bool {
    |s: SynthModel| s.bit()
}

/// Combines several channels on one output (the Pulse Interleaving Method):
/// each sample carries the bit of one channel in turn, while every channel
/// keeps time. Like several instruments playing different parts together.
#[derive(Debug)]
pub struct Synth {
    channels: Vec<Channel>,
    current: usize,
    selected: usize,
}

impl View for Synth {
    type V = SynthModel;

    closed spec fn view(&self) -> SynthModel {
        SynthModel {
            channels: self.channels@.map_values(|c: Channel| c@),
            current: self.current as nat,
            selected: self.selected as nat,
        }
    }
}

impl Synth {
    /// A synth with the default configuration.
    pub fn new() -> (r: Synth)
        ensures
            r@.wf(),
            r@.channels.len() == CHANNELS_MAX,
            r@.current == 0,
            forall|i: int|
                0 <= i < r@.channels.len() ==> (#[trigger] r@.channels[i]) == (ChannelModel {
                    voices: Seq::empty(),
                    capacity: VOICES_MAX as nat,
                    rate: SAMPLE_RATE as nat,
                }),
    {
        Synth::with_config(&Config::standard())
    }

    /// A synth of `config.channels_max` empty channels, each holding up to
    /// `config.voices_max` voices tuned against `config.sample_rate`.
    pub fn with_config(config: &Config) -> (r: Synth)
        requires
            config.channels_max > 0,
        ensures
            r@.wf(),
            r@.channels.len() == config.channels_max,
            r@.current == 0,
            r@.selected == 0,
            forall|i: int|
                0 <= i < r@.channels.len() ==> (#[trigger] r@.channels[i]) == (ChannelModel {
                    voices: Seq::empty(),
                    capacity: config.voices_max as nat,
                    rate: config.sample_rate as nat,
                }),
    {
        let mut channels: Vec<Channel> = Vec::new();
        let mut i: usize = 0;
        while i < config.channels_max
            invariant
                i <= config.channels_max,
                channels.len() == i,
                forall|j: int|
                    0 <= j < i ==> (#[trigger] channels@[j])@ == (ChannelModel {
                        voices: Seq::empty(),
                        capacity: config.voices_max as nat,
                        rate: config.sample_rate as nat,
                    }),
            decreases config.channels_max - i,
        {
            channels.push(Channel::with_config(config.voices_max, config.sample_rate));
            i = i + 1;
        }
        Synth { channels, current: 0, selected: 0 }
    }

    /// The number of channels.
    pub fn channel_count(&self) -> (r: usize)
        ensures
            r == self@.channels.len(),
    {
        self.channels.len()
    }

    /// Channel `i`.
    pub fn channel(&self, i: usize) -> (r: &Channel)
        requires
            i < self@.channels.len(),
        ensures
            r@ == self@.channels[i as int],
    {
        &self.channels[i]
    }

    /// The next sample as a bit: every channel advances one tick, and the
    /// bit is that of the channel at the cursor, which then moves on.
    pub fn get_sample_bool(&mut self) -> (r: bool)
        requires
            old(self)@.wf(),
        ensures
            r == old(self)@.bit(),
            final(self)@ == old(self)@.tick(),
            final(self)@.wf(),
    {
        let ghost s = self@;
        let mut out = false;
        let mut i: usize = 0;
        while i < self.channels.len()
            invariant
                i <= self.channels.len(),
                self.channels.len() == s.channels.len(),
                self.current == s.current,
                self.selected == s.selected,
                s.wf(),
                forall|j: int| 0 <= j < i ==> (#[trigger] self.channels@[j])@ == s.channels[j].tick(),
                forall|j: int| i <= j < self.channels.len() ==> (#[trigger] self.channels@[j])@ == s.channels[j],
                i > s.current ==> out == s.bit(),
            decreases self.channels.len() - i,
        {
            assert(self.channels@[i as int]@ == s.channels[i as int]);
            let channel_out = self.channels[i].out();
            if i == self.current {
                out = channel_out;
            }
            i = i + 1;
        }
        self.current = (self.current + 1) % self.channels.len();
        proof {
            assert(self@.channels =~= s.tick().channels);
            assert forall|j: int| 0 <= j < self@.channels.len() implies (#[trigger] self@.channels[j]).wf() by {
                lemma_channel_after(s.channels[j], 1);
                assert(after(channel_tick(), s.channels[j], 0) == s.channels[j]);
                assert(after(channel_tick(), s.channels[j], 1) == s.channels[j].tick());
            }
        }
        out
    }

    /// The next sample as a byte level.
    pub fn get_sample(&mut self) -> (r: u8)
        requires
            old(self)@.wf(),
        ensures
            r == amplitude(old(self)@.bit()),
            final(self)@ == old(self)@.tick(),
            final(self)@.wf(),
    {
        let b = self.get_sample_bool();
        level(b)
    }

    /// The next `n` samples as bits, as `n` calls of `get_sample_bool` give them.
    pub fn get_buffer_bool(&mut self, n: usize) -> (r: Vec<bool>)
        requires
            old(self)@.wf(),
        ensures
            r@ == emitted(synth_tick(), synth_bit(), old(self)@, n as nat),
            final(self)@ == after(synth_tick(), old(self)@, n as nat),
            final(self)@.wf(),
    {
        let mut buffer: Vec<bool> = Vec::new();
        let mut i: usize = 0;
        while i < n
            invariant
                i <= n,
                self@.wf(),
                buffer@ == emitted(synth_tick(), synth_bit(), old(self)@, i as nat),
                self@ == after(synth_tick(), old(self)@, i as nat),
            decreases n - i,
        {
            let b = self.get_sample_bool();
            buffer.push(b);
            i = i + 1;
        }
        buffer
    }

    /// The next `n` samples as byte levels.
    pub fn get_buffer(&mut self, n: usize) -> (r: Vec<u8>)
        requires
            old(self)@.wf(),
        ensures
            r@ == emitted(synth_tick(), synth_bit(), old(self)@, n as nat).map_values(
                |b: bool| amplitude(b),
            ),
            final(self)@ == after(synth_tick(), old(self)@, n as nat),
            final(self)@.wf(),
    {
        let mut buffer: Vec<u8> = Vec::new();
        let mut i: usize = 0;
        while i < n
            invariant
                i <= n,
                self@.wf(),
                buffer@ == emitted(synth_tick(), synth_bit(), old(self)@, i as nat).map_values(
                    |b: bool| amplitude(b),
                ),
                self@ == after(synth_tick(), old(self)@, i as nat),
            decreases n - i,
        {
            let b = self.get_sample();
            buffer.push(b);
            i = i + 1;
            assert(buffer@ =~= emitted(synth_tick(), synth_bit(), old(self)@, i as nat).map_values(
                |b: bool| amplitude(b),
            ));
        }
        buffer
    }

    /// Selects channel `i`; an index past the last channel is refused
    /// (`false`) and leaves the selection as it was.
    pub fn channel_select(&mut self, i: usize) -> (r: bool)
        requires
            old(self)@.wf(),
        ensures
            r == (i < old(self)@.channels.len()),
            final(self)@ == (SynthModel {
                selected: if r {
                    i as nat
                } else {
                    old(self)@.selected
                },
                ..old(self)@
            }),
            final(self)@.wf(),
    {
        if i < self.channels.len() {
            self.selected = i;
            true
        } else {
            false
        }
    }

    /// The channel picked by `channel_select`.
    pub fn selected(&self) -> (r: usize)
        ensures
            r == self@.selected,
    {
        self.selected
    }

    /// Starts a note on channel `channel_n`. Refused with `InvalidParameter`
    /// when there is no such channel, and with `VoicePoolExhausted` when
    /// the channel is full; a refusal leaves the synth as it was.
    pub fn note_on(&mut self, freq: u32, duty: u32, channel_n: usize) -> (r: Result<(), SynthError>)
        requires
            old(self)@.wf(),
        ensures
            final(self)@.wf(),
            old(self)@.accepts(freq as nat, channel_n as nat) ==> r is Ok && final(self)@ == old(
                self,
            )@.note_on(freq as nat, duty as nat, channel_n as nat),
            channel_n >= old(self)@.channels.len() ==> r == Err::<(), SynthError>(
                SynthError::InvalidParameter,
            ) && final(self)@ == old(self)@,
            channel_n < old(self)@.channels.len() && !old(self)@.accepts(freq as nat, channel_n as nat)
                ==> r == Err::<(), SynthError>(SynthError::VoicePoolExhausted) && final(self)@ == old(
                self,
            )@,
    {
        if channel_n >= self.channels.len() {
            return Err(SynthError::InvalidParameter);
        }
        let ghost s = self@;
        assert(self.channels@[channel_n as int]@ == s.channels[channel_n as int]);
        let r = self.channels[channel_n].note_on(freq, duty);
        proof {
            if r is Ok {
                assert(self@.channels =~= s.note_on(freq as nat, duty as nat, channel_n as nat).channels);
            } else {
                assert(self@.channels =~= s.channels);
            }
        }
        r
    }

    /// Stops the note `freq` on channel `channel_n`; nothing happens when
    /// there is no such channel or no such note.
    pub fn note_off(&mut self, freq: u32, channel_n: usize)
        requires
            old(self)@.wf(),
        ensures
            final(self)@.wf(),
            final(self)@ == old(self)@.note_off(freq as nat, channel_n as nat),
    {
        if channel_n < self.channels.len() {
            let ghost s = self@;
            assert(self.channels@[channel_n as int]@ == s.channels[channel_n as int]);
            self.channels[channel_n].note_off(freq);
            proof {
                assert(self@.channels =~= s.note_off(freq as nat, channel_n as nat).channels);
            }
        }
    }
}

/// The synth after `n` samples: each channel has ticked `n` times, and the
/// cursor has moved `n` channels on.
pub proof fn lemma_synth_after(s: SynthModel, n: nat)
    requires
        s.wf(),
    ensures
        after(synth_tick(), s, n) == (SynthModel {
            channels: s.channels.map_values(|c: ChannelModel| after(channel_tick(), c, n)),
            current: (s.current + n) % s.channels.len(),
            selected: s.selected,
        }),
        after(synth_tick(), s, n).wf(),
    decreases n,
{
    let len = s.channels.len();
    if n > 0 {
        lemma_synth_after(s, (n - 1) as nat);
        assert(after(synth_tick(), s, n).channels =~= s.channels.map_values(
            |c: ChannelModel| after(channel_tick(), c, n),
        ));
        let c0 = s.current as int;
        let l = len as int;
        vstd::arithmetic::div_mod::lemma_add_mod_noop_right(1, c0 + n - 1, l);
        assert((1 + (c0 + n - 1) % l) % l == (c0 + n) % l);
        assert forall|i: int| 0 <= i < len implies (#[trigger] after(synth_tick(), s, n).channels[i]).wf() by {
            lemma_channel_after(s.channels[i], n);
        }
    } else {
        assert(s.channels =~= s.channels.map_values(|c: ChannelModel| after(channel_tick(), c, n)));
        assert(s.current % len == s.current) by (nonlinear_arith)
            requires
                s.current < len,
        ;
    }
}

/// Round robin: starting at cursor `c` on `N` channels, sample `k` carries
/// the bit channel `(c + k) % N` gives on its own `k`-th tick, and after `n`
/// samples every channel has advanced exactly `n` ticks, whether or not it
/// was the one heard.
pub proof fn lemma_round_robin(s: SynthModel, n: nat)
    requires
        s.wf(),
    ensures
        emitted(synth_tick(), synth_bit(), s, n).len() == n,
        forall|k: int|
            0 <= k < n ==> #[trigger] emitted(synth_tick(), synth_bit(), s, n)[k] == after(
                channel_tick(),
                s.channels[(s.current + k) % (s.channels.len() as int)],
                k as nat,
            ).bit(),
        forall|j: int|
            0 <= j < s.channels.len() ==> #[trigger] after(synth_tick(), s, n).channels[j] == after(
                channel_tick(),
                s.channels[j],
                n,
            ),
        after(synth_tick(), s, n).current == (s.current + n) % s.channels.len(),
{
    lemma_emitted(synth_tick(), synth_bit(), s, n);
    lemma_synth_after(s, n);
    assert forall|k: int| 0 <= k < n implies #[trigger] emitted(synth_tick(), synth_bit(), s, n)[k]
        == after(
        channel_tick(),
        s.channels[(s.current + k) % (s.channels.len() as int)],
        k as nat,
    ).bit() by {
        lemma_synth_after(s, k as nat);
        let len = s.channels.len() as int;
        assert(0 <= (s.current + k) % len < len) by (nonlinear_arith)
            requires
                len > 0,
                k >= 0,
        ;
    }
}

} // verus!
