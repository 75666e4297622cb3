//! A channel: a bounded pool of voices mixed by logical OR.

use vstd::prelude::*;

use crate::signal::{after, emitted, lemma_emitted};
use crate::voice::{lemma_voice_after_wf, voice_bit, voice_tick, Voice, VoiceModel};
use crate::{SAMPLE_RATE, VOICES_MAX};

verus! {

/// Why a note request was refused.
#[derive(Clone, Copy, Debug, PartialEq, Eq, Structural)]
pub enum SynthError {
    /// A parameter is outside its range (an unknown channel).
    InvalidParameter,
    /// The channel already holds as many voices as it can.
    VoicePoolExhausted,
}

/// What a [`Channel`] holds, as mathematical values.
pub struct ChannelModel {
    /// The active voices, in the order they were started.
    pub voices: Seq<VoiceModel>,
    /// How many voices the channel can hold at once.
    pub capacity: nat,
    /// Sample rate the voices are tuned against.
    pub rate: nat,
}

/// Element-wise OR of two bit sequences of one length.
pub open spec fn or_bits(a: Seq<bool>, b: Seq<bool>) -> Seq<bool> {
    Seq::new(a.len(), |k: int| a[k] || b[k])
}

impl ChannelModel {
    /// The voices are well formed, tuned against the channel's rate, no more
    /// than the capacity, and no two share a frequency.
    pub open spec fn wf(self) -> bool {
        &&& self.voices.len() <= self.capacity
        &&& self.capacity <= usize::MAX
        &&& self.rate <= u32::MAX
        &&& forall|i: int|
            0 <= i < self.voices.len() ==> (#[trigger] self.voices[i]).wf() && self.voices[i].rate
                == self.rate
        &&& forall|i: int, j: int|
            0 <= i < j < self.voices.len() ==> (#[trigger] self.voices[i]).freq
                != (#[trigger] self.voices[j]).freq
    }

    /// Whether a voice of the channel is tuned to `freq`.
    pub open spec fn has_freq(self, freq: nat) -> bool {
        exists|i: int| 0 <= i < self.voices.len() && (#[trigger] self.voices[i]).freq == freq
    }

    /// Whether `note_on(freq, _)` succeeds: the frequency already sounds, or
    /// there is room for one more voice.
    pub open spec fn accepts(self, freq: nat) -> bool {
        self.has_freq(freq) || self.voices.len() < self.capacity
    }

    /// The channel after a successful `note_on(freq, duty)`: the voice already
    /// tuned to `freq` is retuned and restarted, or else a fresh voice is added.
    pub open spec fn note_on(self, freq: nat, duty: nat) -> ChannelModel {
        if self.has_freq(freq) {
            ChannelModel {
                voices: self.voices.map_values(
                    |v: VoiceModel|
                        if v.freq == freq {
                            v.set(freq, duty)
                        } else {
                            v
                        },
                ),
                ..self
            }
        } else {
            ChannelModel {
                voices: self.voices.push(VoiceModel::fresh(self.rate, freq, duty)),
                ..self
            }
        }
    }

    /// The channel after `note_off(freq)`: the voice tuned to `freq` is gone.
    pub open spec fn note_off(self, freq: nat) -> ChannelModel {
        if self.has_freq(freq) {
            let i = choose|i: int| 0 <= i < self.voices.len() && self.voices[i].freq == freq;
            ChannelModel { voices: self.voices.remove(i), ..self }
        } else {
            self
        }
    }

    /// The channel's next bit: the OR of its voices' next bits.
    pub open spec fn bit(self) -> bool {
        exists|i: int| 0 <= i < self.voices.len() && (#[trigger] self.voices[i]).bit()
    }

    /// The channel after one tick: every voice ticks.
    pub open spec fn tick(self) -> ChannelModel {
        ChannelModel { voices: self.voices.map_values(|v: VoiceModel| v.tick()), ..self }
    }
}

/// One tick of a channel, as a function.
pub open spec fn channel_tick() -> spec_fn(ChannelModel) -> ChannelModel {
    |c: ChannelModel| c.tick()
}

/// The bit of a channel's next tick, as a function.
pub open spec fn channel_bit() -> spec_fn(ChannelModel) -> bool {
    |c: ChannelModel| c.bit()
}

/// Element-wise OR of two buffers of equal length.
pub fn buffer_or(buffer1: Vec<bool>, buffer2: Vec<bool>) -> (r: Vec<bool>)
    requires
        buffer1.len() == buffer2.len(),
    ensures
        r@ == or_bits(buffer1@, buffer2@),
{
    let mut buffer: Vec<bool> = Vec::new();
    let mut i: usize = 0;
    while i < buffer1.len()
        invariant
            i <= buffer1.len(),
            buffer1.len() == buffer2.len(),
            buffer@ == or_bits(buffer1@, buffer2@).subrange(0, i as int),
        decreases buffer1.len() - i,
    {
        buffer.push(buffer1[i] || buffer2[i]);
        i = i + 1;
        assert(buffer@ =~= or_bits(buffer1@, buffer2@).subrange(0, i as int));
    }
    assert(buffer@ =~= or_bits(buffer1@, buffer2@));
    buffer
}

/// Combines up to a fixed number of voices by logical OR (the Pin Pulse
/// Method): like an instrument playing several notes at once.
#[derive(Debug)]
pub struct Channel {
    voices: Vec<Voice>,
    voices_max: usize,
    sample_rate: u32,
}

impl View for Channel {
    type V = ChannelModel;

    closed spec fn view(&self) -> ChannelModel {
        ChannelModel {
            voices: self.voices@.map_values(|v: Voice| v@),
            capacity: self.voices_max as nat,
            rate: self.sample_rate as nat,
        }
    }
}

impl Channel {
    /// An empty channel with the default capacity and sample rate.
    pub fn new() -> (r: Channel)
        ensures
            r@ == (ChannelModel {
                voices: Seq::empty(),
                capacity: VOICES_MAX as nat,
                rate: SAMPLE_RATE as nat,
            }),
            r@.wf(),
    {
        Channel::with_config(VOICES_MAX, SAMPLE_RATE)
    }

    /// An empty channel holding up to `voices_max` voices tuned against
    /// `sample_rate`.
    pub fn with_config(voices_max: usize, sample_rate: u32) -> (r: Channel)
        ensures
            r@ == (ChannelModel {
                voices: Seq::empty(),
                capacity: voices_max as nat,
                rate: sample_rate as nat,
            }),
            r@.wf(),
    {
        let r = Channel { voices: Vec::new(), voices_max, sample_rate };
        assert(r@.voices =~= Seq::empty());
        r
    }

    /// The index of the voice tuned to `freq`, if any.
    fn find(&self, freq: u32) -> (r: Option<usize>)
        requires
            self@.wf(),
        ensures
            match r {
                Some(i) => i < self@.voices.len() && self@.voices[i as int].freq == freq,
                None => !self@.has_freq(freq as nat),
            },
    {
        let mut i: usize = 0;
        while i < self.voices.len()
            invariant
                self@.wf(),
                i <= self.voices.len(),
                forall|j: int| 0 <= j < i ==> self@.voices[j].freq != freq,
            decreases self.voices.len() - i,
        {
            if self.voices[i].freq() == freq {
                return Some(i);
            }
            i = i + 1;
        }
        None
    }

    /// The number of voices playing.
    pub fn voice_count(&self) -> (r: usize)
        ensures
            r == self@.voices.len(),
    {
        self.voices.len()
    }

    /// Whether a voice plays `freq`.
    pub fn has_note(&self, freq: u32) -> (r: bool)
        requires
            self@.wf(),
        ensures
            r == self@.has_freq(freq as nat),
    {
        match self.find(freq) {
            Some(_) => true,
            None => false,
        }
    }

    /// Starts a note: retunes the voice already playing `freq`, or else adds
    /// a voice tuned to `freq` and `duty`; refused with `VoicePoolExhausted`,
    /// leaving the channel as it was, when the channel is full.
    pub fn note_on(&mut self, freq: u32, duty: u32) -> (r: Result<(), SynthError>)
        requires
            old(self)@.wf(),
        ensures
            final(self)@.wf(),
            old(self)@.accepts(freq as nat) ==> r is Ok && final(self)@ == old(self)@.note_on(
                freq as nat,
                duty as nat,
            ),
            !old(self)@.accepts(freq as nat) ==> r == Err::<(), SynthError>(
                SynthError::VoicePoolExhausted,
            ) && final(self)@ == old(self)@,
    {
        let ghost c = self@;
        match self.find(freq) {
            Some(i) => {
                self.voices[i].set(freq, duty);
                proof {
                    let n = c.note_on(freq as nat, duty as nat);
                    assert forall|j: int| 0 <= j < c.voices.len() && j != i implies c.voices[j].freq
                        != freq by {
                        if j < i {
                            assert(c.voices[j].freq != c.voices[i as int].freq);
                        } else {
                            assert(c.voices[i as int].freq != c.voices[j].freq);
                        }
                    }
                    assert(self@.voices =~= n.voices);
                }
                Ok(())
            },
            None => {
                if self.voices.len() < self.voices_max {
                    let v = Voice::with_sample_rate(self.sample_rate, freq, duty);
                    self.voices.push(v);
                    proof {
                        assert(self@.voices =~= c.voices.push(v@));
                    }
                    Ok(())
                } else {
                    Err(SynthError::VoicePoolExhausted)
                }
            },
        }
    }

    /// Stops the voice playing `freq`; nothing happens when none does.
    pub fn note_off(&mut self, freq: u32)
        requires
            old(self)@.wf(),
        ensures
            final(self)@.wf(),
            final(self)@ == old(self)@.note_off(freq as nat),
    {
        let ghost c = self@;
        match self.find(freq) {
            Some(i) => {
                self.voices.remove(i);
                proof {
                    let k = choose|k: int| 0 <= k < c.voices.len() && c.voices[k].freq == freq;
                    if k < i {
                        assert(c.voices[k].freq != c.voices[i as int].freq);
                    } else if k > i {
                        assert(c.voices[i as int].freq != c.voices[k].freq);
                    }
                    assert(self@.voices =~= c.voices.remove(i as int));
                    assert forall|a: int, b: int|
                        0 <= a < b < self@.voices.len() implies (#[trigger] self@.voices[a]).freq
                        != (#[trigger] self@.voices[b]).freq by {
                        let a2 = if a < i {
                            a
                        } else {
                            a + 1
                        };
                        let b2 = if b < i {
                            b
                        } else {
                            b + 1
                        };
                        assert(c.voices[a2].freq != c.voices[b2].freq);
                    }
                }
            },
            None => {},
        }
    }

    /// The next sample: every voice advances one tick, and the result is the
    /// OR of their bits; an empty channel gives a low bit.
    pub fn out(&mut self) -> (r: bool)
        requires
            old(self)@.wf(),
        ensures
            r == old(self)@.bit(),
            final(self)@ == old(self)@.tick(),
            final(self)@.wf(),
    {
        let ghost c = self@;
        let mut out = false;
        let mut i: usize = 0;
        while i < self.voices.len()
            invariant
                i <= self.voices.len(),
                self.voices.len() == c.voices.len(),
                self.voices_max == c.capacity,
                self.sample_rate == c.rate,
                c.wf(),
                forall|j: int| 0 <= j < i ==> (#[trigger] self.voices@[j])@ == c.voices[j].tick(),
                forall|j: int| i <= j < self.voices.len() ==> (#[trigger] self.voices@[j])@ == c.voices[j],
                out == exists|j: int| 0 <= j < i && (#[trigger] c.voices[j]).bit(),
            decreases self.voices.len() - i,
        {
            assert(self.voices@[i as int]@ == c.voices[i as int]);
            let b = self.voices[i].out();
            proof {

                if b {
                    assert(c.voices[i as int].bit());
                }
                if out {
                    let j = choose|j: int| 0 <= j < i && (#[trigger] c.voices[j]).bit();
                    assert(0 <= j < i + 1 && c.voices[j].bit());
                }
            }
            out = out || b;
            i = i + 1;
            proof {
                assert forall|j: int| 0 <= j < i implies (#[trigger] self.voices@[j])@
                    == c.voices[j].tick() by {}
            }
        }
        proof {
            assert(self@.voices =~= c.tick().voices);
        }
        out
    }

    /// The next `n` samples, as `n` calls of `out` would give them: each
    /// voice renders its own `n` bits and the buffers are ORed together.
    pub fn out_buffer(&mut self, n: usize) -> (r: Vec<bool>)
        requires
            old(self)@.wf(),
        ensures
            r@ == emitted(channel_tick(), channel_bit(), old(self)@, n as nat),
            final(self)@ == after(channel_tick(), old(self)@, n as nat),
            final(self)@.wf(),
    {
        let ghost c = self@;
        let mut buffer: Vec<bool> = vec![false; n];
        let mut i: usize = 0;
        while i < self.voices.len()
            invariant
                i <= self.voices.len(),
                self.voices.len() == c.voices.len(),
                self.voices_max == c.capacity,
                self.sample_rate == c.rate,
                c.wf(),
                buffer.len() == n,
                forall|j: int|
                    0 <= j < i ==> (#[trigger] self.voices@[j])@ == after(
                        voice_tick(),
                        c.voices[j],
                        n as nat,
                    ),
                forall|j: int| i <= j < self.voices.len() ==> (#[trigger] self.voices@[j])@ == c.voices[j],
                forall|k: int|
                    0 <= k < n ==> (#[trigger] buffer@[k]) == exists|j: int|
                        0 <= j < i && (#[trigger] emitted(
                            voice_tick(),
                            voice_bit(),
                            c.voices[j],
                            n as nat,
                        )[k]),
            decreases self.voices.len() - i,
        {
            assert(self.voices@[i as int]@ == c.voices[i as int]);
            let vb = self.voices[i].out_buffer(n);
            proof {

                lemma_emitted(voice_tick(), voice_bit(), c.voices[i as int], n as nat);
            }
            let ghost old_buffer = buffer@;
            buffer = buffer_or(buffer, vb);
            i = i + 1;
            proof {
                assert forall|k: int| 0 <= k < n implies (#[trigger] buffer@[k]) == exists|j: int|
                    0 <= j < i && (#[trigger] emitted(
                        voice_tick(),
                        voice_bit(),
                        c.voices[j],
                        n as nat,
                    )[k]) by {
                    if buffer@[k] {
                        if old_buffer[k] {
                            let j = choose|j: int|
                                0 <= j < i - 1 && (#[trigger] emitted(
                                    voice_tick(),
                                    voice_bit(),
                                    c.voices[j],
                                    n as nat,
                                )[k]);
                            assert(0 <= j < i);
                        } else {
                            assert(emitted(voice_tick(), voice_bit(), c.voices[i - 1], n as nat)[k]);
                        }
                    }
                }
                assert forall|j: int| 0 <= j < i implies (#[trigger] self.voices@[j])@ == after(
                    voice_tick(),
                    c.voices[j],
                    n as nat,
                ) by {}
            }
        }
        proof {
            lemma_channel_after(c, n as nat);
            lemma_channel_or(c, n as nat);
            lemma_emitted(channel_tick(), channel_bit(), c, n as nat);
            assert(self@.voices =~= after(channel_tick(), c, n as nat).voices);
            assert(buffer@ =~= emitted(channel_tick(), channel_bit(), c, n as nat));
        }
        buffer
    }
}

/// A channel ticked `n` times holds each of its voices ticked `n` times.
pub proof fn lemma_channel_after(c: ChannelModel, n: nat)
    requires
        c.wf(),
    ensures
        after(channel_tick(), c, n) == (ChannelModel {
            voices: c.voices.map_values(|v: VoiceModel| after(voice_tick(), v, n)),
            ..c
        }),
        after(channel_tick(), c, n).wf(),
    decreases n,
{
    if n > 0 {
        lemma_channel_after(c, (n - 1) as nat);
        let p = after(channel_tick(), c, (n - 1) as nat);
        assert(after(channel_tick(), c, n).voices =~= c.voices.map_values(
            |v: VoiceModel| after(voice_tick(), v, n),
        ));
        assert forall|i: int| 0 <= i < c.voices.len() implies (#[trigger] after(
            channel_tick(),
            c,
            n,
        ).voices[i]).wf() by {
            lemma_voice_after_wf(c.voices[i], n);
        }
        assert forall|i: int, j: int|
            0 <= i < j < c.voices.len() implies (#[trigger] after(channel_tick(), c, n).voices[i]).freq
            != (#[trigger] after(channel_tick(), c, n).voices[j]).freq by {
            lemma_voice_after_freq(c.voices[i], n);
            lemma_voice_after_freq(c.voices[j], n);
        }
    } else {
        assert(c.voices =~= c.voices.map_values(|v: VoiceModel| after(voice_tick(), v, n)));
    }
}

/// Ticking keeps a voice's tuning.
proof fn lemma_voice_after_freq(v: VoiceModel, n: nat)
    ensures
        after(voice_tick(), v, n).freq == v.freq,
        after(voice_tick(), v, n).rate == v.rate,
    decreases n,
{
    if n > 0 {
        lemma_voice_after_freq(v, (n - 1) as nat);
    }
}

/// Mixing law of a channel: on every tick, the channel's bit is the OR of
/// the bits its voices emit on that tick, so an empty channel stays low.
pub proof fn lemma_channel_or(c: ChannelModel, n: nat)
    requires
        c.wf(),
    ensures
        emitted(channel_tick(), channel_bit(), c, n).len() == n,
        forall|k: int|
            0 <= k < n ==> (#[trigger] emitted(channel_tick(), channel_bit(), c, n)[k]) == exists|
                i: int,
            |
                0 <= i < c.voices.len() && (#[trigger] emitted(
                    voice_tick(),
                    voice_bit(),
                    c.voices[i],
                    n,
                )[k]),
        c.voices.len() == 0 ==> forall|k: int|
            0 <= k < n ==> !(#[trigger] emitted(channel_tick(), channel_bit(), c, n)[k]),
{
    lemma_emitted(channel_tick(), channel_bit(), c, n);
    assert forall|k: int| 0 <= k < n implies (#[trigger] emitted(
        channel_tick(),
        channel_bit(),
        c,
        n,
    )[k]) == exists|i: int|
        0 <= i < c.voices.len() && (#[trigger] emitted(
            voice_tick(),
            voice_bit(),
            c.voices[i],
            n,
        )[k]) by {
        lemma_channel_after(c, k as nat);
        let ck = after(channel_tick(), c, k as nat);
        assert forall|i: int| 0 <= i < c.voices.len() implies (#[trigger] emitted(
            voice_tick(),
            voice_bit(),
            c.voices[i],
            n,
        )[k]) == ck.voices[i].bit() by {
            lemma_emitted(voice_tick(), voice_bit(), c.voices[i], n);
        }
        if ck.bit() {
            let i = choose|i: int| 0 <= i < ck.voices.len() && (#[trigger] ck.voices[i]).bit();
            assert(emitted(voice_tick(), voice_bit(), c.voices[i], n)[k]);
        }
        if exists|i: int|
            0 <= i < c.voices.len() && (#[trigger] emitted(
                voice_tick(),
                voice_bit(),
                c.voices[i],
                n,
            )[k]) {
            let i = choose|i: int|
                0 <= i < c.voices.len() && (#[trigger] emitted(
                    voice_tick(),
                    voice_bit(),
                    c.voices[i],
                    n,
                )[k]);
            assert(ck.voices[i].bit());
        }
    }
}

} // verus!
