//! One-shot playback of recorded bit buffers, multiplexed like channels.

use vstd::prelude::*;

use crate::signal::{after, emitted, lemma_after_add, lemma_emitted};

verus! {

/// What a [`DrumVoice`] holds, as mathematical values.
pub struct DrumVoiceModel {
    /// The recorded bits.
    pub sample: Seq<bool>,
    /// The position of the next bit to play.
    pub counter: nat,
    /// Whether playback is running.
    pub on_hit: bool,
}

impl DrumVoiceModel {
    /// While playing, the position is inside the buffer.
    pub open spec fn wf(self) -> bool {
        &&& self.on_hit ==> self.counter < self.sample.len()
        &&& self.counter <= self.sample.len()
    }

    /// The voice after `hit`: playback restarts at the first bit; an empty
    /// buffer has nothing to play.
    pub open spec fn hit(self) -> DrumVoiceModel {
        DrumVoiceModel { counter: 0, on_hit: self.sample.len() > 0, ..self }
    }

    /// The next bit: the bit under the position while playing, else low.
    pub open spec fn bit(self) -> bool {
        self.on_hit && self.sample[self.counter as int]
    }

    /// The voice after one tick: the position moves on, and playback stops
    /// at the end of the buffer.
    pub open spec fn tick(self) -> DrumVoiceModel {
        if self.on_hit {
            DrumVoiceModel {
                counter: self.counter + 1,
                on_hit: self.counter + 1 < self.sample.len(),
                ..self
            }
        } else {
            self
        }
    }
}

/// One tick of a drum voice, as a function.
pub open spec fn drum_tick() -> spec_fn(DrumVoiceModel) -> DrumVoiceModel {
    |d: DrumVoiceModel| d.tick()
}

/// The bit of a drum voice's next tick, as a function.
pub open spec fn drum_bit() -> spec_fn(DrumVoiceModel) -> bool {
    |d: DrumVoiceModel| d.bit()
}

/// Plays a recorded bit buffer once each time it is hit.
#[derive(Debug)]
pub struct DrumVoice {
    sample: Vec<bool>,
    counter: usize,
    on_hit: bool,
}

impl View for DrumVoice {
    type V = DrumVoiceModel;

    closed spec fn view(&self) -> DrumVoiceModel {
        DrumVoiceModel { sample: self.sample@, counter: self.counter as nat, on_hit: self.on_hit }
    }
}

impl DrumVoice {
    /// A silent voice holding `sample`, waiting for a hit.
    pub fn new(sample: Vec<bool>) -> (r: DrumVoice)
        ensures
            r@ == (DrumVoiceModel { sample: sample@, counter: 0, on_hit: false }),
            r@.wf(),
    {
        DrumVoice { sample, counter: 0, on_hit: false }
    }

    /// Restarts playback from the first bit, cutting off any playback under way.
    pub fn hit(&mut self)
        requires
            old(self)@.wf(),
        ensures
            final(self)@ == old(self)@.hit(),
            final(self)@.wf(),
    {
        self.counter = 0;
        self.on_hit = self.sample.len() > 0;
    }

    /// Whether playback is running.
    pub fn is_playing(&self) -> (r: bool)
        ensures
            r == self@.on_hit,
    {
        self.on_hit
    }

    /// The next bit: while playing, the bit under the position, which then
    /// moves on (playback stops at the end of the buffer); otherwise low.
    pub fn get_sample(&mut self) -> (r: bool)
        requires
            old(self)@.wf(),
        ensures
            r == old(self)@.bit(),
            final(self)@ == old(self)@.tick(),
            final(self)@.wf(),
    {
        let mut out = false;
        if self.on_hit {
            assert(self.counter < self.sample.len());
            out = self.sample[self.counter];
            self.counter = self.counter + 1;
            if self.counter >= self.sample.len() {
                self.on_hit = false;
            }
        }
        out
    }
}

/// After `k` ticks from a hit, within the buffer, the voice plays position `k`.
proof fn lemma_drum_after_hit(d: DrumVoiceModel, k: nat)
    requires
        d.wf(),
        k <= d.sample.len(),
    ensures
        after(drum_tick(), d.hit(), k) == (DrumVoiceModel {
            counter: k,
            on_hit: k < d.sample.len(),
            ..d
        }),
    decreases k,
{
    if k > 0 {
        lemma_drum_after_hit(d, (k - 1) as nat);
    }
}

/// A stopped voice stays stopped and silent.
proof fn lemma_drum_stopped(d: DrumVoiceModel, k: nat)
    requires
        !d.on_hit,
    ensures
        after(drum_tick(), d, k) == d,
    decreases k,
{
    if k > 0 {
        lemma_drum_stopped(d, (k - 1) as nat);
    }
}

/// Retrigger: whatever the position before, after a hit the next
/// `len(sample)` bits are the buffer from its first bit, and every bit after
/// them is low until the next hit.
pub proof fn lemma_retrigger(d: DrumVoiceModel, extra: nat)
    requires
        d.wf(),
    ensures
        ({
            let w = emitted(drum_tick(), drum_bit(), d.hit(), d.sample.len() + extra);
            &&& w.len() == d.sample.len() + extra
            &&& w.subrange(0, d.sample.len() as int) == d.sample
            &&& forall|k: int| d.sample.len() <= k < w.len() ==> !(#[trigger] w[k])
        }),
{
    let len = d.sample.len();
    let n = len + extra;
    let w = emitted(drum_tick(), drum_bit(), d.hit(), n);
    lemma_emitted(drum_tick(), drum_bit(), d.hit(), n);
    assert forall|k: int| 0 <= k < len implies #[trigger] w[k] == d.sample[k] by {
        lemma_drum_after_hit(d, k as nat);
    }
    assert(w.subrange(0, len as int) =~= d.sample);
    assert forall|k: int| len <= k < w.len() implies !(#[trigger] w[k]) by {
        lemma_drum_after_hit(d, len);
        let end = after(drum_tick(), d.hit(), len);
        lemma_drum_stopped(end, (k - len) as nat);
        lemma_after_add(drum_tick(), d.hit(), len, (k - len) as nat);
    }
}

/// What a [`DrumMachine`] holds, as mathematical values.
pub struct DrumMachineModel {
    /// The loaded voices, in load order.
    pub voices: Seq<DrumVoiceModel>,
    /// The voice whose bit the next sample carries.
    pub current: nat,
}

impl DrumMachineModel {
    /// The cursor is on a voice (or 0 when there is none), every voice well formed.
    pub open spec fn wf(self) -> bool {
        &&& (self.current < self.voices.len() || (self.voices.len() == 0 && self.current == 0))
        &&& forall|i: int| 0 <= i < self.voices.len() ==> (#[trigger] self.voices[i]).wf()
    }

    /// The machine after `load_voice(v)`: `v` is appended; loaded into an
    /// empty machine, it is hit at once.
    pub open spec fn load(self, v: DrumVoiceModel) -> DrumMachineModel {
        if self.voices.len() == 0 {
            DrumMachineModel { voices: seq![v.hit()], ..self }
        } else {
            DrumMachineModel { voices: self.voices.push(v), ..self }
        }
    }

    /// The next bit: that of the voice at the cursor; low with no voice.
    pub open spec fn bit(self) -> bool {
        self.voices.len() > 0 && self.voices[self.current as int].bit()
    }

    /// The machine after one sample: every voice ticks and the cursor moves
    /// on to the next voice, wrapping around.
    pub open spec fn tick(self) -> DrumMachineModel {
        if self.voices.len() > 0 {
            DrumMachineModel {
                voices: self.voices.map_values(|d: DrumVoiceModel| d.tick()),
                current: (self.current + 1) % self.voices.len(),
            }
        } else {
            self
        }
    }
}

/// Interleaves several drum voices on one output, one sample each in turn.
#[derive(Debug)]
pub struct DrumMachine {
    voices: Vec<DrumVoice>,
    current: usize,
}

impl View for DrumMachine {
    type V = DrumMachineModel;

    closed spec fn view(&self) -> DrumMachineModel {
        DrumMachineModel {
            voices: self.voices@.map_values(|d: DrumVoice| d@),
            current: self.current as nat,
        }
    }
}

impl DrumMachine {
    /// A machine with no voice.
    pub fn new() -> (r: DrumMachine)
        ensures
            r@ == (DrumMachineModel { voices: Seq::empty(), current: 0 }),
            r@.wf(),
    {
        let r = DrumMachine { voices: Vec::new(), current: 0 };
        assert(r@.voices =~= Seq::empty());
        r
    }

    /// The number of loaded voices.
    pub fn voice_count(&self) -> (r: usize)
        ensures
            r == self@.voices.len(),
    {
        self.voices.len()
    }

    /// Appends `voice`; loaded into an empty machine, it plays at once.
    pub fn load_voice(&mut self, voice: DrumVoice)
        requires
            old(self)@.wf(),
            voice@.wf(),
        ensures
            final(self)@ == old(self)@.load(voice@),
            final(self)@.wf(),
    {
        let ghost m = self@;
        let was_empty = self.voices.len() == 0;
        let mut voice = voice;
        if was_empty {
            voice.hit();
        }
        self.voices.push(voice);
        proof {
            if was_empty {
                assert(self@.voices =~= seq![voice@]);
            } else {
                assert(self@.voices =~= m.voices.push(voice@));
            }
        }
    }

    /// The next bit: every voice advances one tick, and the bit is that of
    /// the voice at the cursor, which then moves on; low with no voice.
    pub fn get_sample(&mut self) -> (r: bool)
        requires
            old(self)@.wf(),
        ensures
            r == old(self)@.bit(),
            final(self)@ == old(self)@.tick(),
            final(self)@.wf(),
    {
        let ghost m = self@;
        let mut out = false;
        if self.voices.len() > 0 {
            let mut i: usize = 0;
            while i < self.voices.len()
                invariant
                    i <= self.voices.len(),
                    self.voices.len() == m.voices.len(),
                    self.current == m.current,
                    m.wf(),
                    m.voices.len() > 0,
                    forall|j: int| 0 <= j < i ==> (#[trigger] self.voices@[j])@ == m.voices[j].tick(),
                    forall|j: int|
                        i <= j < self.voices.len() ==> (#[trigger] self.voices@[j])@ == m.voices[j],
                    i > m.current ==> out == m.bit(),
                decreases self.voices.len() - i,
            {
                assert(self.voices@[i as int]@ == m.voices[i as int]);
                let channel_out: bool = self.voices[i].get_sample();
                if i == self.current {
                    out = channel_out;
                }
                i = i + 1;
            }
            self.current = (self.current + 1) % self.voices.len();
            proof {
                assert(self@.voices =~= m.tick().voices);
            }
        } else {
            assert(self@ == m);
        }
        out
    }
}

/// One sample of a drum machine, as a function.
pub open spec fn machine_tick() -> spec_fn(DrumMachineModel) -> DrumMachineModel {
    |m: DrumMachineModel| m.tick()
}

/// The bit of a drum machine's next sample, as a function.
pub open spec fn machine_bit() -> spec_fn(DrumMachineModel) -> bool {
    |m: DrumMachineModel| m.bit()
}

proof fn lemma_machine_after(m: DrumMachineModel, n: nat)
    requires
        m.wf(),
        m.voices.len() > 0,
    ensures
        after(machine_tick(), m, n) == (DrumMachineModel {
            voices: m.voices.map_values(|d: DrumVoiceModel| after(drum_tick(), d, n)),
            current: (m.current + n) % m.voices.len(),
        }),
    decreases n,
{
    let len = m.voices.len() as int;
    if n > 0 {
        lemma_machine_after(m, (n - 1) as nat);
        assert(after(machine_tick(), m, n).voices =~= m.voices.map_values(
            |d: DrumVoiceModel| after(drum_tick(), d, n),
        ));
        vstd::arithmetic::div_mod::lemma_add_mod_noop_right(1, m.current + n - 1, len);
    } else {
        assert(m.voices =~= m.voices.map_values(|d: DrumVoiceModel| after(drum_tick(), d, n)));
        vstd::arithmetic::div_mod::lemma_small_mod(m.current, len as nat);
    }
}

/// Round robin of a drum machine: starting at cursor `c` on `N` voices,
/// sample `k` carries the bit voice `(c + k) % N` gives on its own `k`-th
/// tick, and after `n` samples every voice has advanced `n` ticks.
pub proof fn lemma_machine_round_robin(m: DrumMachineModel, n: nat)
    requires
        m.wf(),
        m.voices.len() > 0,
    ensures
        emitted(machine_tick(), machine_bit(), m, n).len() == n,
        forall|k: int|
            0 <= k < n ==> #[trigger] emitted(machine_tick(), machine_bit(), m, n)[k] == after(
                drum_tick(),
                m.voices[(m.current + k) % (m.voices.len() as int)],
                k as nat,
            ).bit(),
        forall|j: int|
            0 <= j < m.voices.len() ==> #[trigger] after(machine_tick(), m, n).voices[j] == after(
                drum_tick(),
                m.voices[j],
                n,
            ),
{
    lemma_emitted(machine_tick(), machine_bit(), m, n);
    lemma_machine_after(m, n);
    assert forall|k: int| 0 <= k < n implies #[trigger] emitted(machine_tick(), machine_bit(), m, n)[k]
        == after(drum_tick(), m.voices[(m.current + k) % (m.voices.len() as int)], k as nat).bit() by {
        lemma_machine_after(m, k as nat);
        let len = m.voices.len() as int;
        assert(0 <= (m.current + k) % len < len) by (nonlinear_arith)
            requires
                len > 0,
                k >= 0,
        ;
    }
}

} // verus!
