//! A one-bit square-wave oscillator.

use vstd::prelude::*;

use crate::signal::{after, emitted, lemma_emitted};
use crate::{DUTY_MAX, SAMPLE_RATE};

verus! {

/// What a [`Voice`] holds, as mathematical values.
pub struct VoiceModel {
    /// Frequency in Hz; 0 is silence.
    pub freq: nat,
    /// Duty cycle, in units of `1 / DUTY_MAX`.
    pub duty: nat,
    /// Position inside the current period.
    pub phase: nat,
    /// Length of one period in ticks: `rate / freq`, 0 when `freq` is 0.
    pub period: nat,
    /// Ticks of a period under the duty cycle: `floor(period * duty)`.
    pub width: nat,
    /// Whether the voice is turned on.
    pub on: bool,
    /// Samples per second the voice is tuned against.
    pub rate: nat,
}

/// The period of frequency `freq` at sample rate `rate`, in ticks.
pub open spec fn period_of(rate: nat, freq: nat) -> nat {
    if freq == 0 {
        0
    } else {
        rate / freq
    }
}

/// The number of ticks of a period of length `period` under duty cycle `duty`.
pub open spec fn width_of(period: nat, duty: nat) -> nat {
    period * duty / (DUTY_MAX as nat)
}

/// A duty cycle clamped into `[0, DUTY_MAX]`.
pub open spec fn clamp_duty(duty: nat) -> nat {
    if duty > DUTY_MAX {
        DUTY_MAX as nat
    } else {
        duty
    }
}

impl VoiceModel {
    /// The tuning fields agree with each other.
    pub open spec fn wf(self) -> bool {
        &&& self.duty <= DUTY_MAX
        &&& self.rate <= u32::MAX
        &&& self.freq <= u32::MAX
        &&& self.period == period_of(self.rate, self.freq)
        &&& self.width == width_of(self.period, self.duty)
        &&& (self.phase < self.period || self.phase == 0)
    }

    /// A voice sounds when it is on and its period is not empty.
    pub open spec fn sounding(self) -> bool {
        self.on && self.period > 0
    }

    /// The bit emitted by the next tick: high while the phase is under the
    /// duty-cycle width.
    pub open spec fn bit(self) -> bool {
        self.sounding() && self.phase < self.width
    }

    /// The state after one tick: the phase advances and wraps to 0 at the end
    /// of the period; a silent voice does not move.
    pub open spec fn tick(self) -> VoiceModel {
        if self.sounding() {
            VoiceModel {
                phase: if self.phase + 1 >= self.period {
                    0
                } else {
                    (self.phase + 1) as nat
                },
                ..self
            }
        } else {
            self
        }
    }

    /// The state after `set(freq, duty)`.
    pub open spec fn set(self, freq: nat, duty: nat) -> VoiceModel {
        if freq == 0 {
            VoiceModel { freq: 0, period: 0, width: 0, phase: 0, on: false, ..self }
        } else {
            VoiceModel {
                freq,
                duty: clamp_duty(duty),
                phase: 0,
                period: period_of(self.rate, freq),
                width: width_of(period_of(self.rate, freq), clamp_duty(duty)),
                on: true,
                rate: self.rate,
            }
        }
    }

    /// A fresh voice tuned to `freq` and `duty` at sample rate `rate`.
    pub open spec fn fresh(rate: nat, freq: nat, duty: nat) -> VoiceModel {
        VoiceModel {
            freq,
            duty: clamp_duty(duty),
            phase: 0,
            period: period_of(rate, freq),
            width: width_of(period_of(rate, freq), clamp_duty(duty)),
            on: true,
            rate,
        }
    }
}

/// One tick of a voice, as a function.
pub open spec fn voice_tick() -> spec_fn(VoiceModel) -> VoiceModel {
    |m: VoiceModel| m.tick()
}

/// The bit of a voice's next tick, as a function.
pub open spec fn voice_bit() -> spec_fn(VoiceModel) -> bool {
    |m: VoiceModel| m.bit()
}

/// Generates a one-bit square wave: high for the first part of each period
/// as set by the duty cycle, low for the rest.
#[derive(Clone, Copy, Debug)]
pub struct Voice {
    freq: u32,
    duty: u32,
    counter: u32,
    period: u32,
    waveform: u32,
    on: bool,
    sample_rate: u32,
}

impl View for Voice {
    type V = VoiceModel;

    closed spec fn view(&self) -> VoiceModel {
        VoiceModel {
            freq: self.freq as nat,
            duty: self.duty as nat,
            phase: self.counter as nat,
            period: self.period as nat,
            width: self.waveform as nat,
            on: self.on,
            rate: self.sample_rate as nat,
        }
    }
}

proof fn lemma_width_bounds(period: nat, duty: nat)
    requires
        duty <= DUTY_MAX,
    ensures
        width_of(period, duty) <= period,
{
    assert(period * duty <= period * (DUTY_MAX as nat)) by (nonlinear_arith)
        requires
            duty <= DUTY_MAX,
    ;
    assert(period * (DUTY_MAX as nat) / (DUTY_MAX as nat) == period) by (nonlinear_arith);
    assert(period * duty / (DUTY_MAX as nat) <= period * (DUTY_MAX as nat) / (DUTY_MAX as nat))
        by (nonlinear_arith)
        requires
            period * duty <= period * (DUTY_MAX as nat),
    ;
}

impl Voice {
    /// A voice at the default sample rate, tuned to `freq` Hz with duty cycle
    /// `duty / DUTY_MAX` (clamped to 1), turned on.
    pub fn new(freq: u32, duty: u32) -> (r: Voice)
        ensures
            r@ == VoiceModel::fresh(SAMPLE_RATE as nat, freq as nat, duty as nat),
            r@.wf(),
    {
        Voice::with_sample_rate(SAMPLE_RATE, freq, duty)
    }

    /// A voice tuned against `sample_rate` samples per second.
    pub fn with_sample_rate(sample_rate: u32, freq: u32, duty: u32) -> (r: Voice)
        ensures
            r@ == VoiceModel::fresh(sample_rate as nat, freq as nat, duty as nat),
            r@.wf(),
    {
        let duty = if duty > DUTY_MAX {
            DUTY_MAX
        } else {
            duty
        };
        let period: u32 = if freq == 0 {
            0
        } else {
            sample_rate / freq
        };
        proof {
            lemma_width_bounds(period as nat, duty as nat);
        }
        let waveform = ((period as u64) * (duty as u64) / (DUTY_MAX as u64)) as u32;
        Voice { freq, duty, counter: 0, period, waveform, on: true, sample_rate }
    }

    /// The frequency the voice is tuned to.
    pub fn freq(&self) -> (r: u32)
        ensures
            r == self@.freq,
    {
        self.freq
    }

    /// The duty cycle, in units of `1 / DUTY_MAX`.
    pub fn duty(&self) -> (r: u32)
        ensures
            r == self@.duty,
    {
        self.duty
    }

    /// Tunes the voice to `freq` and `duty` (clamped to `DUTY_MAX`), restarts
    /// its period and turns it on; a frequency of 0 silences it instead and
    /// keeps the duty cycle.
    pub fn set(&mut self, freq: u32, duty: u32)
        requires
            old(self)@.wf(),
        ensures
            final(self)@ == old(self)@.set(freq as nat, duty as nat),
            final(self)@.wf(),
    {
        if freq == 0 {
            self.freq = 0;
            self.period = 0;
            self.waveform = 0;
            self.counter = 0;
            self.on = false;
        } else {
            let duty = if duty > DUTY_MAX {
                DUTY_MAX
            } else {
                duty
            };
            let period = self.sample_rate / freq;
            proof {
                lemma_width_bounds(period as nat, duty as nat);
            }
            self.freq = freq;
            self.duty = duty;
            self.counter = 0;
            self.period = period;
            self.waveform = ((period as u64) * (duty as u64) / (DUTY_MAX as u64)) as u32;
            self.on = true;
        }
    }

    /// Turns the voice off, keeping its tuning.
    pub fn unset(&mut self)
        requires
            old(self)@.wf(),
        ensures
            final(self)@ == (VoiceModel { on: false, ..old(self)@ }),
            final(self)@.wf(),
    {
        self.on = false;
    }

    /// Whether the voice is turned on.
    pub fn is_on(&self) -> (r: bool)
        ensures
            r == self@.on,
    {
        self.on
    }

    /// The next sample: high while the phase is under the duty-cycle width;
    /// then the phase advances, wrapping to 0 at the end of the period. A
    /// silent voice gives a low bit and does not move.
    pub fn out(&mut self) -> (r: bool)
        requires
            old(self)@.wf(),
        ensures
            r == old(self)@.bit(),
            final(self)@ == old(self)@.tick(),
            final(self)@.wf(),
    {
        if !self.on || self.period == 0 {
            return false;
        }
        let out = self.counter < self.waveform;
        if self.counter + 1 >= self.period {
            self.counter = 0;
        } else {
            self.counter = self.counter + 1;
        }
        out
    }

    /// The next `n` samples, as `n` calls of `out` would give them.
    pub fn out_buffer(&mut self, n: usize) -> (r: Vec<bool>)
        requires
            old(self)@.wf(),
        ensures
            r@ == emitted(voice_tick(), voice_bit(), old(self)@, n as nat),
            final(self)@ == after(voice_tick(), old(self)@, n as nat),
            final(self)@.wf(),
    {
        let mut buffer: Vec<bool> = Vec::new();
        let mut i: usize = 0;
        while i < n
            invariant
                i <= n,
                self@.wf(),
                buffer@ == emitted(voice_tick(), voice_bit(), old(self)@, i as nat),
                self@ == after(voice_tick(), old(self)@, i as nat),
            decreases n - i,
        {
            let b = self.out();
            buffer.push(b);
            i = i + 1;
        }
        buffer
    }
}

/// A voice's phase stays well formed under ticking.
pub proof fn lemma_voice_after_wf(m: VoiceModel, n: nat)
    requires
        m.wf(),
    ensures
        after(voice_tick(), m, n).wf(),
    decreases n,
{
    if n > 0 {
        lemma_voice_after_wf(m, (n - 1) as nat);
    }
}

/// After `k` ticks from phase 0, a sounding voice stands at phase `k % period`.
proof fn lemma_fresh_phase(m: VoiceModel, k: nat)
    requires
        m.wf(),
        m.sounding(),
        m.phase == 0,
    ensures
        after(voice_tick(), m, k) == (VoiceModel { phase: k % m.period, ..m }),
    decreases k,
{
    let p = m.period;
    if k == 0 {
        assert(0nat % p == 0) by (nonlinear_arith)
            requires
                p > 0,
        ;
    } else {
        lemma_fresh_phase(m, (k - 1) as nat);
        let j = (k - 1) as nat % p;
        assert(j < p) by (nonlinear_arith)
            requires
                p > 0,
                j == (k - 1) as nat % p,
        ;
        assert(j + 1 >= p ==> k % p == 0) by (nonlinear_arith)
            requires
                p > 0,
                k > 0,
                j == (k - 1) as nat % p,
        ;
        assert(j + 1 < p ==> k % p == j + 1) by (nonlinear_arith)
            requires
                p > 0,
                k > 0,
                j == (k - 1) as nat % p,
        ;
        assert(after(voice_tick(), m, k) == after(voice_tick(), m, (k - 1) as nat).tick());
    }
}

/// The square wave of a freshly tuned voice: it repeats every `period =
/// rate / freq` ticks, and exactly the first `floor(period * duty)` ticks of
/// each period are high.
pub proof fn lemma_square_wave(rate: nat, freq: nat, duty: nat, n: nat)
    requires
        freq > 0,
        rate <= u32::MAX,
        freq <= u32::MAX,
        rate / freq > 0,
    ensures
        ({
            let m = VoiceModel::fresh(rate, freq, duty);
            let w = emitted(voice_tick(), voice_bit(), m, n);
            &&& w.len() == n
            &&& forall|k: int| 0 <= k < n ==> #[trigger] w[k] == (k % (m.period as int) < m.width)
            &&& forall|k: int| m.period <= k < n ==> #[trigger] w[k] == w[k - m.period]
        }),
{
    let m = VoiceModel::fresh(rate, freq, duty);
    lemma_width_bounds(m.period, m.duty);
    let w = emitted(voice_tick(), voice_bit(), m, n);
    lemma_emitted(voice_tick(), voice_bit(), m, n);
    assert forall|k: int| 0 <= k < n implies #[trigger] w[k] == (k % (m.period as int)
        < m.width) by {
        lemma_fresh_phase(m, k as nat);
    }
    assert forall|k: int| m.period <= k < n implies #[trigger] w[k] == w[k - m.period] by {
        lemma_fresh_phase(m, k as nat);
        lemma_fresh_phase(m, (k - m.period) as nat);
        let p = m.period as int;
        assert(k % p == (k - p) % p) by (nonlinear_arith)
            requires
                p > 0,
                k >= p,
        ;
    }
}

} // verus!
