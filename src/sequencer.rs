//! The scheduler and render loop: timed note events applied to a synth in
//! lock-step with rendering, one buffer per loop iteration.

use vstd::prelude::*;

use crate::channel::ChannelModel;
use crate::config::Config;
use crate::signal::{after, emitted};
use crate::synth::{synth_bit, synth_tick, Synth, SynthModel};

verus! {

/// What a scheduled event does to the synth.
#[derive(Clone, Copy, Debug, PartialEq, Eq, Structural)]
pub enum Action {
    /// Start note `freq` with duty cycle `duty` on `channel`.
    NoteOn { channel: usize, freq: u32, duty: u32 },
    /// Stop note `freq` on `channel`.
    NoteOff { channel: usize, freq: u32 },
    /// Nothing; the event only takes time.
    Idle,
}

/// An action and the number of loop iterations to wait, after the previous
/// event of its track, before applying it.
#[derive(Clone, Copy, Debug, PartialEq, Eq, Structural)]
pub struct TimedEvent {
    /// Loop iterations between the previous event and this one.
    pub delay: u64,
    /// What to do.
    pub action: Action,
}

/// Microseconds per second.
pub const MICROS_PER_SECOND: u64 = 1_000_000;

/// The number of loop iterations in `us` microseconds, when each second
/// holds `sample_rate / buffer_size` iterations.
pub open spec fn iterations_of_us(us: nat, sample_rate: nat, buffer_size: nat) -> nat {
    us * (sample_rate / buffer_size) / (MICROS_PER_SECOND as nat)
}

/// `iterations_of_us`, saturated at `u64::MAX`.
pub open spec fn delay_of_us(us: nat, sample_rate: nat, buffer_size: nat) -> u64 {
    if iterations_of_us(us, sample_rate, buffer_size) > u64::MAX {
        u64::MAX
    } else {
        iterations_of_us(us, sample_rate, buffer_size) as u64
    }
}

/// Converts a delay in microseconds to loop iterations, each of
/// `buffer_size` samples at `sample_rate`: `us * (sample_rate / buffer_size)
/// / 1_000_000`, saturating at `u64::MAX`.
pub fn us_to_iterations(us: u64, sample_rate: u32, buffer_size: usize) -> (r: u64)
    requires
        buffer_size > 0,
    ensures
        r == delay_of_us(us as nat, sample_rate as nat, buffer_size as nat),
{
    let per_second: u128 = (sample_rate as u128) / (buffer_size as u128);
    assert(per_second <= u32::MAX) by (nonlinear_arith)
        requires
            per_second == (sample_rate as u128) / (buffer_size as u128),
            buffer_size > 0,
    ;
    assert((us as u128) * per_second <= (u64::MAX as u128) * (u32::MAX as u128)) by (nonlinear_arith)
        requires
            per_second <= u32::MAX,
    ;
    let total: u128 = (us as u128) * per_second / (MICROS_PER_SECOND as u128);
    if total > u64::MAX as u128 {
        u64::MAX
    } else {
        total as u64
    }
}

/// The synth after `a` is applied; a refused note leaves it as it was.
pub open spec fn apply_action(s: SynthModel, a: Action) -> SynthModel {
    match a {
        Action::NoteOn { channel, freq, duty } => if s.accepts(freq as nat, channel as nat) {
            s.note_on(freq as nat, duty as nat, channel as nat)
        } else {
            s
        },
        Action::NoteOff { channel, freq } => s.note_off(freq as nat, channel as nat),
        Action::Idle => s,
    }
}

/// Applies `a` to `synth`.
pub fn perform(synth: &mut Synth, a: Action)
    requires
        old(synth)@.wf(),
    ensures
        final(synth)@ == apply_action(old(synth)@, a),
        final(synth)@.wf(),
{
    match a {
        Action::NoteOn { channel, freq, duty } => {
            let _ = synth.note_on(freq, duty, channel);
        },
        Action::NoteOff { channel, freq } => {
            synth.note_off(freq, channel);
        },
        Action::Idle => {},
    }
}

/// What a [`TrackTimer`] holds, as mathematical values.
pub struct TrackModel {
    /// The track's events, in order.
    pub events: Seq<TimedEvent>,
    /// The index of the next event to apply; the track is finished when it
    /// reaches the end.
    pub cursor: nat,
    /// Iterations left before the next event is due.
    pub remaining: nat,
}

impl TrackModel {
    /// The cursor is within the events, and the countdown fits a `u64`.
    pub open spec fn wf(self) -> bool {
        self.cursor <= self.events.len() && self.remaining <= u64::MAX
    }

    /// Whether every event was applied.
    pub open spec fn finished(self) -> bool {
        self.cursor >= self.events.len()
    }

    /// Whether the next event is due now.
    pub open spec fn due(self) -> bool {
        !self.finished() && self.remaining == 0
    }

    /// The track after applying its next event: the cursor moves on and the
    /// countdown loads the following event's delay.
    pub open spec fn advance(self) -> TrackModel {
        let c = self.cursor + 1;
        TrackModel {
            cursor: c,
            remaining: if c < self.events.len() {
                self.events[c as int].delay as nat
            } else {
                0
            },
            ..self
        }
    }

    /// The track after the countdown of one iteration.
    pub open spec fn count_down(self) -> TrackModel {
        if !self.finished() && self.remaining > 0 {
            TrackModel { remaining: (self.remaining - 1) as nat, ..self }
        } else {
            self
        }
    }
}

/// Applies every event of `t` that is due, in order, to `s`.
pub open spec fn fire(t: TrackModel, s: SynthModel) -> (TrackModel, SynthModel)
    decreases t.events.len() - t.cursor,
{
    if t.due() {
        fire(t.advance(), apply_action(s, t.events[t.cursor as int].action))
    } else {
        (t, s)
    }
}

/// The tracks and synth after tracks `0..i` each applied their due events
/// and counted one iteration down, in track order.
pub open spec fn advance_tracks(tracks: Seq<TrackModel>, s: SynthModel, i: nat) -> (
    Seq<TrackModel>,
    SynthModel,
)
    decreases i,
{
    if i == 0 || i > tracks.len() {
        (tracks, s)
    } else {
        let (ts, s1) = advance_tracks(tracks, s, (i - 1) as nat);
        let (t2, s2) = fire(ts[i - 1], s1);
        (ts.update(i - 1, t2.count_down()), s2)
    }
}

/// One track of timed events and its countdown.
#[derive(Debug)]
pub struct TrackTimer {
    events: Vec<TimedEvent>,
    cursor: usize,
    remaining: u64,
}

impl View for TrackTimer {
    type V = TrackModel;

    closed spec fn view(&self) -> TrackModel {
        TrackModel {
            events: self.events@,
            cursor: self.cursor as nat,
            remaining: self.remaining as nat,
        }
    }
}

impl TrackTimer {
    /// A track at its start: the countdown holds the first event's delay.
    pub fn new(events: Vec<TimedEvent>) -> (r: TrackTimer)
        ensures
            r@ == (TrackModel {
                events: events@,
                cursor: 0,
                remaining: if events@.len() > 0 {
                    events@[0].delay as nat
                } else {
                    0
                },
            }),
            r@.wf(),
    {
        let remaining = if events.len() > 0 {
            events[0].delay
        } else {
            0
        };
        TrackTimer { events, cursor: 0, remaining }
    }

    /// Whether every event was applied.
    pub fn finished(&self) -> (r: bool)
        ensures
            r == self@.finished(),
    {
        self.cursor >= self.events.len()
    }

    /// The next event's action when it is due, the track then advancing past
    /// it; `None`, with the track unchanged, when nothing is due.
    fn take_due(&mut self) -> (r: Option<Action>)
        requires
            old(self)@.wf(),
        ensures
            final(self)@.wf(),
            old(self)@.due() ==> r == Some(old(self)@.events[old(self)@.cursor as int].action)
                && final(self)@ == old(self)@.advance(),
            !old(self)@.due() ==> r is None && final(self)@ == old(self)@,
    {
        if self.cursor < self.events.len() && self.remaining == 0 {
            let a = self.events[self.cursor].action;
            self.cursor = self.cursor + 1;
            self.remaining = if self.cursor < self.events.len() {
                self.events[self.cursor].delay
            } else {
                0
            };
            Some(a)
        } else {
            None
        }
    }

    /// Counts one iteration down, unless the track is finished.
    fn count_down(&mut self)
        requires
            old(self)@.wf(),
        ensures
            final(self)@ == old(self)@.count_down(),
            final(self)@.wf(),
    {
        if self.cursor < self.events.len() && self.remaining > 0 {
            self.remaining = self.remaining - 1;
        }
    }
}

/// What a [`Sequencer`] holds, as mathematical values.
pub struct SequencerModel {
    /// The synth the events play on.
    pub synth: SynthModel,
    /// The tracks.
    pub tracks: Seq<TrackModel>,
    /// Samples rendered per iteration.
    pub buffer_size: nat,
}

impl SequencerModel {
    /// The sequencer after one loop iteration: every track, in order,
    /// applies its due events and counts down; then one buffer is rendered.
    pub open spec fn iterate(self) -> SequencerModel {
        let (ts, s1) = advance_tracks(self.tracks, self.synth, self.tracks.len());
        SequencerModel {
            synth: after(synth_tick(), s1, self.buffer_size),
            tracks: ts,
            buffer_size: self.buffer_size,
        }
    }

    /// The synth and every track are well formed.
    pub open spec fn wf(self) -> bool {
        &&& self.synth.wf()
        &&& forall|i: int| 0 <= i < self.tracks.len() ==> (#[trigger] self.tracks[i]).wf()
    }
}

/// Drives a synth from several tracks of timed events: each iteration
/// applies every due event, then renders one buffer.
#[derive(Debug)]
pub struct Sequencer {
    synth: Synth,
    tracks: Vec<TrackTimer>,
    buffer_size: usize,
}

impl View for Sequencer {
    type V = SequencerModel;

    closed spec fn view(&self) -> SequencerModel {
        SequencerModel {
            synth: self.synth@,
            tracks: self.tracks@.map_values(|t: TrackTimer| t@),
            buffer_size: self.buffer_size as nat,
        }
    }
}

impl Sequencer {
    /// A sequencer over a fresh synth built from `config`, with one track per
    /// list of events, every track at its start.
    pub fn new(config: &Config, tracks: Vec<Vec<TimedEvent>>) -> (r: Sequencer)
        requires
            config.valid(),
        ensures
            r@.wf(),
            r@.buffer_size == config.buffer_size,
            r@.synth.channels.len() == config.channels_max,
            r@.synth.current == 0,
            r@.synth.selected == 0,
            forall|i: int|
                0 <= i < r@.synth.channels.len() ==> (#[trigger] r@.synth.channels[i]) == (
                ChannelModel {
                    voices: Seq::empty(),
                    capacity: config.voices_max as nat,
                    rate: config.sample_rate as nat,
                }),
            r@.tracks.len() == tracks.len(),
            forall|i: int|
                0 <= i < tracks.len() ==> (#[trigger] r@.tracks[i]) == track_start(tracks@[i]@),
    {
        let synth = Synth::with_config(config);
        let mut timers: Vec<TrackTimer> = Vec::new();
        let mut tracks = tracks;
        let ghost given = tracks@;
        let mut i: usize = 0;
        let n = tracks.len();
        while i < n
            invariant
                n == given.len(),
                i <= n,
                tracks@ == given.subrange(i as int, n as int),
                timers.len() == i,
                forall|j: int|
                    0 <= j < i ==> (#[trigger] timers@[j])@.events == given[j]@
                        && timers@[j]@.cursor == 0 && timers@[j]@.remaining == (if given[j]@.len()
                        > 0 {
                        given[j]@[0].delay as nat
                    } else {
                        0
                    }) && timers@[j]@.wf(),
            decreases n - i,
        {
            let events = tracks.remove(0);
            assert(events == given[i as int]);
            timers.push(TrackTimer::new(events));
            i = i + 1;
            assert(tracks@ =~= given.subrange(i as int, n as int));
        }
        Sequencer { synth, tracks: timers, buffer_size: config.buffer_size }
    }

    /// The synth the events play on.
    pub fn synth(&self) -> (r: &Synth)
        ensures
            r@ == self@.synth,
    {
        &self.synth
    }

    /// Applies `a` to the synth at once, outside of any track.
    pub fn apply(&mut self, a: Action)
        requires
            old(self)@.wf(),
        ensures
            final(self)@ == (SequencerModel { synth: apply_action(old(self)@.synth, a), ..old(self)@ }),
            final(self)@.wf(),
    {
        perform(&mut self.synth, a);
    }

    /// Whether every track is finished.
    pub fn finished(&self) -> (r: bool)
        ensures
            r == forall|i: int| 0 <= i < self@.tracks.len() ==> (#[trigger] self@.tracks[i]).finished(),
    {
        let mut i: usize = 0;
        while i < self.tracks.len()
            invariant
                i <= self.tracks.len(),
                forall|j: int| 0 <= j < i ==> (#[trigger] self@.tracks[j]).finished(),
            decreases self.tracks.len() - i,
        {
            assert(self@.tracks[i as int] == self.tracks@[i as int]@);
            if !self.tracks[i].finished() {
                return false;
            }
            i = i + 1;
        }
        true
    }

    /// Applies every due event of track `i`, then counts it down one iteration.
    fn run_track(&mut self, i: usize)
        requires
            old(self)@.wf(),
            i < old(self)@.tracks.len(),
        ensures
            final(self)@.wf(),
            final(self)@.buffer_size == old(self)@.buffer_size,
            final(self).tracks@.len() == old(self).tracks@.len(),
            ({
                let (t2, s2) = fire(old(self)@.tracks[i as int], old(self)@.synth);
                &&& final(self)@.synth == s2
                &&& final(self)@.tracks == old(self)@.tracks.update(i as int, t2.count_down())
            }),
    {
        let ghost t0 = self@.tracks[i as int];
        let ghost s0 = self@.synth;
        let ghost ts0 = self@.tracks;
        loop
            invariant
                self@.wf(),
                self@.buffer_size == old(self)@.buffer_size,
                i < self@.tracks.len(),
                self@.tracks.len() == ts0.len(),
                forall|j: int| 0 <= j < ts0.len() && j != i ==> (#[trigger] self@.tracks[j]) == ts0[j],
                fire(t0, s0) == fire(self@.tracks[i as int], self@.synth),
            ensures
                !self@.tracks[i as int].due(),
            decreases self@.tracks[i as int].events.len() - self@.tracks[i as int].cursor,
        {
            assert(self.tracks@[i as int]@ == self@.tracks[i as int]);
            let ghost pre = self@;
            let due = self.tracks[i].take_due();
            proof {
                assert(self@.tracks =~= pre.tracks.update(i as int, self.tracks@[i as int]@));
            }
            match due {
                Some(a) => {
                    perform(&mut self.synth, a);
                },
                None => {
                    break ;
                },
            }
        }
        assert(self.tracks@[i as int]@ == self@.tracks[i as int]);
        let ghost pre = self@;
        self.tracks[i].count_down();
        proof {
            assert(self@.tracks =~= pre.tracks.update(i as int, self.tracks@[i as int]@));
            assert(self@.tracks =~= ts0.update(i as int, fire(t0, s0).0.count_down()));
        }
    }

    /// One loop iteration: every track, in order, applies each of its events
    /// that is due and counts one iteration down (a finished track stays as it
    /// is); then the synth renders one buffer, which is returned.
    pub fn tick(&mut self) -> (r: Vec<bool>)
        requires
            old(self)@.wf(),
        ensures
            final(self)@.wf(),
            final(self)@ == old(self)@.iterate(),
            ({
                let (ts, s1) = advance_tracks(
                    old(self)@.tracks,
                    old(self)@.synth,
                    old(self)@.tracks.len(),
                );
                r@ == emitted(synth_tick(), synth_bit(), s1, old(self)@.buffer_size)
            }),
    {
        let ghost m = self@;
        let mut i: usize = 0;
        while i < self.tracks.len()
            invariant
                self@.wf(),
                i <= self@.tracks.len(),
                self@.tracks.len() == m.tracks.len(),
                self.tracks@.len() == m.tracks.len(),
                self@.buffer_size == m.buffer_size,
                (self@.tracks, self@.synth) == advance_tracks(m.tracks, m.synth, i as nat),
            decreases m.tracks.len() - i,
        {
            self.run_track(i);
            i = i + 1;
        }
        let n = self.buffer_size;
        self.synth.get_buffer_bool(n)
    }
}

/// A track at its start: nothing applied, the first event's delay to wait.
pub open spec fn track_start(events: Seq<TimedEvent>) -> TrackModel {
    TrackModel {
        events,
        cursor: 0,
        remaining: if events.len() > 0 {
            events[0].delay as nat
        } else {
            0
        },
    }
}

/// The iteration in which event `k` falls due: the sum of the delays of
/// events `0..=k`.
pub open spec fn due_time(events: Seq<TimedEvent>, k: int) -> nat
    decreases k + 1,
{
    if k < 0 {
        0
    } else {
        (due_time(events, k - 1) + events[k].delay) as nat
    }
}

/// The track after applying its due events, whatever the synth.
pub open spec fn fire_track(t: TrackModel) -> TrackModel
    decreases t.events.len() - t.cursor,
{
    if t.due() {
        fire_track(t.advance())
    } else {
        t
    }
}

/// One loop iteration of a single track, as a function.
pub open spec fn track_iteration() -> spec_fn(TrackModel) -> TrackModel {
    |t: TrackModel| fire_track(t).count_down()
}

/// One loop iteration of a sequencer, as a function.
pub open spec fn sequencer_iteration() -> spec_fn(SequencerModel) -> SequencerModel {
    |m: SequencerModel| m.iterate()
}

proof fn lemma_fire_track(t: TrackModel, s: SynthModel)
    ensures
        fire(t, s).0 == fire_track(t),
    decreases t.events.len() - t.cursor,
{
    if t.due() {
        lemma_fire_track(t.advance(), apply_action(s, t.events[t.cursor as int].action));
    }
}

proof fn lemma_advance_tracks(tracks: Seq<TrackModel>, s: SynthModel, i: nat)
    requires
        i <= tracks.len(),
    ensures
        advance_tracks(tracks, s, i).0.len() == tracks.len(),
        forall|j: int|
            0 <= j < i ==> #[trigger] advance_tracks(tracks, s, i).0[j] == track_iteration()(
                tracks[j],
            ),
        forall|j: int| i <= j < tracks.len() ==> #[trigger] advance_tracks(tracks, s, i).0[j] == tracks[j],
    decreases i,
{
    if i > 0 {
        lemma_advance_tracks(tracks, s, (i - 1) as nat);
        let (ts, s1) = advance_tracks(tracks, s, (i - 1) as nat);
        lemma_fire_track(ts[i - 1], s1);
    }
}

/// Every track of a sequencer moves on by its own iterations alone.
proof fn lemma_sequencer_tracks(m: SequencerModel, n: nat)
    ensures
        after(sequencer_iteration(), m, n).tracks.len() == m.tracks.len(),
        forall|i: int|
            0 <= i < m.tracks.len() ==> #[trigger] after(sequencer_iteration(), m, n).tracks[i]
                == after(track_iteration(), m.tracks[i], n),
    decreases n,
{
    if n > 0 {
        lemma_sequencer_tracks(m, (n - 1) as nat);
        let p = after(sequencer_iteration(), m, (n - 1) as nat);
        lemma_advance_tracks(p.tracks, p.synth, p.tracks.len());
    }
}

proof fn lemma_due_time_monotonic(events: Seq<TimedEvent>, i: int, j: int)
    requires
        -1 <= i <= j,
    ensures
        due_time(events, i) <= due_time(events, j),
    decreases j - i,
{
    if i < j {
        lemma_due_time_monotonic(events, i, j - 1);
    }
}

/// What holds of a track's countdown at iteration `n`: the events before
/// the cursor fell due no later than `n`, and the next one falls due
/// `remaining` iterations after `n`.
pub open spec fn timing_holds(t: TrackModel, n: nat, strict: bool) -> bool {
    &&& t.cursor <= t.events.len()
    &&& forall|k: int|
        0 <= k < t.cursor ==> if strict {
            #[trigger] due_time(t.events, k) < n
        } else {
            due_time(t.events, k) <= n
        }
    &&& t.cursor < t.events.len() ==> due_time(t.events, t.cursor as int) >= n
        && t.remaining == due_time(t.events, t.cursor as int) - n
}

proof fn lemma_fire_timing(t: TrackModel, n: nat)
    requires
        timing_holds(t, n, false),
    ensures
        timing_holds(fire_track(t), n, false),
        !fire_track(t).due(),
        fire_track(t).events == t.events,
    decreases t.events.len() - t.cursor,
{
    if t.due() {
        let a = t.advance();
        assert(due_time(t.events, t.cursor as int) == n);
        if a.cursor < a.events.len() {
            assert(due_time(t.events, a.cursor as int) == n + t.events[a.cursor as int].delay);
        }
        lemma_fire_timing(a, n);
    }
}

proof fn lemma_track_timing(events: Seq<TimedEvent>, n: nat)
    ensures
        timing_holds(after(track_iteration(), track_start(events), n), n, true),
        after(track_iteration(), track_start(events), n).events == events,
    decreases n,
{
    if n == 0 {
        if events.len() > 0 {
            assert(due_time(events, 0) == due_time(events, -1) + events[0].delay);
        }
    } else {
        lemma_track_timing(events, (n - 1) as nat);
        let p = after(track_iteration(), track_start(events), (n - 1) as nat);
        lemma_fire_timing(p, (n - 1) as nat);
    }
}

/// Scheduling law: on a sequencer whose track `i` starts fresh, after `n`
/// loop iterations that track has applied exactly the events that fall due
/// before iteration `n`; event `k` falls due in iteration `due_time(events,
/// k)`, the sum of the delays up to and including its own.
pub proof fn lemma_schedule_timing(m: SequencerModel, i: int, n: nat)
    requires
        0 <= i < m.tracks.len(),
        m.tracks[i] == track_start(m.tracks[i].events),
    ensures
        forall|k: int|
            0 <= k < m.tracks[i].events.len() ==> (k < after(sequencer_iteration(), m, n).tracks[i].cursor
                <==> #[trigger] due_time(m.tracks[i].events, k) < n),
{
    let events = m.tracks[i].events;
    lemma_sequencer_tracks(m, n);
    lemma_track_timing(events, n);
    let t = after(track_iteration(), track_start(events), n);
    assert(after(sequencer_iteration(), m, n).tracks[i] == t);
    assert forall|k: int| 0 <= k < events.len() implies (k < t.cursor <==> #[trigger] due_time(
        events,
        k,
    ) < n) by {
        if k >= t.cursor {
            lemma_due_time_monotonic(events, t.cursor as int, k);
        } else {
            assert(due_time(t.events, k) < n);
        }
    }
}

} // verus!
