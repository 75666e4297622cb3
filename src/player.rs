//! Players: a synth driven by key presses or by a MIDI file, rendering into
//! an output queue of byte levels that the device side drains.

use vstd::prelude::*;

use crate::config::Config;
use crate::channel::ChannelModel;
use crate::midi_reader::{
    midi_action, midi_timed_event, MidiEvent, MidiEventKind, MidiFile, MidiFileModel,
};
use crate::output::{amplitude, levels};
use crate::sequencer::{
    advance_tracks, apply_action, perform, track_start, Action, Sequencer, SequencerModel,
    TimedEvent, TrackModel,
};
use crate::signal::{after, emitted};
use crate::synth::{synth_bit, synth_tick, Synth, SynthModel};
use crate::{BUFFER_SIZE, CHANNELS_MAX, DEFAULT_DUTY, SAMPLE_RATE, VOICES_MAX};

verus! {

/// An input a player reacts to.
#[derive(Clone, Copy, Debug)]
pub enum PlayerEvent {
    /// A key of the computer keyboard.
    KeyPress(char),
    /// A MIDI message, applied at once.
    MidiMessage(MidiEvent),
}

/// What a key press asks for.
#[derive(Clone, Copy, Debug, PartialEq, Eq, Structural)]
pub enum KeyCommand {
    /// `q`: leave.
    Quit,
    /// `w`: play.
    Play,
    /// Any other key.
    Other,
}

impl KeyCommand {
    /// The command of key `c`: `q` quits, `w` plays.
    pub fn from_key(c: char) -> (r: KeyCommand)
        ensures
            r == (if c == 'q' {
                KeyCommand::Quit
            } else if c == 'w' {
                KeyCommand::Play
            } else {
                KeyCommand::Other
            }),
    {
        if c == 'q' {
            KeyCommand::Quit
        } else if c == 'w' {
            KeyCommand::Play
        } else {
            KeyCommand::Other
        }
    }
}

/// The action a MIDI message calls for, as `midi_action` states it.
pub fn event_action(e: MidiEvent) -> (r: Action)
    ensures
        r == midi_action(e),
{
    match e.kind {
        MidiEventKind::NoteOn => if e.key < 128 {
            Action::NoteOn {
                channel: e.channel as usize,
                freq: MidiFile::midi2freq(e.key),
                duty: DEFAULT_DUTY,
            }
        } else {
            Action::Idle
        },
        MidiEventKind::NoteOff => if e.key < 128 {
            Action::NoteOff { channel: e.channel as usize, freq: MidiFile::midi2freq(e.key) }
        } else {
            Action::Idle
        },
        _ => Action::Idle,
    }
}

/// A source of output samples: it queues byte levels for the device, moves
/// on in time with `update`, and reacts to events.
pub trait PlayerMode {
    /// The byte levels queued and not yet drained.
    spec fn pending(&self) -> Seq<u8>;

    /// The player's internal state is consistent.
    spec fn inv(&self) -> bool;

    /// Queues one byte level.
    fn audio_out(&mut self, sample: u8)
        requires
            old(self).inv(),
        ensures
            final(self).inv(),
            final(self).pending() == old(self).pending().push(sample),
    ;

    /// Moves on in time, queueing what was rendered after what was pending.
    fn update(&mut self)
        requires
            old(self).inv(),
        ensures
            final(self).inv(),
            final(self).pending().len() >= old(self).pending().len(),
            final(self).pending().subrange(0, old(self).pending().len() as int) == old(
                self,
            ).pending(),
    ;

    /// Reacts to `event`; the queue is left as it was.
    fn process_event(&mut self, event: PlayerEvent)
        requires
            old(self).inv(),
        ensures
            final(self).inv(),
            final(self).pending() == old(self).pending(),
    ;

    /// Hands out the queue, which is then empty.
    fn take_output(&mut self) -> (r: Vec<u8>)
        requires
            old(self).inv(),
        ensures
            final(self).inv(),
            r@ == old(self).pending(),
            final(self).pending() == Seq::<u8>::empty(),
    ;
}

/// Hands out `output`, leaving it empty.
fn take_bytes(output: &mut Vec<u8>) -> (r: Vec<u8>)
    ensures
        r@ == old(output)@,
        final(output)@ == Seq::<u8>::empty(),
{
    let mut taken: Vec<u8> = Vec::new();
    std::mem::swap(output, &mut taken);
    taken
}

/// Appends `src` to `dst`.
fn extend_bytes(dst: &mut Vec<u8>, src: &Vec<u8>)
    ensures
        final(dst)@ == old(dst)@ + src@,
{
    let mut i: usize = 0;
    while i < src.len()
        invariant
            i <= src.len(),
            dst@ == old(dst)@ + src@.subrange(0, i as int),
        decreases src.len() - i,
    {
        dst.push(src[i]);
        i = i + 1;
        assert(dst@ =~= old(dst)@ + src@.subrange(0, i as int));
    }
    assert(src@.subrange(0, src.len() as int) =~= src@);
}

/// A synth played from key presses and MIDI messages as they come.
#[derive(Debug)]
pub struct KeyboardPlayer {
    output: Vec<u8>,
    synth: Synth,
}

impl KeyboardPlayer {
    /// The synth, as mathematical values.
    pub closed spec fn synth_view(&self) -> SynthModel {
        self.synth@
    }

    /// A player over a synth of the default configuration, with nothing queued.
    pub fn new() -> (r: KeyboardPlayer)
        ensures
            r.inv(),
            r.pending() == Seq::<u8>::empty(),
    {
        KeyboardPlayer { output: Vec::new(), synth: Synth::new() }
    }

    /// The synth played.
    pub fn synth(&self) -> (r: &Synth)
        ensures
            r@ == self.synth_view(),
    {
        &self.synth
    }

    /// Queues the synth's next sample.
    pub fn step(&mut self)
        requires
            old(self).inv(),
        ensures
            final(self).inv(),
            final(self).synth_view() == old(self).synth_view().tick(),
            final(self).pending() == old(self).pending().push(amplitude(old(self).synth_view().bit())),
    {
        let s = self.synth.get_sample();
        self.output.push(s);
    }

    /// Applies a MIDI message to the synth; key presses change nothing.
    pub fn apply_event(&mut self, event: PlayerEvent)
        requires
            old(self).inv(),
        ensures
            final(self).inv(),
            final(self).pending() == old(self).pending(),
            final(self).synth_view() == match event {
                PlayerEvent::MidiMessage(e) => apply_action(old(self).synth_view(), midi_action(e)),
                PlayerEvent::KeyPress(_) => old(self).synth_view(),
            },
    {
        match event {
            PlayerEvent::MidiMessage(e) => {
                let a = event_action(e);
                perform(&mut self.synth, a);
            },
            PlayerEvent::KeyPress(_) => {},
        }
    }
}

impl PlayerMode for KeyboardPlayer {
    closed spec fn pending(&self) -> Seq<u8> {
        self.output@
    }

    closed spec fn inv(&self) -> bool {
        self.synth@.wf()
    }

    fn audio_out(&mut self, sample: u8) {
        self.output.push(sample);
    }

    /// Queues the synth's next sample.
    fn update(&mut self)
        ensures
            final(self).synth_view() == old(self).synth_view().tick(),
            final(self).pending() == old(self).pending().push(amplitude(old(self).synth_view().bit())),
    {
        self.step();
    }

    fn process_event(&mut self, event: PlayerEvent) {
        self.apply_event(event);
    }

    fn take_output(&mut self) -> (r: Vec<u8>) {
        take_bytes(&mut self.output)
    }
}

/// The timed events that play track `i` of `file`: its events, each timed by
/// `midi_timed_event` from the file's tempo and ticks per beat.
pub open spec fn scheduled_events(file: MidiFileModel, i: int, sample_rate: nat, buffer_size: nat) -> Seq<
    TimedEvent,
> {
    let events = file.tracks[i].events;
    Seq::new(
        events.len(),
        |k: int|
            midi_timed_event(
                events,
                k,
                file.tempo as u32,
                file.ticks_per_beat,
                sample_rate,
                buffer_size,
            ),
    )
}

/// The sequencer track that plays track `i` of `file`, at its start.
pub open spec fn scheduled_track(file: MidiFileModel, i: int, sample_rate: nat, buffer_size: nat) -> TrackModel {
    track_start(scheduled_events(file, i, sample_rate, buffer_size))
}

/// A synth played from the tracks of a MIDI file.
#[derive(Debug)]
pub struct MidiPlayer {
    output: Vec<u8>,
    sequencer: Sequencer,
}

impl MidiPlayer {
    /// The sequencer, as mathematical values.
    pub closed spec fn sequencer_view(&self) -> SequencerModel {
        self.sequencer@
    }

    /// A player of `file` with the default configuration.
    pub fn new(file: MidiFile) -> (r: MidiPlayer)
        requires
            file@.ticks_per_beat > 0,
        ensures
            r.inv(),
            r.pending() == Seq::<u8>::empty(),
            r.sequencer_view().buffer_size == BUFFER_SIZE,
            r.sequencer_view().synth.channels.len() == CHANNELS_MAX,
            r.sequencer_view().synth.current == 0,
            forall|i: int|
                0 <= i < r.sequencer_view().synth.channels.len() ==> (#[trigger] r.sequencer_view().synth.channels[i])
                    == (ChannelModel {
                    voices: Seq::empty(),
                    capacity: VOICES_MAX as nat,
                    rate: SAMPLE_RATE as nat,
                }),
            r.sequencer_view().tracks.len() == file@.tracks.len(),
            forall|i: int|
                0 <= i < file@.tracks.len() ==> #[trigger] r.sequencer_view().tracks[i]
                    == scheduled_track(file@, i, SAMPLE_RATE as nat, BUFFER_SIZE as nat),
    {
        MidiPlayer::with_config(file, &Config::standard())
    }

    /// A player of `file` whose synth and loop follow `config`: every track
    /// of the file becomes a track of the sequencer, timed by
    /// `MidiFile::schedule`.
    pub fn with_config(file: MidiFile, config: &Config) -> (r: MidiPlayer)
        requires
            file@.ticks_per_beat > 0,
            config.valid(),
        ensures
            r.inv(),
            r.pending() == Seq::<u8>::empty(),
            r.sequencer_view().buffer_size == config.buffer_size,
            r.sequencer_view().synth.channels.len() == config.channels_max,
            r.sequencer_view().synth.current == 0,
            forall|i: int|
                0 <= i < r.sequencer_view().synth.channels.len() ==> (#[trigger] r.sequencer_view().synth.channels[i])
                    == (ChannelModel {
                    voices: Seq::empty(),
                    capacity: config.voices_max as nat,
                    rate: config.sample_rate as nat,
                }),
            r.sequencer_view().tracks.len() == file@.tracks.len(),
            forall|i: int|
                0 <= i < file@.tracks.len() ==> #[trigger] r.sequencer_view().tracks[i]
                    == scheduled_track(file@, i, config.sample_rate as nat, config.buffer_size as nat),
    {
        let mut tracks: Vec<Vec<TimedEvent>> = Vec::new();
        let mut i: usize = 0;
        let all = file.tracks();
        let n = all.len();
        assert(all@.map_values(|t: crate::midi_reader::MidiTrack| t@).len() == n);
        while i < n
            invariant
                i <= n,
                n == file@.tracks.len(),
                file@.ticks_per_beat > 0,
                config.valid(),
                tracks.len() == i,
                forall|j: int|
                    0 <= j < i ==> #[trigger] tracks@[j]@ == scheduled_events(
                        file@,
                        j,
                        config.sample_rate as nat,
                        config.buffer_size as nat,
                    ),
            decreases n - i,
        {
            let events = file.schedule(i, config.sample_rate, config.buffer_size);
            assert(events@ =~= scheduled_events(
                file@,
                i as int,
                config.sample_rate as nat,
                config.buffer_size as nat,
            ));
            tracks.push(events);
            i = i + 1;
        }
        MidiPlayer { output: Vec::new(), sequencer: Sequencer::new(config, tracks) }
    }

    /// The sequencer playing the file.
    pub fn sequencer(&self) -> (r: &Sequencer)
        ensures
            r@ == self.sequencer_view(),
    {
        &self.sequencer
    }

    /// Whether every track was played to its end.
    pub fn finished(&self) -> (r: bool)
        ensures
            r == forall|i: int|
                0 <= i < self.sequencer_view().tracks.len() ==> (#[trigger] self.sequencer_view().tracks[i]).finished(),
    {
        let r = self.sequencer.finished();
        assert(self.sequencer_view() == self.sequencer@);
        r
    }

    /// One loop iteration of the sequencer, its buffer queued as byte levels.
    pub fn step(&mut self)
        requires
            old(self).inv(),
        ensures
            final(self).inv(),
            final(self).sequencer_view() == old(self).sequencer_view().iterate(),
            ({
                let m = old(self).sequencer_view();
                let (ts, s1) = advance_tracks(m.tracks, m.synth, m.tracks.len());
                &&& final(self).sequencer_view().tracks == ts
                &&& final(self).sequencer_view().synth == after(synth_tick(), s1, m.buffer_size)
                &&& final(self).pending() == old(self).pending() + emitted(
                    synth_tick(),
                    synth_bit(),
                    s1,
                    m.buffer_size,
                ).map_values(|b: bool| amplitude(b))
            }),
    {
        let buffer = self.sequencer.tick();
        let bytes = levels(&buffer);
        extend_bytes(&mut self.output, &bytes);
    }

    /// Applies a MIDI message to the synth at once; key presses change nothing.
    pub fn apply_event(&mut self, event: PlayerEvent)
        requires
            old(self).inv(),
        ensures
            final(self).inv(),
            final(self).pending() == old(self).pending(),
            final(self).sequencer_view().tracks == old(self).sequencer_view().tracks,
            final(self).sequencer_view().synth == match event {
                PlayerEvent::MidiMessage(e) => apply_action(old(self).sequencer_view().synth, midi_action(e)),
                PlayerEvent::KeyPress(_) => old(self).sequencer_view().synth,
            },
    {
        match event {
            PlayerEvent::MidiMessage(e) => {
                let a = event_action(e);
                self.sequencer.apply(a);
            },
            PlayerEvent::KeyPress(_) => {},
        }
    }
}

impl PlayerMode for MidiPlayer {
    closed spec fn pending(&self) -> Seq<u8> {
        self.output@
    }

    closed spec fn inv(&self) -> bool {
        self.sequencer@.wf()
    }

    fn audio_out(&mut self, sample: u8) {
        self.output.push(sample);
    }

    /// One loop iteration of the sequencer (every due event applied, every
    /// track counted down), its buffer queued as byte levels.
    fn update(&mut self)
        ensures
            final(self).sequencer_view() == old(self).sequencer_view().iterate(),
            ({
                let m = old(self).sequencer_view();
                let (ts, s1) = advance_tracks(m.tracks, m.synth, m.tracks.len());
                final(self).pending() == old(self).pending() + emitted(
                    synth_tick(),
                    synth_bit(),
                    s1,
                    m.buffer_size,
                ).map_values(|b: bool| amplitude(b))
            }),
    {
        let ghost before = self.output@;
        self.step();
        assert(self.output@.subrange(0, before.len() as int) =~= before);
    }

    fn process_event(&mut self, event: PlayerEvent) {
        self.apply_event(event);
    }

    fn take_output(&mut self) -> (r: Vec<u8>) {
        take_bytes(&mut self.output)
    }
}

/// The two kinds of player.
#[derive(Debug)]
pub enum Mode {
    /// Played from the keyboard.
    Keyboard(KeyboardPlayer),
    /// Played from a MIDI file.
    Midi(MidiPlayer),
}

/// Plays through whichever mode it was given.
pub struct Player<M: PlayerMode + ?Sized> {
    mode: Box<M>,
}

impl<M: PlayerMode + ?Sized> Player<M> {
    /// Whether the mode's state is consistent.
    pub closed spec fn mode_inv(&self) -> bool {
        self.mode.inv()
    }

    /// The byte levels the mode holds queued.
    pub closed spec fn mode_pending(&self) -> Seq<u8> {
        self.mode.pending()
    }

    /// A player over `mode`.
    pub fn new(mode: Box<M>) -> (r: Player<M>)
        ensures
            r.mode_inv() == (*mode).inv(),
            r.mode_pending() == (*mode).pending(),
    {
        Player { mode }
    }

    /// Queues one byte level.
    pub fn audio_out(&mut self, sample: u8)
        requires
            old(self).mode_inv(),
        ensures
            final(self).mode_inv(),
            final(self).mode_pending() == old(self).mode_pending().push(sample),
    {
        self.mode.audio_out(sample);
    }

    /// Moves the mode on in time.
    pub fn update(&mut self)
        requires
            old(self).mode_inv(),
        ensures
            final(self).mode_inv(),
            final(self).mode_pending().subrange(0, old(self).mode_pending().len() as int) == old(self).mode_pending(),
    {
        self.mode.update();
    }

    /// Hands out every queued byte level.
    pub fn drain(&mut self) -> (r: Vec<u8>)
        requires
            old(self).mode_inv(),
        ensures
            final(self).mode_inv(),
            r@ == old(self).mode_pending(),
            final(self).mode_pending() == Seq::<u8>::empty(),
    {
        self.mode.take_output()
    }
}

} // verus!
