//! MIDI files: the events of each track, and their timing in loop iterations.

use vstd::arithmetic::power::pow;
use vstd::prelude::*;

use crate::sequencer::{delay_of_us, us_to_iterations, Action, TimedEvent};
use crate::DEFAULT_DUTY;

verus! {

#[verifier::external_type_specification]
#[verifier::external_body]
pub struct ExMidlyError(midly::Error);

#[verifier::external_type_specification]
#[verifier::external_body]
pub struct ExTrackEvent<'a>(midly::TrackEvent<'a>);

#[verifier::external_type_specification]
#[verifier::external_body]
pub struct ExMidiMessage(midly::MidiMessage);

#[verifier::external_type_specification]
#[verifier::external_body]
pub struct ExMetaMessage<'a>(midly::MetaMessage<'a>);

/// The timing of a MIDI file's header.
#[derive(Clone, Copy, Debug, PartialEq, Eq, Structural)]
pub enum Timing {
    /// Ticks per beat (a 15-bit value).
    Metrical(u16),
    /// Ticks per second of SMPTE time code.
    Timecode,
}

/// An event of a track as the file holds it.
#[derive(Debug)]
pub enum RawKind {
    /// A note-on message.
    NoteOn { channel: u8, key: u8, vel: u8 },
    /// A note-off message.
    NoteOff { channel: u8, key: u8, vel: u8 },
    /// Any other channel message.
    OtherMidi { channel: u8 },
    /// The track's name.
    TrackName(Vec<u8>),
    /// The instrument's name.
    InstrumentName(Vec<u8>),
    /// A tempo change, in microseconds per beat.
    Tempo(u32),
    /// Any other meta message.
    OtherMeta,
    /// A system-exclusive message or an escape sequence.
    System,
}

/// A track event as the file holds it: its delta time in ticks and its kind.
#[derive(Debug)]
pub struct RawEvent {
    /// Ticks after the previous event of the track.
    pub delta: u32,
    /// What the event is.
    pub kind: RawKind,
}

/// What `midly::Smf::parse` reads from the bytes of a Standard MIDI File:
/// the header's timing and each track's events in file order, or `None`
/// when the bytes are not one. It depends on the bytes alone.
pub uninterp spec fn smf_contents(raw: Seq<u8>) -> Option<(Timing, Seq<Seq<RawEvent>>)>;

/// The fields of a raw event fit their MIDI widths: a 28-bit delta time,
/// 4-bit channels, 7-bit keys and velocities, 24-bit tempos.
pub open spec fn raw_bounded(e: RawEvent) -> bool {
    &&& e.delta < 0x1000_0000
    &&& match e.kind {
        RawKind::NoteOn { channel, key, vel } => channel < 16 && key < 128 && vel < 128,
        RawKind::NoteOff { channel, key, vel } => channel < 16 && key < 128 && vel < 128,
        RawKind::OtherMidi { channel } => channel < 16,
        RawKind::Tempo(t) => t < 0x100_0000,
        _ => true,
    }
}

/// Whether some `MThd` chunk id in `raw` has the byte 0x80 twelve bytes
/// after its start, where a header chunk's division word begins: a time-code
/// division of -128 frames per second, whose negation overflows in midly's
/// header reader (`Timing::read`). Every header midly reads, in a plain or a
/// RIFF-wrapped file, is such a chunk of `raw` itself.
pub open spec fn has_bad_division(raw: Seq<u8>) -> bool {
    exists|i: int|
        0 <= i && i + 12 < raw.len() && #[trigger] raw[i] == 0x4D && raw[i + 1] == 0x54 && raw[i
            + 2] == 0x68 && raw[i + 3] == 0x64 && raw[i + 12] == 0x80
}

/// Whether `raw` holds a header division that midly cannot read without
/// overflowing, as `has_bad_division` states it.
pub fn bad_division(raw: &[u8]) -> (r: bool)
    ensures
        r == has_bad_division(raw@),
{
    if raw.len() < 13 {
        return false;
    }
    let end = raw.len() - 12;
    let mut i: usize = 0;
    while i < end
        invariant
            end == raw@.len() - 12,
            i <= end,
            forall|j: int|
                0 <= j < i && j + 12 < raw@.len() ==> !(#[trigger] raw@[j] == 0x4D && raw@[j + 1]
                    == 0x54 && raw@[j + 2] == 0x68 && raw@[j + 3] == 0x64 && raw@[j + 12] == 0x80),
        decreases end - i,
    {
        if raw[i] == 0x4D && raw[i + 1] == 0x54 && raw[i + 2] == 0x68 && raw[i + 3] == 0x64 && raw[i
            + 12] == 0x80 {
            return true;
        }
        i = i + 1;
    }
    false
}

/// Relies on `midly::Smf::parse` and the parsed file's header timing and
/// tracks: what it reads is `smf_contents`, and midly's integer types
/// (`u15`, `u28`, `u4`, `u7`, `u24`) bound the fields. Bytes with a header
/// division midly cannot negate are left out.
#[verifier::external_body]
fn smf_load(raw: &[u8]) -> (r: Result<(Timing, Vec<Vec<RawEvent>>), midly::Error>)
    requires
        !has_bad_division(raw@),
    ensures
        r is Ok <==> smf_contents(raw@) is Some,
        r matches Ok((t, ts)) ==> smf_contents(raw@) == Some(
            (t, ts@.map_values(|v: Vec<RawEvent>| v@)),
        ),
        r matches Ok((t, ts)) ==> (t matches Timing::Metrical(x) ==> x < 0x8000),
        r matches Ok((t, ts)) ==> forall|i: int, j: int|
            0 <= i < ts@.len() && 0 <= j < ts@[i]@.len() ==> raw_bounded(#[trigger] ts@[i]@[j]),
{
    let smf = midly::Smf::parse(raw)?;
    let timing = match smf.header.timing {
        midly::Timing::Metrical(t) => Timing::Metrical(t.as_int()),
        midly::Timing::Timecode(_, _) => Timing::Timecode,
    };
    Ok((timing, smf.tracks.iter().map(|t| t.iter().map(raw_event).collect()).collect()))
}

/// Part of `smf_load`'s conversion: one `midly::TrackEvent` as a raw event.
#[verifier::external_body]
fn raw_event(e: &midly::TrackEvent) -> RawEvent {
    let kind = match e.kind {
        midly::TrackEventKind::Midi { channel, message } => raw_message(channel.as_int(), message),
        midly::TrackEventKind::Meta(m) => raw_meta(m),
        midly::TrackEventKind::SysEx(_) => RawKind::System,
        midly::TrackEventKind::Escape(_) => RawKind::System,
    };
    RawEvent { delta: e.delta.as_int(), kind }
}

/// Part of `smf_load`'s conversion: a `midly::MidiMessage` as a raw kind.
#[verifier::external_body]
fn raw_message(channel: u8, m: midly::MidiMessage) -> RawKind {
    match m {
        midly::MidiMessage::NoteOn { key, vel } => RawKind::NoteOn { channel, key: key.as_int(), vel: vel.as_int() },
        midly::MidiMessage::NoteOff { key, vel } => RawKind::NoteOff { channel, key: key.as_int(), vel: vel.as_int() },
        _ => RawKind::OtherMidi { channel },
    }
}

/// Part of `smf_load`'s conversion: a `midly::MetaMessage` as a raw kind.
#[verifier::external_body]
fn raw_meta(m: midly::MetaMessage) -> RawKind {
    match m {
        midly::MetaMessage::TrackName(name) => RawKind::TrackName(name.to_vec()),
        midly::MetaMessage::InstrumentName(name) => RawKind::InstrumentName(name.to_vec()),
        midly::MetaMessage::Tempo(t) => RawKind::Tempo(t.as_int()),
        _ => RawKind::OtherMeta,
    }
}

/// Relies on `num_traits::pow`: `base` to the power `exp`, by repeated
/// squaring whose intermediate values never exceed the result.
#[verifier::external_body]
fn pow_u32(base: u32, exp: usize) -> (r: u32)
    requires
        pow(base as int, exp as nat) <= u32::MAX,
    ensures
        r == pow(base as int, exp as nat),
{
    num_traits::pow(base, exp)
}

/// Why a MIDI file could not be loaded.
#[derive(Clone, Copy, Debug, PartialEq, Eq, Structural)]
pub enum MidiError {
    /// The bytes are not a Standard MIDI File.
    Parse,
    /// The file's timing is time code, or zero ticks per beat: only
    /// metrical timing can be played.
    UnsupportedTimingFormat,
}

/// The kind of a [`MidiEvent`].
#[derive(Clone, Copy, Debug, PartialEq, Eq, Structural)]
pub enum MidiEventKind {
    /// Stop a note (also a note-on of velocity 0).
    NoteOff,
    /// Start a note.
    NoteOn,
    /// Set the tempo, in microseconds per beat.
    MetaSetTempo(u32),
    /// Anything else.
    Other,
}

/// One event of a track.
#[derive(Clone, Copy, Debug, PartialEq, Eq, Structural)]
pub struct MidiEvent {
    /// What the event does.
    pub kind: MidiEventKind,
    /// The key of a note event; 0 for other events.
    pub key: u8,
    /// The velocity of a note event; 0 for other events.
    pub velocity: u8,
    /// Ticks after the previous event of the track.
    pub delta_tick: u32,
    /// The MIDI channel of a channel message; 0 for other events.
    pub channel: u8,
}

impl MidiEvent {
    /// What the event does.
    pub fn kind(self) -> (r: MidiEventKind)
        ensures
            r == self.kind,
    {
        self.kind
    }

    /// The key of a note event; 0 for other events.
    pub fn key(self) -> (r: u8)
        ensures
            r == self.key,
    {
        self.key
    }

    /// The velocity of a note event; 0 for other events.
    pub fn velocity(self) -> (r: u8)
        ensures
            r == self.velocity,
    {
        self.velocity
    }

    /// Ticks after the previous event of the track.
    pub fn delta_tick(self) -> (r: u32)
        ensures
            r == self.delta_tick,
    {
        self.delta_tick
    }

    /// The MIDI channel of a channel message; 0 for other events.
    pub fn channel(self) -> (r: u8)
        ensures
            r == self.channel,
    {
        self.channel
    }
}

/// The event a raw track event becomes: note-on of velocity 0 is a note-off,
/// names and other messages are `Other`.
pub open spec fn event_of(e: RawEvent) -> MidiEvent {
    let d = e.delta;
    match e.kind {
        RawKind::NoteOn { channel, key, vel } => MidiEvent {
            kind: if vel == 0 {
                MidiEventKind::NoteOff
            } else {
                MidiEventKind::NoteOn
            },
            key,
            velocity: vel,
            delta_tick: d,
            channel,
        },
        RawKind::NoteOff { channel, key, vel } => MidiEvent {
            kind: MidiEventKind::NoteOff,
            key,
            velocity: vel,
            delta_tick: d,
            channel,
        },
        RawKind::OtherMidi { channel } => MidiEvent {
            kind: MidiEventKind::Other,
            key: 0,
            velocity: 0,
            delta_tick: d,
            channel,
        },
        RawKind::Tempo(t) => MidiEvent {
            kind: MidiEventKind::MetaSetTempo(t),
            key: 0,
            velocity: 0,
            delta_tick: d,
            channel: 0,
        },
        _ => MidiEvent { kind: MidiEventKind::Other, key: 0, velocity: 0, delta_tick: d, channel: 0 },
    }
}

/// The bytes of every track-name event of `events`, in order.
pub open spec fn name_of(events: Seq<RawEvent>) -> Seq<u8>
    decreases events.len(),
{
    if events.len() == 0 {
        Seq::empty()
    } else {
        name_of(events.drop_last()) + match events.last().kind {
            RawKind::TrackName(b) => b@,
            _ => Seq::empty(),
        }
    }
}

/// The bytes of every instrument-name event of `events`, in order.
pub open spec fn instrument_of(events: Seq<RawEvent>) -> Seq<u8>
    decreases events.len(),
{
    if events.len() == 0 {
        Seq::empty()
    } else {
        instrument_of(events.drop_last()) + match events.last().kind {
            RawKind::InstrumentName(b) => b@,
            _ => Seq::empty(),
        }
    }
}

/// A note with its start and length.
#[derive(Clone, Copy, Debug)]
pub struct MidiNote {
    key: u8,
    velocity: u8,
    start_time: u8,
    duration: u8,
}

/// One track of a MIDI file.
#[derive(Debug)]
pub struct MidiTrack {
    name: Vec<u8>,
    instrument: Vec<u8>,
    events: Vec<MidiEvent>,
    notes: Vec<MidiNote>,
    cursor: usize,
}

/// What a [`MidiTrack`] holds, as mathematical values.
pub struct MidiTrackModel {
    /// The bytes of the track's name.
    pub name: Seq<u8>,
    /// The bytes of the instrument's name.
    pub instrument: Seq<u8>,
    /// The events, in file order.
    pub events: Seq<MidiEvent>,
    /// The index of the next event `get_next_event` hands out.
    pub cursor: nat,
}

impl View for MidiTrack {
    type V = MidiTrackModel;

    closed spec fn view(&self) -> MidiTrackModel {
        MidiTrackModel {
            name: self.name@,
            instrument: self.instrument@,
            events: self.events@,
            cursor: self.cursor as nat,
        }
    }
}

/// Appends the bytes of `src` to `dst`.
fn append_bytes(dst: &mut Vec<u8>, src: &Vec<u8>)
    ensures
        final(dst)@ == old(dst)@ + src@,
{
    let mut i: usize = 0;
    while i < src.len()
        invariant
            i <= src.len(),
            dst@ == old(dst)@ + src@.subrange(0, i as int),
        decreases src.len() - i,
    {
        dst.push(src[i]);
        i = i + 1;
        assert(dst@ =~= old(dst)@ + src@.subrange(0, i as int));
    }
    assert(src@.subrange(0, src.len() as int) =~= src@);
}

impl MidiTrack {
    /// The event at `index`.
    pub fn get_event(&self, index: usize) -> (r: &MidiEvent)
        requires
            index < self@.events.len(),
        ensures
            *r == self@.events[index as int],
    {
        &self.events[index]
    }

    /// The number of events.
    pub fn len(&self) -> (r: usize)
        ensures
            r == self@.events.len(),
    {
        self.events.len()
    }

    /// The events, in file order.
    pub fn events(&self) -> (r: &Vec<MidiEvent>)
        ensures
            r@ == self@.events,
    {
        &self.events
    }

    /// The bytes of the track's name.
    pub fn name(&self) -> (r: &Vec<u8>)
        ensures
            r@ == self@.name,
    {
        &self.name
    }

    /// The bytes of the instrument's name.
    pub fn instrument(&self) -> (r: &Vec<u8>)
        ensures
            r@ == self@.instrument,
    {
        &self.instrument
    }

    /// The track read from its raw events: one event per raw event, names
    /// gathered from the name events.
    fn from_raw(raw: &Vec<RawEvent>) -> (r: MidiTrack)
        ensures
            r@.events == raw@.map_values(|e: RawEvent| event_of(e)),
            r@.name == name_of(raw@),
            r@.instrument == instrument_of(raw@),
            r@.cursor == 0,
    {
        let mut name: Vec<u8> = Vec::new();
        let mut instrument: Vec<u8> = Vec::new();
        let mut events: Vec<MidiEvent> = Vec::new();
        let mut i: usize = 0;
        while i < raw.len()
            invariant
                i <= raw.len(),
                events@ == raw@.subrange(0, i as int).map_values(|e: RawEvent| event_of(e)),
                name@ == name_of(raw@.subrange(0, i as int)),
                instrument@ == instrument_of(raw@.subrange(0, i as int)),
            decreases raw.len() - i,
        {
            let e = &raw[i];
            let d = e.delta;
            let ev = match &e.kind {
                RawKind::NoteOn { channel, key, vel } => MidiEvent {
                    kind: if *vel == 0 {
                        MidiEventKind::NoteOff
                    } else {
                        MidiEventKind::NoteOn
                    },
                    key: *key,
                    velocity: *vel,
                    delta_tick: d,
                    channel: *channel,
                },
                RawKind::NoteOff { channel, key, vel } => MidiEvent {
                    kind: MidiEventKind::NoteOff,
                    key: *key,
                    velocity: *vel,
                    delta_tick: d,
                    channel: *channel,
                },
                RawKind::OtherMidi { channel } => MidiEvent {
                    kind: MidiEventKind::Other,
                    key: 0,
                    velocity: 0,
                    delta_tick: d,
                    channel: *channel,
                },
                RawKind::Tempo(t) => MidiEvent {
                    kind: MidiEventKind::MetaSetTempo(*t),
                    key: 0,
                    velocity: 0,
                    delta_tick: d,
                    channel: 0,
                },
                RawKind::TrackName(b) => {
                    append_bytes(&mut name, b);
                    MidiEvent { kind: MidiEventKind::Other, key: 0, velocity: 0, delta_tick: d, channel: 0 }
                },
                RawKind::InstrumentName(b) => {
                    append_bytes(&mut instrument, b);
                    MidiEvent { kind: MidiEventKind::Other, key: 0, velocity: 0, delta_tick: d, channel: 0 }
                },
                _ => MidiEvent { kind: MidiEventKind::Other, key: 0, velocity: 0, delta_tick: d, channel: 0 },
            };
            events.push(ev);
            proof {
                let pre = raw@.subrange(0, i as int);
                let cur = raw@.subrange(0, i + 1);
                assert(cur.drop_last() =~= pre);
                assert(events@ =~= cur.map_values(|e: RawEvent| event_of(e)));
                match raw@[i as int].kind {
                    RawKind::TrackName(b) => {},
                    RawKind::InstrumentName(b) => {
                        assert(name@ =~= name_of(pre) + Seq::<u8>::empty());
                    },
                    _ => {
                        assert(name@ =~= name_of(pre) + Seq::<u8>::empty());
                    },
                }
                match raw@[i as int].kind {
                    RawKind::InstrumentName(b) => {},
                    _ => {
                        assert(instrument@ =~= instrument_of(pre) + Seq::<u8>::empty());
                    },
                }
            }
            i = i + 1;
        }
        proof {
            assert(raw@.subrange(0, raw.len() as int) =~= raw@);
        }
        MidiTrack { name, instrument, events, notes: Vec::new(), cursor: 0 }
    }
}

/// Loaded MIDI file: its tracks and its timing.
#[derive(Debug)]
pub struct MidiFile {
    tracks: Vec<MidiTrack>,
    tempo: u32,
    ticks_per_beat: u16,
}

/// What a [`MidiFile`] holds, as mathematical values.
pub struct MidiFileModel {
    /// The tracks, in file order.
    pub tracks: Seq<MidiTrackModel>,
    /// The tempo before any tempo event, in microseconds per beat.
    pub tempo: nat,
    /// Ticks per beat.
    pub ticks_per_beat: nat,
}

impl View for MidiFile {
    type V = MidiFileModel;

    closed spec fn view(&self) -> MidiFileModel {
        MidiFileModel {
            tracks: self.tracks@.map_values(|t: MidiTrack| t@),
            tempo: self.tempo as nat,
            ticks_per_beat: self.ticks_per_beat as nat,
        }
    }
}

/// The tempo a MIDI file starts with: 500 000 microseconds per beat.
pub const DEFAULT_TEMPO: u32 = 500_000;

/// Microseconds in `delta_ticks` ticks at `tempo` microseconds per beat.
pub open spec fn ticks_to_us(tempo: nat, delta_ticks: nat, ticks_per_beat: nat) -> nat {
    tempo * delta_ticks / ticks_per_beat
}

/// The tempo in force after `events`: that of the last tempo event, or `tempo`.
pub open spec fn tempo_after(events: Seq<MidiEvent>, tempo: u32) -> u32
    decreases events.len(),
{
    if events.len() == 0 {
        tempo
    } else {
        match events.last().kind {
            MidiEventKind::MetaSetTempo(t) => t,
            _ => tempo_after(events.drop_last(), tempo),
        }
    }
}

/// The frequency of the note one semitone step `s` above C of the highest
/// MIDI octave (key `120 + s`), in thousandths of a Hz, rounded down (see
/// `lemma_semitone_floor`).
pub open spec fn semitone_millihertz(s: nat) -> nat {
    if s == 0 {
        8_372_018
    } else if s == 1 {
        8_869_844
    } else if s == 2 {
        9_397_272
    } else if s == 3 {
        9_956_063
    } else if s == 4 {
        10_548_081
    } else if s == 5 {
        11_175_303
    } else if s == 6 {
        11_839_821
    } else if s == 7 {
        12_543_853
    } else if s == 8 {
        13_289_750
    } else if s == 9 {
        14_080_000
    } else if s == 10 {
        14_917_240
    } else {
        15_804_265
    }
}

/// The frequency of MIDI key `key`, `440 * 2^((key - 69) / 12)` Hz rounded
/// down to a whole number (`lemma_midi_freq_floor`): the key's semitone in
/// the top octave, halved once per octave below it.
pub open spec fn midi_freq(key: nat) -> nat {
    semitone_millihertz(key % 12) / (1000 * pow(2, (10 - key / 12) as nat)) as nat
}

/// What event `e` does on the synth: notes play on their MIDI channel with
/// the default duty cycle; keys outside `0..=127` and other events do nothing.
pub open spec fn midi_action(e: MidiEvent) -> Action {
    match e.kind {
        MidiEventKind::NoteOn => if e.key < 128 {
            Action::NoteOn { channel: e.channel as usize, freq: midi_freq(e.key as nat) as u32, duty: DEFAULT_DUTY }
        } else {
            Action::Idle
        },
        MidiEventKind::NoteOff => if e.key < 128 {
            Action::NoteOff { channel: e.channel as usize, freq: midi_freq(e.key as nat) as u32 }
        } else {
            Action::Idle
        },
        _ => Action::Idle,
    }
}

/// `x` to the twelfth power.
pub open spec fn pow12(x: int) -> int {
    let x2 = x * x;
    let x3 = x2 * x;
    let x6 = x3 * x3;
    x6 * x6
}

/// The twelfth power of the exact frequency of key `120 + s` in thousandths
/// of a Hz: `(440 000 * 2^((51 + s) / 12))^12 = 440 000^12 * 2^(51 + s)`.
pub open spec fn top_key_pow12(s: nat) -> int {
    pow12(440_000) * vstd::arithmetic::power2::pow2(51 + s)
}

/// Each entry of the semitone table is the exact frequency rounded down:
/// its twelfth power is at most that of the exact value, and that of the
/// next integer exceeds it.
pub proof fn lemma_semitone_floor(s: nat)
    requires
        s < 12,
    ensures
        pow12(semitone_millihertz(s) as int) <= top_key_pow12(s),
        top_key_pow12(s) < pow12(semitone_millihertz(s) as int + 1),
{
    vstd::arithmetic::power2::lemma2_to64_rest();
    assert(440000 * 440000 == 193600000000);
    assert(193600000000 * 440000 == 85184000000000000);
    assert(85184000000000000 * 85184000000000000 == 7256313856000000000000000000000000);
    assert(7256313856000000000000000000000000 * 7256313856000000000000000000000000 == 52654090776777588736000000000000000000000000000000000000000000000000);
    assert(pow12(440000) == 52654090776777588736000000000000000000000000000000000000000000000000);
    if s == 0 {
        assert(8372018 * 8372018 == 70090685392324);
        assert(70090685392324 * 8372018 == 586800479736873589832);
        assert(586800479736873589832 * 586800479736873589832 == 344334803019424992494716946447898573788224);
        assert(344334803019424992494716946447898573788224 * 344334803019424992494716946447898573788224 == 118566456570426210928267006925217220037472723047772267073560788489333139230001074176);
        assert(pow12(8372018) == 118566456570426210928267006925217220037472723047772267073560788489333139230001074176);
        assert(8372019 * 8372019 == 70090702136361);
        assert(70090702136361 * 8372019 == 586800690008954882859);
        assert(586800690008954882859 * 586800690008954882859 == 344335049794985562881140935347018412013881);
        assert(344335049794985562881140935347018412013881 * 344335049794985562881140935347018412013881 == 118566626517315187129942535486687321961923348172961958340918452914105669154136682161);
        assert(pow12(8372019) == 118566626517315187129942535486687321961923348172961958340918452914105669154136682161);
        assert(52654090776777588736000000000000000000000000000000000000000000000000 * 2251799813685248 == 118566471800913909454920995494166528000000000000000000000000000000000000000000000000);
        assert(semitone_millihertz(s) == 8372018);
        assert(top_key_pow12(s) == 118566471800913909454920995494166528000000000000000000000000000000000000000000000000) by (nonlinear_arith)
            requires
                pow12(440_000) == 52654090776777588736000000000000000000000000000000000000000000000000,
                top_key_pow12(s) == pow12(440_000) * vstd::arithmetic::power2::pow2(51),
                vstd::arithmetic::power2::pow2(51) == 2251799813685248,
        ;
        assert(118566456570426210928267006925217220037472723047772267073560788489333139230001074176 <= 118566471800913909454920995494166528000000000000000000000000000000000000000000000000 < 118566626517315187129942535486687321961923348172961958340918452914105669154136682161);
    } else if s == 1 {
        assert(8869844 * 8869844 == 78674132584336);
        assert(78674132584336 * 8869844 == 697827282858377163584);
        assert(697827282858377163584 * 697827282858377163584 == 486962916701505530726195552338513095725056);
        assert(486962916701505530726195552338513095725056 * 486962916701505530726195552338513095725056 == 237132882242437414157221577145427204578023525539922400052522880279184926742346203136);
        assert(pow12(8869844) == 237132882242437414157221577145427204578023525539922400052522880279184926742346203136);
        assert(8869845 * 8869845 == 78674150324025);
        assert(78674150324025 * 8869845 == 697827518880801526125);
        assert(697827518880801526125 * 697827518880801526125 == 486963246107335410428653143924129057515625);
        assert(486963246107335410428653143924129057515625 * 486963246107335410428653143924129057515625 == 237133203059393315757679263078685549226973211796246481499915370663467339297119140625);
        assert(pow12(8869845) == 237133203059393315757679263078685549226973211796246481499915370663467339297119140625);
        assert(52654090776777588736000000000000000000000000000000000000000000000000 * 4503599627370496 == 237132943601827818909841990988333056000000000000000000000000000000000000000000000000);
        assert(semitone_millihertz(s) == 8869844);
        assert(top_key_pow12(s) == 237132943601827818909841990988333056000000000000000000000000000000000000000000000000) by (nonlinear_arith)
            requires
                pow12(440_000) == 52654090776777588736000000000000000000000000000000000000000000000000,
                top_key_pow12(s) == pow12(440_000) * vstd::arithmetic::power2::pow2(52),
                vstd::arithmetic::power2::pow2(52) == 4503599627370496,
        ;
        assert(237132882242437414157221577145427204578023525539922400052522880279184926742346203136 <= 237132943601827818909841990988333056000000000000000000000000000000000000000000000000 < 237133203059393315757679263078685549226973211796246481499915370663467339297119140625);
    } else if s == 2 {
        assert(9397272 * 9397272 == 88308721041984);
        assert(88308721041984 * 9397272 == 829861071603647067648);
        assert(829861071603647067648 * 829861071603647067648 == 688669398163153445493147244296029088251904);
        assert(688669398163153445493147244296029088251904 * 688669398163153445493147244296029088251904 == 474265539966399974205402098485695940835356895761365724936711691796405566830559625216);
        assert(pow12(9397272) == 474265539966399974205402098485695940835356895761365724936711691796405566830559625216);
        assert(9397273 * 9397273 == 88308739836529);
        assert(88308739836529 * 9397273 == 829861336529838385417);
        assert(829861336529838385417 * 829861336529838385417 == 688669837867089677053197788885293438263889);
        assert(688669837867089677053197788885293438263889 * 688669837867089677053197788885293438263889 == 474266145587883582873061231253009723818880560843380157624557381988162244190401404321);
        assert(pow12(9397273) == 474266145587883582873061231253009723818880560843380157624557381988162244190401404321);
        assert(52654090776777588736000000000000000000000000000000000000000000000000 * 9007199254740992 == 474265887203655637819683981976666112000000000000000000000000000000000000000000000000);
        assert(semitone_millihertz(s) == 9397272);
        assert(top_key_pow12(s) == 474265887203655637819683981976666112000000000000000000000000000000000000000000000000) by (nonlinear_arith)
            requires
                pow12(440_000) == 52654090776777588736000000000000000000000000000000000000000000000000,
                top_key_pow12(s) == pow12(440_000) * vstd::arithmetic::power2::pow2(53),
                vstd::arithmetic::power2::pow2(53) == 9007199254740992,
        ;
        assert(474265539966399974205402098485695940835356895761365724936711691796405566830559625216 <= 474265887203655637819683981976666112000000000000000000000000000000000000000000000000 < 474266145587883582873061231253009723818880560843380157624557381988162244190401404321);
    } else if s == 3 {
        assert(9956063 * 9956063 == 99123190459969);
        assert(99123190459969 * 9956063 == 986876728980450342047);
        assert(986876728980450342047 * 986876728980450342047 == 973925678203153236012931237652079296150209);
        assert(973925678203153236012931237652079296150209 * 973925678203153236012931237652079296150209 == 948531226663471990284847382097886654774887299523653154120478488824817973968290743681);
        assert(pow12(9956063) == 948531226663471990284847382097886654774887299523653154120478488824817973968290743681);
        assert(9956064 * 9956064 == 99123210372096);
        assert(99123210372096 * 9956064 == 986877026350051590144);
        assert(986877026350051590144 * 986877026350051590144 == 973926265137520420578299379250342957940736);
        assert(973926265137520420578299379250342957940736 * 973926265137520420578299379250342957940736 == 948532369924719724169016375046242381367469277143516694949213091796405113877688221696);
        assert(pow12(9956064) == 948532369924719724169016375046242381367469277143516694949213091796405113877688221696);
        assert(52654090776777588736000000000000000000000000000000000000000000000000 * 18014398509481984 == 948531774407311275639367963953332224000000000000000000000000000000000000000000000000);
        assert(semitone_millihertz(s) == 9956063);
        assert(top_key_pow12(s) == 948531774407311275639367963953332224000000000000000000000000000000000000000000000000) by (nonlinear_arith)
            requires
                pow12(440_000) == 52654090776777588736000000000000000000000000000000000000000000000000,
                top_key_pow12(s) == pow12(440_000) * vstd::arithmetic::power2::pow2(54),
                vstd::arithmetic::power2::pow2(54) == 18014398509481984,
        ;
        assert(948531226663471990284847382097886654774887299523653154120478488824817973968290743681 <= 948531774407311275639367963953332224000000000000000000000000000000000000000000000000 < 948532369924719724169016375046242381367469277143516694949213091796405113877688221696);
    } else if s == 4 {
        assert(10548081 * 10548081 == 111262012782561);
        assert(111262012782561 * 10548081 == 1173600723053488815441);
        assert(1173600723053488815441 * 1173600723053488815441 == 1377338657151671753950803381063281360024481);
        assert(1377338657151671753950803381063281360024481 * 1377338657151671753950803381063281360024481 == 1897061776484370388805872266836031401890921140379675735505500085667069981948919319361);
        assert(pow12(10548081) == 1897061776484370388805872266836031401890921140379675735505500085667069981948919319361);
        assert(10548082 * 10548082 == 111262033878724);
        assert(111262033878724 * 10548082 == 1173601056839558807368);
        assert(1173601056839558807368 * 1173601056839558807368 == 1377339440614929342507229752245178531087424);
        assert(1377339440614929342507229752245178531087424 * 1377339440614929342507229752245178531087424 == 1897063934673446472875090142093799761255133661556057564688525243783882936795930955776);
        assert(pow12(10548082) == 1897063934673446472875090142093799761255133661556057564688525243783882936795930955776);
        assert(52654090776777588736000000000000000000000000000000000000000000000000 * 36028797018963968 == 1897063548814622551278735927906664448000000000000000000000000000000000000000000000000);
        assert(semitone_millihertz(s) == 10548081);
        assert(top_key_pow12(s) == 1897063548814622551278735927906664448000000000000000000000000000000000000000000000000) by (nonlinear_arith)
            requires
                pow12(440_000) == 52654090776777588736000000000000000000000000000000000000000000000000,
                top_key_pow12(s) == pow12(440_000) * vstd::arithmetic::power2::pow2(55),
                vstd::arithmetic::power2::pow2(55) == 36028797018963968,
        ;
        assert(1897061776484370388805872266836031401890921140379675735505500085667069981948919319361 <= 1897063548814622551278735927906664448000000000000000000000000000000000000000000000000 < 1897063934673446472875090142093799761255133661556057564688525243783882936795930955776);
    } else if s == 5 {
        assert(11175303 * 11175303 == 124887397141809);
        assert(124887397141809 * 11175303 == 1395654503941049543127);
        assert(1395654503941049543127 * 1395654503941049543127 == 1947851494370937074708154744381535432938129);
        assert(1947851494370937074708154744381535432938129 * 1947851494370937074708154744381535432938129 == 3794125444123092706438131979046566972266635292662315378413121106255237531453542020641);
        assert(pow12(11175303) == 3794125444123092706438131979046566972266635292662315378413121106255237531453542020641);
        assert(11175304 * 11175304 == 124887419492416);
        assert(124887419492416 * 11175304 == 1395654878603274494464);
        assert(1395654878603274494464 * 1395654878603274494464 == 1947852540169120866307271306454794766647296);
        assert(1947852540169120866307271306454794766647296 * 1947852540169120866307271306454794766647296 == 3794129518243296618035839536914702697768873812809433632182870046346920422124464111616);
        assert(pow12(11175304) == 3794129518243296618035839536914702697768873812809433632182870046346920422124464111616);
        assert(52654090776777588736000000000000000000000000000000000000000000000000 * 72057594037927936 == 3794127097629245102557471855813328896000000000000000000000000000000000000000000000000);
        assert(semitone_millihertz(s) == 11175303);
        assert(top_key_pow12(s) == 3794127097629245102557471855813328896000000000000000000000000000000000000000000000000) by (nonlinear_arith)
            requires
                pow12(440_000) == 52654090776777588736000000000000000000000000000000000000000000000000,
                top_key_pow12(s) == pow12(440_000) * vstd::arithmetic::power2::pow2(56),
                vstd::arithmetic::power2::pow2(56) == 72057594037927936,
        ;
        assert(3794125444123092706438131979046566972266635292662315378413121106255237531453542020641 <= 3794127097629245102557471855813328896000000000000000000000000000000000000000000000000 < 3794129518243296618035839536914702697768873812809433632182870046346920422124464111616);
    } else if s == 6 {
        assert(11839821 * 11839821 == 140181361312041);
        assert(140181361312041 * 11839821 == 1659722225470890584661);
        assert(1659722225470890584661 * 1659722225470890584661 == 2754677865722045763031949524172378408484921);
        assert(2754677865722045763031949524172378408484921 * 2754677865722045763031949524172378408484921 == 7588250143898965187403643367982256698632764725000612307107101889967002284206684376241);
        assert(pow12(11839821) == 7588250143898965187403643367982256698632764725000612307107101889967002284206684376241);
        assert(11839822 * 11839822 == 140181384991684);
        assert(140181384991684 * 11839822 == 1659722646015010040248);
        assert(1659722646015010040248 * 1659722646015010040248 == 2754679261695066323434179413724246579901504);
        assert(2754679261695066323434179413724246579901504 * 2754679261695066323434179413724246579901504 == 7588257834812875693850421853050948959437432358793946654281902317573329617722341462016);
        assert(pow12(11839822) == 7588257834812875693850421853050948959437432358793946654281902317573329617722341462016);
        assert(52654090776777588736000000000000000000000000000000000000000000000000 * 144115188075855872 == 7588254195258490205114943711626657792000000000000000000000000000000000000000000000000);
        assert(semitone_millihertz(s) == 11839821);
        assert(top_key_pow12(s) == 7588254195258490205114943711626657792000000000000000000000000000000000000000000000000) by (nonlinear_arith)
            requires
                pow12(440_000) == 52654090776777588736000000000000000000000000000000000000000000000000,
                top_key_pow12(s) == pow12(440_000) * vstd::arithmetic::power2::pow2(57),
                vstd::arithmetic::power2::pow2(57) == 144115188075855872,
        ;
        assert(7588250143898965187403643367982256698632764725000612307107101889967002284206684376241 <= 7588254195258490205114943711626657792000000000000000000000000000000000000000000000000 < 7588257834812875693850421853050948959437432358793946654281902317573329617722341462016);
    } else if s == 7 {
        assert(12543853 * 12543853 == 157348248085609);
        assert(157348248085609 * 12543853 == 1973753293793410711477);
        assert(1973753293793410711477 * 1973753293793410711477 == 3895702064760337858587903844608439339521529);
        assert(3895702064760337858587903844608439339521529 * 3895702064760337858587903844608439339521529 == 15176494577377959626654587924951304077770356758246564198951018469592346441330654497841);
        assert(pow12(12543853) == 15176494577377959626654587924951304077770356758246564198951018469592346441330654497841);
        assert(12543854 * 12543854 == 157348273173316);
        assert(157348273173316 * 12543854 == 1973753765838192599864);
        assert(1973753765838192599864 * 1973753765838192599864 == 3895703928160446825255983810386771612818496);
        assert(3895703928160446825255983810386771612818496 * 3895703928160446825255983810386771612818496 == 15176509095884735838795474654991030946913266802238420611198239169581740579341039702016);
        assert(pow12(12543854) == 15176509095884735838795474654991030946913266802238420611198239169581740579341039702016);
        assert(52654090776777588736000000000000000000000000000000000000000000000000 * 288230376151711744 == 15176508390516980410229887423253315584000000000000000000000000000000000000000000000000);
        assert(semitone_millihertz(s) == 12543853);
        assert(top_key_pow12(s) == 15176508390516980410229887423253315584000000000000000000000000000000000000000000000000) by (nonlinear_arith)
            requires
                pow12(440_000) == 52654090776777588736000000000000000000000000000000000000000000000000,
                top_key_pow12(s) == pow12(440_000) * vstd::arithmetic::power2::pow2(58),
                vstd::arithmetic::power2::pow2(58) == 288230376151711744,
        ;
        assert(15176494577377959626654587924951304077770356758246564198951018469592346441330654497841 <= 15176508390516980410229887423253315584000000000000000000000000000000000000000000000000 < 15176509095884735838795474654991030946913266802238420611198239169581740579341039702016);
    } else if s == 8 {
        assert(13289750 * 13289750 == 176617455062500);
        assert(176617455062500 * 13289750 == 2347201823416859375000);
        assert(2347201823416859375000 * 2347201823416859375000 == 5509356399851429499043052988525390625000000);
        assert(5509356399851429499043052988525390625000000 * 5509356399851429499043052988525390625000000 == 30353007940583904319425348909497572997539824487067061166822910308837890625000000000000);
        assert(pow12(13289750) == 30353007940583904319425348909497572997539824487067061166822910308837890625000000000000);
        assert(13289751 * 13289751 == 176617481642001);
        assert(176617481642001 * 13289751 == 2347202353269264431751);
        assert(2347202353269264431751 * 2347202353269264431751 == 5509358887192772824642813554412188936926001);
        assert(5509358887192772824642813554412188936926001 * 5509358887192772824642813554412188936926001 == 30353035347889988118273116275290471306344932049963372370693316795359294830707349852001);
        assert(pow12(13289751) == 30353035347889988118273116275290471306344932049963372370693316795359294830707349852001);
        assert(52654090776777588736000000000000000000000000000000000000000000000000 * 576460752303423488 == 30353016781033960820459774846506631168000000000000000000000000000000000000000000000000);
        assert(semitone_millihertz(s) == 13289750);
        assert(top_key_pow12(s) == 30353016781033960820459774846506631168000000000000000000000000000000000000000000000000) by (nonlinear_arith)
            requires
                pow12(440_000) == 52654090776777588736000000000000000000000000000000000000000000000000,
                top_key_pow12(s) == pow12(440_000) * vstd::arithmetic::power2::pow2(59),
                vstd::arithmetic::power2::pow2(59) == 576460752303423488,
        ;
        assert(30353007940583904319425348909497572997539824487067061166822910308837890625000000000000 <= 30353016781033960820459774846506631168000000000000000000000000000000000000000000000000 < 30353035347889988118273116275290471306344932049963372370693316795359294830707349852001);
    } else if s == 9 {
        assert(14080000 * 14080000 == 198246400000000);
        assert(198246400000000 * 14080000 == 2791309312000000000000);
        assert(2791309312000000000000 * 2791309312000000000000 == 7791407675257913344000000000000000000000000);
        assert(7791407675257913344000000000000000000000000 * 7791407675257913344000000000000000000000000 == 60706033562067921640919549693013262336000000000000000000000000000000000000000000000000);
        assert(pow12(14080000) == 60706033562067921640919549693013262336000000000000000000000000000000000000000000000000);
        assert(14080001 * 14080001 == 198246428160001);
        assert(198246428160001 * 14080001 == 2791309906739242240001);
        assert(2791309906739242240001 * 2791309906739242240001 == 7791410995460637211443320589213696084480001);
        assert(7791410995460637211443320589213696084480001 * 7791410995460637211443320589213696084480001 == 60706085300184917693103442356785218595196937737555744760957423620603261724262568960001);
        assert(pow12(14080001) == 60706085300184917693103442356785218595196937737555744760957423620603261724262568960001);
        assert(52654090776777588736000000000000000000000000000000000000000000000000 * 1152921504606846976 == 60706033562067921640919549693013262336000000000000000000000000000000000000000000000000);
        assert(semitone_millihertz(s) == 14080000);
        assert(top_key_pow12(s) == 60706033562067921640919549693013262336000000000000000000000000000000000000000000000000) by (nonlinear_arith)
            requires
                pow12(440_000) == 52654090776777588736000000000000000000000000000000000000000000000000,
                top_key_pow12(s) == pow12(440_000) * vstd::arithmetic::power2::pow2(60),
                vstd::arithmetic::power2::pow2(60) == 1152921504606846976,
        ;
        assert(60706033562067921640919549693013262336000000000000000000000000000000000000000000000000 <= 60706033562067921640919549693013262336000000000000000000000000000000000000000000000000 < 60706085300184917693103442356785218595196937737555744760957423620603261724262568960001);
    } else if s == 10 {
        assert(14917240 * 14917240 == 222524049217600);
        assert(222524049217600 * 14917240 == 3319444647950751424000);
        assert(3319444647950751424000 * 3319444647950751424000 == 11018712770808888059952782926238027776000000);
        assert(11018712770808888059952782926238027776000000 * 11018712770808888059952782926238027776000000 == 121412031125586883292058809546288026375665631263964152645829762374147506176000000000000);
        assert(pow12(14917240) == 121412031125586883292058809546288026375665631263964152645829762374147506176000000000000);
        assert(14917241 * 14917241 == 222524079052081);
        assert(222524079052081 * 14917241 == 3319445315522943828521);
        assert(3319445315522943828521 * 3319445315522943828521 == 11018717202747216108457863906018201053047441);
        assert(11018717202747216108457863906018201053047441 * 11018717202747216108457863906018201053047441 == 121412128794117434780310657339574240772523540630033628853242816357461127761312996648481);
        assert(pow12(14917241) == 121412128794117434780310657339574240772523540630033628853242816357461127761312996648481);
        assert(52654090776777588736000000000000000000000000000000000000000000000000 * 2305843009213693952 == 121412067124135843281839099386026524672000000000000000000000000000000000000000000000000);
        assert(semitone_millihertz(s) == 14917240);
        assert(top_key_pow12(s) == 121412067124135843281839099386026524672000000000000000000000000000000000000000000000000) by (nonlinear_arith)
            requires
                pow12(440_000) == 52654090776777588736000000000000000000000000000000000000000000000000,
                top_key_pow12(s) == pow12(440_000) * vstd::arithmetic::power2::pow2(61),
                vstd::arithmetic::power2::pow2(61) == 2305843009213693952,
        ;
        assert(121412031125586883292058809546288026375665631263964152645829762374147506176000000000000 <= 121412067124135843281839099386026524672000000000000000000000000000000000000000000000000 < 121412128794117434780310657339574240772523540630033628853242816357461127761312996648481);
    } else {
        assert(15804265 * 15804265 == 249774792190225);
        assert(249774792190225 * 15804265 == 3947507006094246309625);
        assert(3947507006094246309625 * 3947507006094246309625 == 15582811563163159971077547832377931367640625);
        assert(15582811563163159971077547832377931367640625 * 15582811563163159971077547832377931367640625 == 242824016213051485136878537040290855648551276509368735167397232966396713253379150390625);
        assert(pow12(15804265) == 242824016213051485136878537040290855648551276509368735167397232966396713253379150390625);
        assert(15804266 * 15804266 == 249774823798756);
        assert(249774823798756 * 15804266 == 3947507755418670293096);
        assert(3947507755418670293096 * 3947507755418670293096 == 15582817479090548482744450733281090545265216);
        assert(15582817479090548482744450733281090545265216 * 15582817479090548482744450733281090545265216 == 242824200586649916400222512581381211630079883301660316606407355355844152445035779526656);
        assert(pow12(15804266) == 242824200586649916400222512581381211630079883301660316606407355355844152445035779526656);
        assert(52654090776777588736000000000000000000000000000000000000000000000000 * 4611686018427387904 == 242824134248271686563678198772053049344000000000000000000000000000000000000000000000000);
        assert(semitone_millihertz(s) == 15804265);
        assert(top_key_pow12(s) == 242824134248271686563678198772053049344000000000000000000000000000000000000000000000000) by (nonlinear_arith)
            requires
                pow12(440_000) == 52654090776777588736000000000000000000000000000000000000000000000000,
                top_key_pow12(s) == pow12(440_000) * vstd::arithmetic::power2::pow2(62),
                vstd::arithmetic::power2::pow2(62) == 4611686018427387904,
        ;
        assert(242824016213051485136878537040290855648551276509368735167397232966396713253379150390625 <= 242824134248271686563678198772053049344000000000000000000000000000000000000000000000000 < 242824200586649916400222512581381211630079883301660316606407355355844152445035779526656);
    }
}

proof fn lemma_pow12_monotonic(a: int, b: int)
    requires
        0 <= a <= b,
    ensures
        pow12(a) <= pow12(b),
{
    assert(a * a <= b * b) by (nonlinear_arith)
        requires
            0 <= a <= b,
    ;
    assert(a * a * a <= b * b * b) by (nonlinear_arith)
        requires
            0 <= a <= b,
            a * a <= b * b,
    ;
    let (a3, b3) = (a * a * a, b * b * b);
    assert(a3 * a3 <= b3 * b3) by (nonlinear_arith)
        requires
            0 <= a3 <= b3,
    ;
    let (a6, b6) = (a3 * a3, b3 * b3);
    assert(a6 * a6 <= b6 * b6) by (nonlinear_arith)
        requires
            0 <= a6 <= b6,
    ;
}

/// `midi_freq(key)` is `440 * 2^((key - 69) / 12)` Hz rounded down. With
/// `d = 1000 * 2^(10 - key / 12)` the exact frequency is the `key % 12`
/// entry's exact value divided by `d`, so in twelfth powers:
/// `(midi_freq(key) * d)^12 <= 440 000^12 * 2^(51 + key % 12) <
/// ((midi_freq(key) + 1) * d)^12`.
pub proof fn lemma_midi_freq_floor(key: nat)
    requires
        key < 128,
    ensures
        ({
            let d = 1000 * pow(2, (10 - key / 12) as nat);
            &&& pow12(midi_freq(key) * d) <= top_key_pow12(key % 12)
            &&& top_key_pow12(key % 12) < pow12((midi_freq(key) + 1) * d)
        }),
{
    let s = key % 12;
    let t = semitone_millihertz(s) as int;
    let e = (10 - key / 12) as nat;
    lemma_pow2_bound(e);
    let d = 1000 * pow(2, e);
    let v = midi_freq(key) as int;
    assert(v == t / d);
    lemma_semitone_floor(s);
    assert(v * d <= t < (v + 1) * d) by (nonlinear_arith)
        requires
            d > 0,
            t >= 0,
            v == t / d,
    ;
    assert(v >= 0) by (nonlinear_arith)
        requires
            d > 0,
            t >= 0,
            v == t / d,
    ;
    lemma_pow12_monotonic(v * d, t);
    lemma_pow12_monotonic(t + 1, (v + 1) * d);
}

/// Event `k` of `events` timed in loop iterations: its delta ticks at the
/// tempo set by the events before it.
pub open spec fn midi_timed_event(
    events: Seq<MidiEvent>,
    k: int,
    tempo: u32,
    ticks_per_beat: nat,
    sample_rate: nat,
    buffer_size: nat,
) -> TimedEvent {
    TimedEvent {
        delay: delay_of_us(
            ticks_to_us(tempo_after(events.subrange(0, k), tempo) as nat, events[k].delta_tick as nat, ticks_per_beat),
            sample_rate,
            buffer_size,
        ),
        action: midi_action(events[k]),
    }
}

proof fn lemma_pow2_bound(e: nat)
    requires
        e <= 10,
    ensures
        1 <= pow(2, e) <= 1024,
{
    vstd::arithmetic::power::lemma_pow_adds(2, e, (10 - e) as nat);
    vstd::arithmetic::power::lemma_pow_positive(2, e);
    vstd::arithmetic::power::lemma_pow_positive(2, (10 - e) as nat);
    reveal_with_fuel(pow, 11);
    assert(pow(2, 10) == 1024);
    assert(pow(2, e) <= pow(2, e) * pow(2, (10 - e) as nat)) by (nonlinear_arith)
        requires
            pow(2, (10 - e) as nat) >= 1,
            pow(2, e) >= 1,
    ;
}

/// The track read from raw events: one event per raw event, the names
/// gathered from the name events, the cursor at the start.
pub open spec fn track_of(raw: Seq<RawEvent>) -> MidiTrackModel {
    MidiTrackModel {
        name: name_of(raw),
        instrument: instrument_of(raw),
        events: raw.map_values(|e: RawEvent| event_of(e)),
        cursor: 0,
    }
}

proof fn lemma_bounded_key(e: RawEvent)
    requires
        raw_bounded(e),
    ensures
        event_of(e).key < 128,
{
}

impl MidiFile {
    /// Loads a Standard MIDI File. Fails with `Parse` when the bytes are not
    /// one, or hold a header division midly cannot read (`has_bad_division`,
    /// a time-code rate of -128 frames per second); and with `UnsupportedTimingFormat` when its timing is time code
    /// or zero ticks per beat; otherwise the file's tracks are read with
    /// `from_raw`.
    pub fn new(f: &[u8]) -> (r: Result<MidiFile, MidiError>)
        ensures
            r == Err::<MidiFile, MidiError>(MidiError::Parse) <==> has_bad_division(f@)
                || smf_contents(f@) is None,
            r is Ok <==> !has_bad_division(f@) && (smf_contents(f@) matches Some(
                (Timing::Metrical(t), _),
            ) && t > 0),
            r matches Ok(m) ==> (smf_contents(f@) matches Some((Timing::Metrical(t), ts)) && m@
                == (MidiFileModel {
                tracks: ts.map_values(|v: Seq<RawEvent>| track_of(v)),
                tempo: DEFAULT_TEMPO as nat,
                ticks_per_beat: t as nat,
            })),
            r matches Ok(m) ==> forall|i: int, k: int|
                0 <= i < m@.tracks.len() && 0 <= k < m@.tracks[i].events.len() ==> (
                #[trigger] m@.tracks[i].events[k]).key < 128,
    {
        if bad_division(f) {
            return Err(MidiError::Parse);
        }
        match smf_load(f) {
            Ok((timing, raw)) => {
                let r = MidiFile::from_raw(timing, &raw);
                proof {
                    if let Ok(ref m) = r {
                        assert(raw@.map_values(|v: Vec<RawEvent>| v@).map_values(
                            |v: Seq<RawEvent>| track_of(v),
                        ) =~= raw@.map_values(|v: Vec<RawEvent>| track_of(v@)));
                        assert forall|i: int, k: int|
                            0 <= i < m@.tracks.len() && 0 <= k < m@.tracks[i].events.len() implies (
                            #[trigger] m@.tracks[i].events[k]).key < 128 by {
                            assert(raw_bounded(raw@[i]@[k]));
                            lemma_bounded_key(raw@[i]@[k]);
                        }
                    }
                }
                r
            },
            Err(_) => Err(MidiError::Parse),
        }
    }

    /// A MIDI file from its header timing and raw tracks. Metrical timing of
    /// at least one tick per beat is required (else
    /// `UnsupportedTimingFormat`); each raw event becomes one event, in order,
    /// and the tempo starts at `DEFAULT_TEMPO`.
    pub fn from_raw(timing: Timing, raw: &Vec<Vec<RawEvent>>) -> (r: Result<MidiFile, MidiError>)
        ensures
            match timing {
                Timing::Metrical(t) => t > 0,
                Timing::Timecode => false,
            } <==> r is Ok,
            r is Err ==> r == Err::<MidiFile, MidiError>(MidiError::UnsupportedTimingFormat),
            r matches Ok(m) ==> (timing matches Timing::Metrical(t) && m@ == (MidiFileModel {
                tracks: raw@.map_values(|v: Vec<RawEvent>| track_of(v@)),
                tempo: DEFAULT_TEMPO as nat,
                ticks_per_beat: t as nat,
            })),
    {
        let ticks_per_beat = match timing {
            Timing::Metrical(t) => t,
            Timing::Timecode => {
                return Err(MidiError::UnsupportedTimingFormat);
            },
        };
        if ticks_per_beat == 0 {
            return Err(MidiError::UnsupportedTimingFormat);
        }
        let tracks = MidiFile::parse_tracks(raw);
        let m = MidiFile { tracks, tempo: DEFAULT_TEMPO, ticks_per_beat };
        assert(m@.tracks =~= raw@.map_values(|v: Vec<RawEvent>| track_of(v@)));
        Ok(m)
    }

    /// One track per raw track, in order.
    fn parse_tracks(raw: &Vec<Vec<RawEvent>>) -> (r: Vec<MidiTrack>)
        ensures
            r@.len() == raw@.len(),
            forall|i: int|
                0 <= i < raw@.len() ==> {
                    &&& (#[trigger] r@[i])@.events == raw@[i]@.map_values(|e: RawEvent| event_of(e))
                    &&& r@[i]@.name == name_of(raw@[i]@)
                    &&& r@[i]@.instrument == instrument_of(raw@[i]@)
                    &&& r@[i]@.cursor == 0
                },
    {
        let mut tracks: Vec<MidiTrack> = Vec::new();
        let mut i: usize = 0;
        while i < raw.len()
            invariant
                i <= raw.len(),
                tracks@.len() == i,
                forall|j: int|
                    0 <= j < i ==> {
                        &&& (#[trigger] tracks@[j])@.events == raw@[j]@.map_values(
                            |e: RawEvent| event_of(e),
                        )
                        &&& tracks@[j]@.name == name_of(raw@[j]@)
                        &&& tracks@[j]@.instrument == instrument_of(raw@[j]@)
                        &&& tracks@[j]@.cursor == 0
                    },
            decreases raw.len() - i,
        {
            tracks.push(MidiTrack::from_raw(&raw[i]));
            i = i + 1;
        }
        tracks
    }

    /// The tracks, in file order.
    pub fn tracks(&self) -> (r: &Vec<MidiTrack>)
        ensures
            r@.map_values(|t: MidiTrack| t@) == self@.tracks,
    {
        &self.tracks
    }

    /// Ticks per beat.
    pub fn ticks_per_beat(&self) -> (r: u16)
        ensures
            r == self@.ticks_per_beat,
    {
        self.ticks_per_beat
    }

    /// The next event of track `track_n`, the track's cursor then moving
    /// past it; `None`, with nothing changed, when there is no such track
    /// or every event was handed out.
    pub fn get_next_event(&mut self, track_n: usize) -> (r: Option<MidiEvent>)
        ensures
            ({
                let m = old(self)@;
                if track_n < m.tracks.len() && m.tracks[track_n as int].cursor < m.tracks[track_n as int].events.len() {
                    let t = m.tracks[track_n as int];
                    &&& r == Some(t.events[t.cursor as int])
                    &&& final(self)@ == (MidiFileModel {
                        tracks: m.tracks.update(track_n as int, MidiTrackModel { cursor: t.cursor + 1, ..t }),
                        ..m
                    })
                } else {
                    r is None && final(self)@ == m
                }
            }),
    {
        if track_n >= self.tracks.len() {
            return None;
        }
        let ghost m = self@;
        assert(self.tracks@[track_n as int]@ == m.tracks[track_n as int]);
        let cursor = self.tracks[track_n].cursor;
        if cursor >= self.tracks[track_n].events.len() {
            return None;
        }
        let event = self.tracks[track_n].events[cursor];
        self.tracks[track_n].cursor = cursor + 1;
        proof {
            let t = m.tracks[track_n as int];
            assert(self@.tracks =~= m.tracks.update(track_n as int, MidiTrackModel { cursor: t.cursor + 1, ..t }));
        }
        Some(event)
    }

    /// Microseconds in `delta_ticks` ticks at the file's starting tempo.
    pub fn delta2us(&self, delta_ticks: u32) -> (r: u64)
        requires
            self@.ticks_per_beat > 0,
        ensures
            r == ticks_to_us(self@.tempo, delta_ticks as nat, self@.ticks_per_beat),
    {
        ticks_to_us_exec(self.tempo, delta_ticks, self.ticks_per_beat)
    }

    /// The frequency of MIDI key `note`, in whole Hz (A4, key 69, is 440).
    pub fn midi2freq(note: u8) -> (r: u32)
        requires
            note < 128,
        ensures
            r == midi_freq(note as nat),
    {
        let s = note % 12;
        let base: u32 = if s == 0 {
            8_372_018
        } else if s == 1 {
            8_869_844
        } else if s == 2 {
            9_397_272
        } else if s == 3 {
            9_956_063
        } else if s == 4 {
            10_548_081
        } else if s == 5 {
            11_175_303
        } else if s == 6 {
            11_839_821
        } else if s == 7 {
            12_543_853
        } else if s == 8 {
            13_289_750
        } else if s == 9 {
            14_080_000
        } else if s == 10 {
            14_917_240
        } else {
            15_804_265
        };
        let octave: usize = (note / 12) as usize;
        proof {
            lemma_pow2_bound((10 - octave) as nat);
        }
        let scale = pow_u32(2, 10 - octave);
        base / (1000 * scale)
    }

    /// The timed events of track `track_n` for a loop of `buffer_size`
    /// samples per iteration at `sample_rate`: one per event, each waiting
    /// its delta ticks at the tempo the events before it set (starting from
    /// the file's tempo); notes play on their MIDI channel.
    pub fn schedule(&self, track_n: usize, sample_rate: u32, buffer_size: usize) -> (r: Vec<TimedEvent>)
        requires
            track_n < self@.tracks.len(),
            self@.ticks_per_beat > 0,
            buffer_size > 0,
        ensures
            ({
                let events = self@.tracks[track_n as int].events;
                &&& r@.len() == events.len()
                &&& forall|k: int|
                    0 <= k < events.len() ==> #[trigger] r@[k] == midi_timed_event(
                        events,
                        k,
                        self@.tempo as u32,
                        self@.ticks_per_beat,
                        sample_rate as nat,
                        buffer_size as nat,
                    )
            }),
    {
        assert(self.tracks@[track_n as int]@ == self@.tracks[track_n as int]);
        let events = &self.tracks[track_n].events;
        let mut tempo = self.tempo;
        let mut out: Vec<TimedEvent> = Vec::new();
        let mut i: usize = 0;
        while i < events.len()
            invariant
                i <= events.len(),
                self@.ticks_per_beat > 0,
                buffer_size > 0,
                events@ == self@.tracks[track_n as int].events,
                tempo == tempo_after(events@.subrange(0, i as int), self.tempo),
                out@.len() == i,
                forall|k: int|
                    0 <= k < i ==> #[trigger] out@[k] == midi_timed_event(
                        events@,
                        k,
                        self.tempo,
                        self@.ticks_per_beat,
                        sample_rate as nat,
                        buffer_size as nat,
                    ),
            decreases events.len() - i,
        {
            let e = events[i];
            let us = ticks_to_us_exec(tempo, e.delta_tick, self.ticks_per_beat);
            let delay = us_to_iterations(us, sample_rate, buffer_size);
            let action = match e.kind {
                MidiEventKind::NoteOn => if e.key < 128 {
                    Action::NoteOn { channel: e.channel as usize, freq: MidiFile::midi2freq(e.key), duty: DEFAULT_DUTY }
                } else {
                    Action::Idle
                },
                MidiEventKind::NoteOff => if e.key < 128 {
                    Action::NoteOff { channel: e.channel as usize, freq: MidiFile::midi2freq(e.key) }
                } else {
                    Action::Idle
                },
                _ => Action::Idle,
            };
            out.push(TimedEvent { delay, action });
            proof {
                assert(events@.subrange(0, i + 1).drop_last() =~= events@.subrange(0, i as int));
            }
            match e.kind {
                MidiEventKind::MetaSetTempo(t) => {
                    tempo = t;
                },
                _ => {},
            }
            i = i + 1;
        }
        out
    }
}

/// Microseconds in `delta_ticks` ticks at `tempo` microseconds per beat.
fn ticks_to_us_exec(tempo: u32, delta_ticks: u32, ticks_per_beat: u16) -> (r: u64)
    requires
        ticks_per_beat > 0,
    ensures
        r == ticks_to_us(tempo as nat, delta_ticks as nat, ticks_per_beat as nat),
{
    assert((tempo as u64) * (delta_ticks as u64) <= (u32::MAX as u64) * (u32::MAX as u64))
        by (nonlinear_arith);
    let product: u64 = (tempo as u64) * (delta_ticks as u64);
    assert(product / (ticks_per_beat as u64) <= product) by (nonlinear_arith)
        requires
            ticks_per_beat > 0,
    ;
    product / (ticks_per_beat as u64)
}

} // verus!
