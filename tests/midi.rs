use obs::config::Config;
use obs::midi_reader::{bad_division, MidiError, MidiEventKind, MidiFile, RawEvent, RawKind, Timing};
use obs::player::{MidiPlayer, PlayerMode};
use obs::sequencer::{Action, Sequencer, TimedEvent};
use obs::DEFAULT_DUTY;

fn smf(division: [u8; 2], track: &[u8]) -> Vec<u8> {
    let mut b = b"MThd".to_vec();
    b.extend_from_slice(&[0, 0, 0, 6, 0, 0, 0, 1]);
    b.extend_from_slice(&division);
    b.extend_from_slice(b"MTrk");
    b.extend_from_slice(&(track.len() as u32).to_be_bytes());
    b.extend_from_slice(track);
    b
}

fn one_note_track() -> Vec<u8> {
    vec![
        0x00, 0xFF, 0x03, 0x04, b'L', b'e', b'a', b'd', // track name
        0x00, 0xFF, 0x51, 0x03, 0x07, 0xA1, 0x20, // tempo 500000
        0x00, 0x90, 69, 100, // note on
        0x83, 0x60, 0x80, 69, 0, // 480 ticks later, note off
        0x00, 0xFF, 0x2F, 0x00, // end of track
    ]
}

#[test]
fn midi2freq_values() {
    assert_eq!(MidiFile::midi2freq(69), 440);
    assert_eq!(MidiFile::midi2freq(81), 880);
    assert_eq!(MidiFile::midi2freq(57), 220);
    assert_eq!(MidiFile::midi2freq(60), 261);
    assert_eq!(MidiFile::midi2freq(127), 12543);
    assert_eq!(MidiFile::midi2freq(0), 8);
}

#[test]
fn midi_file_reads_events() {
    let mut f = MidiFile::new(&smf([0x01, 0xE0], &one_note_track())).unwrap();
    assert_eq!(f.ticks_per_beat(), 480);
    assert_eq!(f.tracks().len(), 1);
    let t = &f.tracks()[0];
    assert_eq!(t.name(), &b"Lead".to_vec());
    assert_eq!(t.len(), 5);
    assert_eq!(t.get_event(1).kind(), MidiEventKind::MetaSetTempo(500_000));
    let on = *t.get_event(2);
    assert_eq!((on.kind(), on.key(), on.velocity(), on.delta_tick(), on.channel()), (MidiEventKind::NoteOn, 69, 100, 0, 0));
    let off = *t.get_event(3);
    assert_eq!((off.kind(), off.key(), off.delta_tick()), (MidiEventKind::NoteOff, 69, 480));
    assert_eq!(f.delta2us(480), 500_000);
    assert_eq!(f.get_next_event(0).map(|e| e.kind()), Some(MidiEventKind::Other));
    assert_eq!(f.get_next_event(0).map(|e| e.kind()), Some(MidiEventKind::MetaSetTempo(500_000)));
    assert!(f.get_next_event(1).is_none());
}

#[test]
fn midi_note_on_velocity_zero_is_note_off() {
    let raw = vec![vec![
        RawEvent { delta: 0, kind: RawKind::NoteOn { channel: 3, key: 60, vel: 90 } },
        RawEvent { delta: 10, kind: RawKind::NoteOn { channel: 3, key: 60, vel: 0 } },
        RawEvent { delta: 5, kind: RawKind::TrackName(b"ab".to_vec()) },
        RawEvent { delta: 0, kind: RawKind::TrackName(b"c".to_vec()) },
        RawEvent { delta: 0, kind: RawKind::InstrumentName(b"organ".to_vec()) },
    ]];
    let f = MidiFile::from_raw(Timing::Metrical(96), &raw).unwrap();
    let t = &f.tracks()[0];
    assert_eq!(t.get_event(0).kind(), MidiEventKind::NoteOn);
    assert_eq!(t.get_event(1).kind(), MidiEventKind::NoteOff);
    assert_eq!(t.get_event(1).channel(), 3);
    assert_eq!(t.get_event(2).kind(), MidiEventKind::Other);
    assert_eq!(t.get_event(2).delta_tick(), 5);
    assert_eq!(t.name(), &b"abc".to_vec());
    assert_eq!(t.instrument(), &b"organ".to_vec());
}

#[test]
fn midi_timecode_is_rejected() {
    let bytes = smf([0xE7, 0x28], &[0x00, 0xFF, 0x2F, 0x00]);
    assert_eq!(MidiFile::new(&bytes).err(), Some(MidiError::UnsupportedTimingFormat));
    assert_eq!(MidiFile::from_raw(Timing::Timecode, &vec![]).err(), Some(MidiError::UnsupportedTimingFormat));
    assert_eq!(MidiFile::from_raw(Timing::Metrical(0), &vec![]).err(), Some(MidiError::UnsupportedTimingFormat));
}

#[test]
fn midi_garbage_is_a_parse_error() {
    assert_eq!(MidiFile::new(b"not a midi file").err(), Some(MidiError::Parse));
}

#[test]
fn midi_schedule_follows_tempo() {
    let raw = vec![vec![
        RawEvent { delta: 96, kind: RawKind::NoteOn { channel: 1, key: 69, vel: 64 } },
        RawEvent { delta: 0, kind: RawKind::Tempo(250_000) },
        RawEvent { delta: 96, kind: RawKind::NoteOff { channel: 1, key: 69, vel: 0 } },
    ]];
    let f = MidiFile::from_raw(Timing::Metrical(96), &raw).unwrap();
    let events = f.schedule(0, 1000, 1);
    assert_eq!(
        events,
        vec![
            TimedEvent { delay: 500, action: Action::NoteOn { channel: 1, freq: 440, duty: DEFAULT_DUTY } },
            TimedEvent { delay: 0, action: Action::Idle },
            TimedEvent { delay: 250, action: Action::NoteOff { channel: 1, freq: 440 } },
        ]
    );
}

#[test]
fn midi_end_to_end_note_length() {
    let f = MidiFile::new(&smf([0x01, 0xE0], &one_note_track())).unwrap();
    let cfg = Config { sample_rate: 300_000, buffer_size: 1, voices_max: 4, channels_max: 16 };
    let events = f.schedule(0, cfg.sample_rate, cfg.buffer_size);
    let mut seq = Sequencer::new(&cfg, vec![events]);
    let mut on_at = None;
    let mut off_at = None;
    for it in 0..200_000u64 {
        let was = seq.synth().channel(0).has_note(440);
        seq.tick();
        let now = seq.synth().channel(0).has_note(440);
        if !was && now {
            on_at = Some(it);
        }
        if was && !now {
            off_at = Some(it);
        }
    }
    let (on, off) = (on_at.unwrap(), off_at.unwrap());
    assert_eq!(on, 0);
    // Each iteration renders one sample at 300 000 samples per second.
    let us = (off - on) * 1_000_000 * cfg.buffer_size as u64 / cfg.sample_rate as u64;
    assert_eq!(us, 500_000);
}

#[test]
fn midi_player_renders_and_drains() {
    let f = MidiFile::new(&smf([0x01, 0xE0], &one_note_track())).unwrap();
    let cfg = Config { sample_rate: 300_000, buffer_size: 16, voices_max: 4, channels_max: 16 };
    let mut p = MidiPlayer::with_config(f, &cfg);
    p.update();
    p.update();
    p.audio_out(7);
    let out = p.take_output();
    assert_eq!(out.len(), 33);
    assert_eq!(out[32], 7);
    assert!(p.take_output().is_empty());
    assert!(!p.finished());
}

#[test]
fn midi_division_minus_128_is_a_parse_error() {
    let bytes = smf([0x80, 0x00], &[0x00, 0xFF, 0x2F, 0x00]);
    assert!(bad_division(&bytes));
    assert_eq!(MidiFile::new(&bytes).err(), Some(MidiError::Parse));
    assert!(!bad_division(&smf([0x01, 0xE0], &one_note_track())));
}

#[test]
fn midi2freq_more_keys() {
    // Rounded down: 293.66, 329.63, 415.30, 830.61 Hz.
    assert_eq!(MidiFile::midi2freq(62), 293);
    assert_eq!(MidiFile::midi2freq(64), 329);
    assert_eq!(MidiFile::midi2freq(68), 415);
    assert_eq!(MidiFile::midi2freq(80), 830);
}
