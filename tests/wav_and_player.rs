use obs::midi_reader::{MidiEvent, MidiEventKind};
use obs::player::{KeyCommand, KeyboardPlayer, Player, PlayerEvent, PlayerMode};
use obs::wav_reader::{donwsample, resample, BitDepth};
use obs::{AMPLITUDE_MAX, AMPLITUDE_MIN};

#[test]
fn donwsample_thresholds() {
    assert_eq!(donwsample(BitDepth::Eight(vec![0, 129, 130, 255])), Some(vec![false, false, true, true]));
    assert_eq!(donwsample(BitDepth::Sixteen(vec![-5, 50, 51, 3000])), Some(vec![false, false, true, true]));
    assert_eq!(donwsample(BitDepth::TwentyFour(vec![1, 2])), None);
    assert_eq!(donwsample(BitDepth::Other), None);
}

#[test]
fn resample_repeats_samples() {
    assert_eq!(resample(vec![true, false], 100, 300), vec![true, true, true, false, false, false]);
    assert_eq!(resample(vec![true, false], 100, 250), vec![true, true, false, false]);
    assert_eq!(resample(vec![true, false], 300, 100), Vec::<bool>::new());
    assert_eq!(resample(vec![], 1, 10), Vec::<bool>::new());
}

#[test]
fn key_commands() {
    assert_eq!(KeyCommand::from_key('q'), KeyCommand::Quit);
    assert_eq!(KeyCommand::from_key('w'), KeyCommand::Play);
    assert_eq!(KeyCommand::from_key('x'), KeyCommand::Other);
}

#[test]
fn keyboard_player_plays_midi_messages() {
    let mut p = KeyboardPlayer::new();
    p.update();
    assert_eq!(p.take_output(), vec![AMPLITUDE_MIN]);
    // The next sample carries channel 1.
    let on = MidiEvent { kind: MidiEventKind::NoteOn, key: 69, velocity: 100, delta_tick: 0, channel: 1 };
    p.process_event(PlayerEvent::MidiMessage(on));
    p.process_event(PlayerEvent::KeyPress('a'));
    assert!(p.synth().channel(1).has_note(440));
    p.update();
    assert_eq!(p.take_output(), vec![AMPLITUDE_MAX]);
    let off = MidiEvent { kind: MidiEventKind::NoteOff, key: 69, velocity: 0, delta_tick: 0, channel: 1 };
    p.process_event(PlayerEvent::MidiMessage(off));
    assert!(!p.synth().channel(1).has_note(440));
}

#[test]
fn player_drains_its_mode() {
    let mode: Box<dyn PlayerMode> = Box::new(KeyboardPlayer::new());
    let mut p = Player::new(mode);
    p.audio_out(3);
    p.update();
    p.audio_out(9);
    assert_eq!(p.drain(), vec![3, AMPLITUDE_MIN, 9]);
    assert!(p.drain().is_empty());
}
