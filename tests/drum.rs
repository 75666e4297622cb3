use obs::drum_machine::{DrumMachine, DrumVoice};

#[test]
fn drum_retrigger() {
    let pattern = vec![true, false, true, true, false];
    let mut d = DrumVoice::new(pattern.clone());
    assert!(!d.get_sample());
    d.hit();
    assert!(d.get_sample());
    assert!(!d.get_sample());
    // Hit again mid-way: playback restarts from the first bit.
    d.hit();
    let mut got = Vec::new();
    for _ in 0..12 {
        got.push(d.get_sample());
    }
    let mut expected = pattern.clone();
    expected.extend(std::iter::repeat(false).take(7));
    assert_eq!(got, expected);
    assert!(!d.is_playing());
}

#[test]
fn drum_empty_hit_is_silent() {
    let mut d = DrumVoice::new(vec![]);
    d.hit();
    assert!(!d.is_playing());
    assert!(!d.get_sample());
}

#[test]
fn drum_machine_empty_is_silent() {
    let mut m = DrumMachine::new();
    assert!(!m.get_sample());
    assert_eq!(m.voice_count(), 0);
}

#[test]
fn drum_machine_load_plays_first_voice() {
    let mut m = DrumMachine::new();
    m.load_voice(DrumVoice::new(vec![true, true, false, true]));
    let got: Vec<bool> = (0..6).map(|_| m.get_sample()).collect();
    assert_eq!(got, vec![true, true, false, true, false, false]);
}

#[test]
fn drum_machine_round_robin() {
    let mut m = DrumMachine::new();
    m.load_voice(DrumVoice::new(vec![true; 6]));
    // Only the first voice was hit: the second one waits.
    m.load_voice(DrumVoice::new(vec![true; 6]));
    assert_eq!(m.voice_count(), 2);
    let got: Vec<bool> = (0..8).map(|_| m.get_sample()).collect();
    assert_eq!(got, vec![true, false, true, false, true, false, false, false]);
}
