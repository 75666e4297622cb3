use obs::channel::{Channel, SynthError};
use obs::config::Config;
use obs::output::{level, levels};
use obs::synth::Synth;
use obs::{AMPLITUDE_MAX, AMPLITUDE_MIN, CHANNELS_MAX};

fn small_config(channels: usize) -> Config {
    Config { sample_rate: 1000, buffer_size: 8, voices_max: 4, channels_max: channels }
}

#[test]
fn synth_round_robin() {
    let cfg = small_config(3);
    let mut s = Synth::with_config(&cfg);
    let mut refs: Vec<Channel> = (0..3).map(|_| Channel::with_config(4, 1000)).collect();
    let notes = [(0usize, 50u32, 5000u32), (1, 20, 3000), (2, 125, 7000)];
    for (ch, f, d) in notes {
        s.note_on(f, d, ch).unwrap();
        refs[ch].note_on(f, d).unwrap();
    }
    let got = s.get_buffer_bool(300);
    for k in 0..300 {
        let bits: Vec<bool> = refs.iter_mut().map(|c| c.out()).collect();
        assert_eq!(got[k], bits[k % 3], "sample {}", k);
    }
}

#[test]
fn synth_every_channel_keeps_time() {
    let cfg = small_config(2);
    let mut s = Synth::with_config(&cfg);
    s.note_on(100, 5000, 0).unwrap();
    s.note_on(100, 5000, 1).unwrap();
    // Both channels advance on every sample, so the interleaved output is
    // the shared wave itself.
    let mut v = obs::voice::Voice::with_sample_rate(1000, 100, 5000);
    assert_eq!(s.get_buffer_bool(40), v.out_buffer(40));
}

#[test]
fn synth_invalid_channel() {
    let mut s = Synth::with_config(&small_config(2));
    assert_eq!(s.note_on(440, 5000, 2), Err(SynthError::InvalidParameter));
    s.note_off(440, 7);
    assert_eq!(s.channel(0).voice_count(), 0);
}

#[test]
fn synth_pool_exhausted_on_channel() {
    let cfg = Config { sample_rate: 1000, buffer_size: 1, voices_max: 1, channels_max: 2 };
    let mut s = Synth::with_config(&cfg);
    assert_eq!(s.note_on(10, 5000, 1), Ok(()));
    assert_eq!(s.note_on(20, 5000, 1), Err(SynthError::VoicePoolExhausted));
    assert_eq!(s.note_on(20, 5000, 0), Ok(()));
}

#[test]
fn synth_channel_select() {
    let mut s = Synth::new();
    assert_eq!(s.channel_count(), CHANNELS_MAX);
    assert!(s.channel_select(3));
    assert_eq!(s.selected(), 3);
    assert!(!s.channel_select(CHANNELS_MAX));
    assert_eq!(s.selected(), 3);
}

#[test]
fn synth_levels() {
    let cfg = small_config(1);
    let mut a = Synth::with_config(&cfg);
    let mut b = Synth::with_config(&cfg);
    a.note_on(100, 5000, 0).unwrap();
    b.note_on(100, 5000, 0).unwrap();
    let bytes = a.get_buffer(20);
    let bits = b.get_buffer_bool(20);
    assert_eq!(bytes, levels(&bits));
    assert_eq!(bytes[0], AMPLITUDE_MAX);
    assert_eq!(bytes[9], AMPLITUDE_MIN);
    assert_eq!(a.get_sample(), level(b.get_sample_bool()));
    assert_eq!(level(true), AMPLITUDE_MAX);
    assert_eq!(level(false), AMPLITUDE_MIN);
}

#[test]
fn synth_empty_is_silent() {
    let mut s = Synth::new();
    assert!(s.get_buffer_bool(100).iter().all(|b| !*b));
}
