use obs::channel::{buffer_or, Channel, SynthError};
use obs::voice::Voice;

#[test]
fn channel_empty_is_silent() {
    let mut c = Channel::with_config(4, 1000);
    for _ in 0..50 {
        assert!(!c.out());
    }
    assert!(c.out_buffer(64).iter().all(|b| !*b));
}

#[test]
fn channel_is_or_of_its_voices() {
    let mut c = Channel::with_config(4, 1000);
    c.note_on(100, 3000).unwrap();
    c.note_on(40, 5000).unwrap();
    let mut a = Voice::with_sample_rate(1000, 100, 3000);
    let mut b = Voice::with_sample_rate(1000, 40, 5000);
    for _ in 0..200 {
        let expected = a.out() | b.out();
        assert_eq!(c.out(), expected);
    }
}

#[test]
fn channel_single_voice_equals_voice() {
    let mut c = Channel::with_config(4, 1000);
    c.note_on(70, 4000).unwrap();
    let mut v = Voice::with_sample_rate(1000, 70, 4000);
    assert_eq!(c.out_buffer(300), v.out_buffer(300));
}

#[test]
fn channel_out_buffer_matches_out() {
    let mut c1 = Channel::with_config(4, 1000);
    let mut c2 = Channel::with_config(4, 1000);
    for c in [&mut c1, &mut c2] {
        c.note_on(90, 2000).unwrap();
        c.note_on(33, 6000).unwrap();
    }
    let buffered = c1.out_buffer(150);
    let stepped: Vec<bool> = (0..150).map(|_| c2.out()).collect();
    assert_eq!(buffered, stepped);
}

#[test]
fn channel_pool_exhausted() {
    let mut c = Channel::with_config(2, 1000);
    assert_eq!(c.note_on(100, 5000), Ok(()));
    assert_eq!(c.note_on(200, 5000), Ok(()));
    assert_eq!(c.note_on(300, 5000), Err(SynthError::VoicePoolExhausted));
    assert_eq!(c.voice_count(), 2);
    assert!(!c.has_note(300));
}

#[test]
fn channel_same_frequency_retunes() {
    let mut c = Channel::with_config(2, 1000);
    c.note_on(100, 5000).unwrap();
    c.note_on(100, 1000).unwrap();
    assert_eq!(c.voice_count(), 1);
    c.note_on(200, 5000).unwrap();
    assert_eq!(c.note_on(100, 5000), Ok(()));
}

#[test]
fn channel_note_off() {
    let mut c = Channel::new();
    c.note_on(440, 5000).unwrap();
    c.note_on(220, 5000).unwrap();
    c.note_off(330);
    assert_eq!(c.voice_count(), 2);
    c.note_off(440);
    assert_eq!(c.voice_count(), 1);
    assert!(!c.has_note(440));
    assert!(c.has_note(220));
}

#[test]
fn buffer_or_is_elementwise() {
    let r = buffer_or(vec![true, false, false, true], vec![false, false, true, true]);
    assert_eq!(r, vec![true, false, true, true]);
    assert_eq!(buffer_or(vec![], vec![]), Vec::<bool>::new());
}
