use obs::config::Config;
use obs::score::{parse_message, parse_score, parse_score_prefix, score_events, ParseError, ScoreLine};
use obs::sequencer::{us_to_iterations, Action, Sequencer, TimedEvent};
use obs::DEFAULT_DUTY;

fn lines(text: &str) -> Vec<Vec<u8>> {
    text.split('\n').map(|l| l.as_bytes().to_vec()).collect()
}

#[test]
fn parse_message_reads_fields() {
    assert_eq!(parse_message(b"1 440 1000000\n"), Some(vec![1, 440, 1_000_000]));
    assert_eq!(parse_message(b"  7\t8  "), Some(vec![7, 8]));
    assert_eq!(parse_message(b""), Some(vec![]));
    assert_eq!(parse_message(b" \r\n"), Some(vec![]));
    assert_eq!(parse_message(b"4294967295"), Some(vec![u32::MAX]));
}

#[test]
fn parse_message_rejects_bad_input() {
    assert_eq!(parse_message(b"1 4x0 5"), None);
    assert_eq!(parse_message(b"-1 2 3"), None);
    assert_eq!(parse_message(b"4294967296"), None);
}

#[test]
fn parse_score_stops_at_blank_line() {
    let r = parse_score(&lines("1 440 1000\n0 440 500\n\n1 999 1\n"));
    assert_eq!(
        r,
        Ok(vec![
            ScoreLine { status: 1, freq: 440, delay: 1000 },
            ScoreLine { status: 0, freq: 440, delay: 500 },
        ])
    );
}

#[test]
fn parse_score_reports_first_bad_line() {
    assert_eq!(parse_score(&lines("1 440 1000\n1 440\n0 440 1")), Err(ParseError { line: 1 }));
    assert_eq!(parse_score(&lines("1 440 1000\nabc\n")), Err(ParseError { line: 1 }));
    assert_eq!(parse_score(&vec![]), Ok(vec![]));
}

#[test]
fn us_to_iterations_formula() {
    assert_eq!(us_to_iterations(1_000_000, 300_000, 1), 300_000);
    assert_eq!(us_to_iterations(500_000, 300_000, 2048), 73);
    assert_eq!(us_to_iterations(0, 300_000, 1), 0);
    assert_eq!(us_to_iterations(u64::MAX, u32::MAX, 1), u64::MAX);
}

#[test]
fn score_events_delay_after_line() {
    let score = vec![
        ScoreLine { status: 1, freq: 440, delay: 1_000_000 },
        ScoreLine { status: 0, freq: 440, delay: 500_000 },
    ];
    let events = score_events(&score, 2, 300_000, 1);
    assert_eq!(
        events,
        vec![
            TimedEvent { delay: 0, action: Action::NoteOn { channel: 2, freq: 440, duty: DEFAULT_DUTY } },
            TimedEvent { delay: 300_000, action: Action::NoteOff { channel: 2, freq: 440 } },
        ]
    );
}

#[test]
fn scheduler_timing_score() {
    let score = parse_score(&lines("1 440 1000000\n0 440 500000\n")).unwrap();
    let cfg = Config { sample_rate: 300_000, buffer_size: 1, voices_max: 4, channels_max: 1 };
    let events = score_events(&score, 0, cfg.sample_rate, cfg.buffer_size);
    let mut seq = Sequencer::new(&cfg, vec![events]);
    assert!(!seq.synth().channel(0).has_note(440));
    let buf = seq.tick();
    assert_eq!(buf.len(), 1);
    assert!(seq.synth().channel(0).has_note(440), "on at iteration 0");
    for it in 1..300_000 {
        seq.tick();
        assert!(seq.synth().channel(0).has_note(440), "still on at iteration {}", it);
    }
    assert!(!seq.finished());
    seq.tick();
    assert!(!seq.synth().channel(0).has_note(440), "off at iteration 300000");
    assert!(seq.finished());
    for _ in 0..1000 {
        assert_eq!(seq.tick().len(), 1);
    }
    assert!(seq.finished());
}

#[test]
fn scheduler_applies_same_time_events_together() {
    let cfg = Config { sample_rate: 1000, buffer_size: 4, voices_max: 4, channels_max: 2 };
    let chord = vec![
        TimedEvent { delay: 2, action: Action::NoteOn { channel: 0, freq: 100, duty: 5000 } },
        TimedEvent { delay: 0, action: Action::NoteOn { channel: 0, freq: 50, duty: 5000 } },
        TimedEvent { delay: 0, action: Action::NoteOn { channel: 1, freq: 25, duty: 5000 } },
    ];
    let mut seq = Sequencer::new(&cfg, vec![chord, vec![]]);
    assert_eq!(seq.tick().len(), 4);
    seq.tick();
    assert_eq!(seq.synth().channel(0).voice_count(), 0);
    seq.tick();
    assert_eq!(seq.synth().channel(0).voice_count(), 2);
    assert!(seq.synth().channel(1).has_note(25));
    assert!(seq.finished());
}

#[test]
fn scheduler_refused_note_is_local() {
    let cfg = Config { sample_rate: 1000, buffer_size: 1, voices_max: 1, channels_max: 1 };
    let a = vec![
        TimedEvent { delay: 0, action: Action::NoteOn { channel: 0, freq: 100, duty: 5000 } },
        TimedEvent { delay: 0, action: Action::NoteOn { channel: 0, freq: 200, duty: 5000 } },
        TimedEvent { delay: 0, action: Action::NoteOn { channel: 9, freq: 300, duty: 5000 } },
    ];
    let b = vec![TimedEvent { delay: 1, action: Action::NoteOff { channel: 0, freq: 100 } }];
    let mut seq = Sequencer::new(&cfg, vec![a, b]);
    seq.tick();
    assert!(seq.synth().channel(0).has_note(100));
    assert!(!seq.synth().channel(0).has_note(200));
    seq.tick();
    assert_eq!(seq.synth().channel(0).voice_count(), 0);
    assert!(seq.finished());
}

#[test]
fn parse_score_prefix_keeps_lines_before_error() {
    let (lines_read, error) = parse_score_prefix(&lines("1 440 1000\n0 440 500\n1 x 2\n1 220 9\n"));
    assert_eq!(
        lines_read,
        vec![
            ScoreLine { status: 1, freq: 440, delay: 1000 },
            ScoreLine { status: 0, freq: 440, delay: 500 },
        ]
    );
    assert_eq!(error, Some(ParseError { line: 2 }));
    let (all, none) = parse_score_prefix(&lines("1 440 1000\n\n"));
    assert_eq!(all, vec![ScoreLine { status: 1, freq: 440, delay: 1000 }]);
    assert_eq!(none, None);
}
