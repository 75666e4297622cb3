//! The score format: one event per line, `status frequency delay`, three
//! unsigned decimal integers separated by whitespace.

use vstd::prelude::*;

use crate::sequencer::{delay_of_us, us_to_iterations, Action, TimedEvent};
use crate::DEFAULT_DUTY;

verus! {

/// An ASCII whitespace byte.
pub open spec fn is_space(b: u8) -> bool {
    b == 32 || b == 9 || b == 10 || b == 11 || b == 12 || b == 13
}

/// An ASCII decimal digit.
pub open spec fn is_digit(b: u8) -> bool {
    48 <= b <= 57
}

/// The state of the field reader after some prefix of a line.
pub struct Scan {
    /// The fields completed so far.
    pub fields: Seq<u32>,
    /// The value of the field being read, if inside one.
    pub current: Option<u32>,
    /// Whether a byte that is neither a digit nor whitespace, or a value
    /// over `u32::MAX`, was met.
    pub bad: bool,
}

/// The field reader after one more byte.
pub open spec fn feed(st: Scan, b: u8) -> Scan {
    if st.bad {
        st
    } else if is_space(b) {
        match st.current {
            Some(v) => Scan { fields: st.fields.push(v), current: None, bad: false },
            None => st,
        }
    } else if is_digit(b) {
        let v = match st.current {
            Some(v) => v as int,
            None => 0,
        } * 10 + (b - 48);
        if v > u32::MAX {
            Scan { bad: true, ..st }
        } else {
            Scan { current: Some(v as u32), ..st }
        }
    } else {
        Scan { bad: true, ..st }
    }
}

/// The field reader after the bytes `s`.
pub open spec fn scan(s: Seq<u8>) -> Scan
    decreases s.len(),
{
    if s.len() == 0 {
        Scan { fields: Seq::empty(), current: None, bad: false }
    } else {
        feed(scan(s.drop_last()), s.last())
    }
}

/// The fields of a line, or `None` when it is malformed.
pub open spec fn message_fields(s: Seq<u8>) -> Option<Seq<u32>> {
    let st = scan(s);
    if st.bad {
        None
    } else {
        match st.current {
            Some(v) => Some(st.fields.push(v)),
            None => Some(st.fields),
        }
    }
}

proof fn lemma_bad_stays(s: Seq<u8>, i: int)
    requires
        0 <= i <= s.len(),
        scan(s.subrange(0, i)).bad,
    ensures
        scan(s).bad,
    decreases s.len() - i,
{
    if i < s.len() {
        assert(s.subrange(0, i + 1).drop_last() =~= s.subrange(0, i));
        lemma_bad_stays(s, i + 1);
    } else {
        assert(s.subrange(0, i) =~= s);
    }
}

/// Reads the whitespace-separated unsigned decimal fields of a line; `None`
/// when the line holds any other byte or a value over `u32::MAX`. A blank
/// line has no field.
pub fn parse_message(line: &[u8]) -> (r: Option<Vec<u32>>)
    ensures
        r is None <==> message_fields(line@) is None,
        r matches Some(v) ==> message_fields(line@) == Some(v@),
{
    let mut fields: Vec<u32> = Vec::new();
    let mut current: Option<u32> = None;
    let mut i: usize = 0;
    while i < line.len()
        invariant
            i <= line.len(),
            scan(line@.subrange(0, i as int)) == (Scan { fields: fields@, current, bad: false }),
        decreases line.len() - i,
    {
        let b = line[i];
        proof {
            assert(line@.subrange(0, i + 1).drop_last() =~= line@.subrange(0, i as int));
        }
        if b == 32 || b == 9 || b == 10 || b == 11 || b == 12 || b == 13 {
            match current {
                Some(v) => {
                    fields.push(v);
                    current = None;
                },
                None => {},
            }
        } else if 48 <= b && b <= 57 {
            let base: u64 = match current {
                Some(v) => v as u64,
                None => 0,
            };
            let v: u64 = base * 10 + (b - 48) as u64;
            if v > u32::MAX as u64 {
                proof {
                    lemma_bad_stays(line@, i + 1);
                }
                return None;
            }
            current = Some(v as u32);
        } else {
            proof {
                lemma_bad_stays(line@, i + 1);
            }
            return None;
        }
        i = i + 1;
    }
    proof {
        assert(line@.subrange(0, line.len() as int) =~= line@);
    }
    match current {
        Some(v) => {
            fields.push(v);
        },
        None => {},
    }
    Some(fields)
}

/// One line of a score.
#[derive(Clone, Copy, Debug, PartialEq, Eq, Structural)]
pub struct ScoreLine {
    /// 0 stops the note, any other value starts it.
    pub status: u32,
    /// The note's frequency in Hz.
    pub freq: u32,
    /// Microseconds to wait after this line before the next one.
    pub delay: u32,
}

/// A malformed line, by its index.
#[derive(Clone, Copy, Debug, PartialEq, Eq, Structural)]
pub struct ParseError {
    /// Index of the first malformed line.
    pub line: usize,
}

/// The score read from `lines[i..]`: lines of three fields up to the first
/// blank line or the end; the index of the first malformed line (not
/// three fields, or unreadable) when one comes first.
pub open spec fn score_from(lines: Seq<Seq<u8>>, i: int) -> Result<Seq<ScoreLine>, int>
    decreases lines.len() - i,
{
    if i < 0 || i >= lines.len() {
        Ok(Seq::empty())
    } else {
        match message_fields(lines[i]) {
            None => Err(i),
            Some(f) => if f.len() == 0 {
                Ok(Seq::empty())
            } else if f.len() != 3 {
                Err(i)
            } else {
                match score_from(lines, i + 1) {
                    Ok(rest) => Ok(seq![ScoreLine { status: f[0], freq: f[1], delay: f[2] }] + rest),
                    Err(e) => Err(e),
                }
            },
        }
    }
}

/// `acc` followed by what `r` holds, or the error of `r`.
pub open spec fn prepend(acc: Seq<ScoreLine>, r: Result<Seq<ScoreLine>, int>) -> Result<Seq<ScoreLine>, int> {
    match r {
        Ok(rest) => Ok(acc + rest),
        Err(e) => Err(e),
    }
}

/// Reads a score from its lines: every line up to the first blank one (or
/// the end) must hold exactly three fields, else the first line that does
/// not is reported.
pub fn parse_score(lines: &Vec<Vec<u8>>) -> (r: Result<Vec<ScoreLine>, ParseError>)
    ensures
        ({
            let spec_lines = lines@.map_values(|l: Vec<u8>| l@);
            match r {
                Ok(v) => score_from(spec_lines, 0) == Ok::<Seq<ScoreLine>, int>(v@),
                Err(e) => score_from(spec_lines, 0) == Err::<Seq<ScoreLine>, int>(e.line as int),
            }
        }),
{
    let ghost spec_lines = lines@.map_values(|l: Vec<u8>| l@);
    let mut out: Vec<ScoreLine> = Vec::new();
    let mut i: usize = 0;
    while i < lines.len()
        invariant
            i <= lines.len(),
            spec_lines == lines@.map_values(|l: Vec<u8>| l@),
            score_from(spec_lines, 0) == prepend(out@, score_from(spec_lines, i as int)),
        decreases lines.len() - i,
    {
        assert(spec_lines[i as int] == lines[i as int]@);
        let parts = parse_message(lines[i].as_slice());
        match parts {
            None => {
                return Err(ParseError { line: i });
            },
            Some(f) => {
                if f.len() == 0 {
                    proof {
                        assert(out@ + Seq::<ScoreLine>::empty() =~= out@);
                    }
                    return Ok(out);
                }
                if f.len() != 3 {
                    return Err(ParseError { line: i });
                }
                let line = ScoreLine { status: f[0], freq: f[1], delay: f[2] };
                proof {
                    match score_from(spec_lines, i + 1) {
                        Ok(rest) => {
                            assert(out@ + (seq![line] + rest) =~= out@.push(line) + rest);
                        },
                        Err(e) => {},
                    }
                }
                out.push(line);
            },
        }
        i = i + 1;
    }
    proof {
        assert(out@ + Seq::<ScoreLine>::empty() =~= out@);
    }
    Ok(out)
}

/// The fields of a score line read from `f`.
pub open spec fn line_of(f: Seq<u32>) -> ScoreLine {
    ScoreLine { status: f[0], freq: f[1], delay: f[2] }
}

/// Reads a score from its lines, keeping what comes before a malformed
/// line: the lines of three fields up to the first blank line, the first
/// malformed line or the end, and the malformed line's index if there is
/// one. Each line read holds exactly the three fields of its source line.
pub fn parse_score_prefix(lines: &Vec<Vec<u8>>) -> (r: (Vec<ScoreLine>, Option<ParseError>))
    ensures
        ({
            let spec_lines = lines@.map_values(|l: Vec<u8>| l@);
            let (v, e) = r;
            &&& v@.len() <= spec_lines.len()
            &&& forall|k: int|
                0 <= k < v@.len() ==> (message_fields(#[trigger] spec_lines[k]) matches Some(f)
                    && f.len() == 3 && v@[k] == line_of(f))
            &&& match e {
                None => score_from(spec_lines, 0) == Ok::<Seq<ScoreLine>, int>(v@),
                Some(err) => err.line == v@.len() && score_from(spec_lines, 0) == Err::<
                    Seq<ScoreLine>,
                    int,
                >(err.line as int),
            }
        }),
{
    let ghost spec_lines = lines@.map_values(|l: Vec<u8>| l@);
    let mut out: Vec<ScoreLine> = Vec::new();
    let mut i: usize = 0;
    while i < lines.len()
        invariant
            i <= lines.len(),
            out@.len() == i,
            spec_lines == lines@.map_values(|l: Vec<u8>| l@),
            score_from(spec_lines, 0) == prepend(out@, score_from(spec_lines, i as int)),
            forall|k: int|
                0 <= k < i ==> (message_fields(#[trigger] spec_lines[k]) matches Some(f) && f.len()
                    == 3 && out@[k] == line_of(f)),
        decreases lines.len() - i,
    {
        assert(spec_lines[i as int] == lines[i as int]@);
        let parts = parse_message(lines[i].as_slice());
        match parts {
            None => {
                return (out, Some(ParseError { line: i }));
            },
            Some(f) => {
                if f.len() == 0 {
                    proof {
                        assert(out@ + Seq::<ScoreLine>::empty() =~= out@);
                    }
                    return (out, None);
                }
                if f.len() != 3 {
                    return (out, Some(ParseError { line: i }));
                }
                let line = ScoreLine { status: f[0], freq: f[1], delay: f[2] };
                proof {
                    match score_from(spec_lines, i + 1) {
                        Ok(rest) => {
                            assert(out@ + (seq![line] + rest) =~= out@.push(line) + rest);
                        },
                        Err(e) => {},
                    }
                }
                out.push(line);
            },
        }
        i = i + 1;
    }
    proof {
        assert(out@ + Seq::<ScoreLine>::empty() =~= out@);
    }
    (out, None)
}

/// What a score line does on `channel`: status 0 stops the note, any other
/// status starts it with the default duty cycle.
pub open spec fn line_action(l: ScoreLine, channel: usize) -> Action {
    if l.status == 0 {
        Action::NoteOff { channel, freq: l.freq }
    } else {
        Action::NoteOn { channel, freq: l.freq, duty: DEFAULT_DUTY }
    }
}

/// Event `k` of a score played on `channel`: the first line applies at once,
/// each later one after the delay of the line before it.
pub open spec fn score_event(
    lines: Seq<ScoreLine>,
    k: int,
    channel: usize,
    sample_rate: nat,
    buffer_size: nat,
) -> TimedEvent {
    TimedEvent {
        delay: if k == 0 {
            0
        } else {
            delay_of_us(lines[k - 1].delay as nat, sample_rate, buffer_size)
        },
        action: line_action(lines[k], channel),
    }
}

/// The timed events of a score played on `channel`, one per line: a line's
/// delay is the time it holds before the next line applies, counted in loop
/// iterations of `buffer_size` samples at `sample_rate`.
pub fn score_events(lines: &Vec<ScoreLine>, channel: usize, sample_rate: u32, buffer_size: usize) -> (r: Vec<TimedEvent>)
    requires
        buffer_size > 0,
    ensures
        r@.len() == lines@.len(),
        forall|k: int|
            0 <= k < lines@.len() ==> #[trigger] r@[k] == score_event(
                lines@,
                k,
                channel,
                sample_rate as nat,
                buffer_size as nat,
            ),
{
    let mut out: Vec<TimedEvent> = Vec::new();
    let mut i: usize = 0;
    while i < lines.len()
        invariant
            i <= lines.len(),
            buffer_size > 0,
            out@.len() == i,
            forall|k: int|
                0 <= k < i ==> #[trigger] out@[k] == score_event(
                    lines@,
                    k,
                    channel,
                    sample_rate as nat,
                    buffer_size as nat,
                ),
        decreases lines.len() - i,
    {
        let delay = if i == 0 {
            0
        } else {
            us_to_iterations(lines[i - 1].delay as u64, sample_rate, buffer_size)
        };
        let l = lines[i];
        let action = if l.status == 0 {
            Action::NoteOff { channel, freq: l.freq }
        } else {
            Action::NoteOn { channel, freq: l.freq, duty: DEFAULT_DUTY }
        };
        out.push(TimedEvent { delay, action });
        i = i + 1;
    }
    out
}

} // verus!
