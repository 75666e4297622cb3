//! Recorded samples turned into bit buffers at the engine's sample rate.

use vstd::prelude::*;

verus! {

/// Decoded PCM samples, by sample width.
#[derive(Debug)]
pub enum BitDepth {
    /// Unsigned 8-bit samples.
    Eight(Vec<u8>),
    /// Signed 16-bit samples.
    Sixteen(Vec<i16>),
    /// Signed 24-bit samples.
    TwentyFour(Vec<i32>),
    /// Any other encoding.
    Other,
}

/// 8-bit samples above this level read as a high bit.
pub const EIGHT_BIT_THRESHOLD: u8 = 129;

/// 16-bit samples above this level read as a high bit.
pub const SIXTEEN_BIT_THRESHOLD: i16 = 50;

/// Every element of `s` repeated `factor` times in a row.
pub open spec fn repeat_each(s: Seq<bool>, factor: nat) -> Seq<bool> {
    Seq::new(s.len() * factor, |k: int| s[k / (factor as int)])
}

/// Thresholds samples to bits: 8-bit samples above `EIGHT_BIT_THRESHOLD`
/// and 16-bit samples above `SIXTEEN_BIT_THRESHOLD` are high. `None` for
/// any other sample width.
pub fn donwsample(data: BitDepth) -> (r: Option<Vec<bool>>)
    ensures
        match data {
            BitDepth::Eight(s) => r matches Some(v) && v@ == s@.map_values(
                |x: u8| x > EIGHT_BIT_THRESHOLD,
            ),
            BitDepth::Sixteen(s) => r matches Some(v) && v@ == s@.map_values(
                |x: i16| x > SIXTEEN_BIT_THRESHOLD,
            ),
            _ => r is None,
        },
{
    match data {
        BitDepth::Eight(samples) => {
            let mut out: Vec<bool> = Vec::new();
            let mut i: usize = 0;
            while i < samples.len()
                invariant
                    i <= samples.len(),
                    out@ == samples@.subrange(0, i as int).map_values(
                        |x: u8| x > EIGHT_BIT_THRESHOLD,
                    ),
                decreases samples.len() - i,
            {
                out.push(samples[i] > EIGHT_BIT_THRESHOLD);
                i = i + 1;
                assert(out@ =~= samples@.subrange(0, i as int).map_values(
                    |x: u8| x > EIGHT_BIT_THRESHOLD,
                ));
            }
            assert(samples@.subrange(0, samples.len() as int) =~= samples@);
            Some(out)
        },
        BitDepth::Sixteen(samples) => {
            let mut out: Vec<bool> = Vec::new();
            let mut i: usize = 0;
            while i < samples.len()
                invariant
                    i <= samples.len(),
                    out@ == samples@.subrange(0, i as int).map_values(
                        |x: i16| x > SIXTEEN_BIT_THRESHOLD,
                    ),
                decreases samples.len() - i,
            {
                out.push(samples[i] > SIXTEEN_BIT_THRESHOLD);
                i = i + 1;
                assert(out@ =~= samples@.subrange(0, i as int).map_values(
                    |x: i16| x > SIXTEEN_BIT_THRESHOLD,
                ));
            }
            assert(samples@.subrange(0, samples.len() as int) =~= samples@);
            Some(out)
        },
        _ => None,
    }
}

/// Raises the sample rate from `in_rate` to `out_rate` by repeating every
/// sample `out_rate / in_rate` times (truncated; no sample when `out_rate <
/// in_rate`).
pub fn resample(samples: Vec<bool>, in_rate: u32, out_rate: u32) -> (r: Vec<bool>)
    requires
        in_rate > 0,
    ensures
        r@ == repeat_each(samples@, (out_rate / in_rate) as nat),
{
    let factor: u32 = out_rate / in_rate;
    let ghost f = factor as int;
    let mut out_buffer: Vec<bool> = Vec::new();
    let mut i: usize = 0;
    assert(samples@.subrange(0, 0).len() * (factor as nat) == 0) by (nonlinear_arith)
        requires
            samples@.subrange(0, 0).len() == 0,
    ;
    assert(repeat_each(samples@.subrange(0, 0), factor as nat) =~= Seq::<bool>::empty());
    while i < samples.len()
        invariant
            i <= samples.len(),
            f == factor as int,
            out_buffer@ == repeat_each(samples@.subrange(0, i as int), factor as nat),
        decreases samples.len() - i,
    {
        let sample = samples[i];
        let mut j: u32 = 0;
        let ghost base = out_buffer@;
        while j < factor
            invariant
                j <= factor,
                f == factor as int,
                i < samples.len(),
                sample == samples@[i as int],
                base == repeat_each(samples@.subrange(0, i as int), factor as nat),
                out_buffer@ == base + Seq::new(j as nat, |k: int| samples@[i as int]),
            decreases factor - j,
        {
            let ghost prev = out_buffer@;
            out_buffer.push(sample);
            j = j + 1;
            assert(out_buffer@ == prev.push(samples@[i as int]));
            assert forall|k: int| 0 <= k < out_buffer@.len() implies #[trigger] out_buffer@[k] == (base
                + Seq::new(j as nat, |k: int| samples@[i as int]))[k] by {
                if k < prev.len() {
                    assert(prev[k] == (base + Seq::new((j - 1) as nat, |k: int| samples@[i as int]))[k]);
                }
            }
            assert(out_buffer@ =~= base + Seq::new(j as nat, |k: int| samples@[i as int]));
        }
        proof {
            let pre = samples@.subrange(0, i as int);
            let cur = samples@.subrange(0, i + 1);
            assert(i * f + f == (i + 1) * f) by (nonlinear_arith);
            assert forall|k: int| 0 <= k < (i + 1) * f implies #[trigger] out_buffer@[k] == cur[k / f] by {
                if k < i * f {
                    assert(k / f < i) by (nonlinear_arith)
                        requires
                            0 <= k < i * f,
                            f > 0,
                    ;
                } else {
                    assert(k / f == i) by (nonlinear_arith)
                        requires
                            i * f <= k < (i + 1) * f,
                            f > 0,
                    ;
                }
            }
            assert(out_buffer@ =~= repeat_each(cur, factor as nat));
        }
        i = i + 1;
    }
    assert(samples@.subrange(0, samples.len() as int) =~= samples@);
    out_buffer
}

} // verus!
