//! Charts, gauges and waveforms: which samples are drawn.

use vstd::prelude::*;

use crate::scalar::{ONE_BITS, Scalar, ZERO_BITS};

verus! {

/// How many samples a plot can draw.
pub const MAX_SAMPLES: usize = 32;

/// The largest number: where the search for the least sample starts.
pub const LARGEST_BITS: u32 = 0x7F7F_FFFF;

/// The smallest number: where the search for the greatest sample starts.
pub const SMALLEST_BITS: u32 = 0xFF7F_FFFF;

/// No target line: `-1.0`.
pub const NO_TARGET_BITS: u32 = 0xBF80_0000;

/// A number in `0..=1`.
pub open spec fn unit(x: Scalar) -> Scalar {
    x.clamped(Scalar { bits: ZERO_BITS }, Scalar { bits: ONE_BITS })
}

/// A number moved into `0..=1`: the level of a gauge, the pivot of a knob, the
/// progress of a clip.
pub fn clamp_unit(x: Scalar) -> (r: Scalar)
    ensures
        r == unit(x),
{
    x.clamp(Scalar { bits: ZERO_BITS }, Scalar { bits: ONE_BITS })
}

/// The samples that a chart shows: the most recent ones, or none where there
/// are too few for a line.
pub open spec fn recent(values: Seq<Scalar>) -> Option<Seq<Scalar>> {
    if values.len() < 2 {
        None
    } else if values.len() <= MAX_SAMPLES {
        Some(values)
    } else {
        Some(values.skip(values.len() - MAX_SAMPLES))
    }
}

/// The samples that a chart shows: a rolling window over a time series.
pub fn chart_window(values: &Vec<Scalar>) -> (r: Option<Vec<Scalar>>)
    ensures
        match r {
            Some(window) => recent(values@) == Some(window@),
            None => recent(values@) is None,
        },
{
    if values.len() < 2 {
        return None;
    }
    let start: usize = if values.len() <= MAX_SAMPLES {
        0
    } else {
        values.len() - MAX_SAMPLES
    };
    let mut out: Vec<Scalar> = Vec::new();
    let mut i: usize = start;
    while i < values.len()
        invariant
            start <= i <= values@.len(),
            out@ == values@.subrange(start as int, i as int),
        decreases values@.len() - i,
    {
        out.push(values[i]);
        assert(values@.subrange(start as int, i + 1) == values@.subrange(
            start as int,
            i as int,
        ).push(values@[i as int]));
        i += 1;
    }
    assert(values@.subrange(0, values@.len() as int) =~= values@);
    assert(values@.subrange(start as int, values@.len() as int) =~= values@.skip(start as int));
    Some(out)
}

/// The lesser of `start` and the samples.
pub open spec fn least_of(values: Seq<Scalar>, start: Scalar) -> Scalar
    decreases values.len(),
{
    if values.len() == 0 {
        start
    } else {
        least_of(values.drop_last(), start).lesser(values.last())
    }
}

/// The greater of two numbers; the other one where one is not a number.
pub open spec fn greater(a: Scalar, b: Scalar) -> Scalar {
    if a.nan() || a.less(b) {
        b
    } else {
        a
    }
}

/// The greater of `start` and the samples.
pub open spec fn greatest_of(values: Seq<Scalar>, start: Scalar) -> Scalar
    decreases values.len(),
{
    if values.len() == 0 {
        start
    } else {
        greater(greatest_of(values.drop_last(), start), values.last())
    }
}

/// The range of a chart.
#[derive(Clone, Copy, Debug, PartialEq, Eq, Structural)]
pub struct ChartRange {
    pub min: Scalar,
    pub max: Scalar,
}

/// The range of a chart: a fixed bound where there is one, else that of the
/// visible samples.
pub fn chart_range(window: &Vec<Scalar>, min: Option<Scalar>, max: Option<Scalar>) -> (r:
    ChartRange)
    ensures
        r.min == (match min {
            Some(fixed) => fixed,
            None => least_of(window@, Scalar { bits: LARGEST_BITS }),
        }),
        r.max == (match max {
            Some(fixed) => fixed,
            None => greatest_of(window@, Scalar { bits: SMALLEST_BITS }),
        }),
{
    let mut least = Scalar { bits: LARGEST_BITS };
    let mut greatest = Scalar { bits: SMALLEST_BITS };
    let mut i: usize = 0;
    assert(window@.take(0).len() == 0);
    while i < window.len()
        invariant
            i <= window@.len(),
            least == least_of(window@.take(i as int), Scalar { bits: LARGEST_BITS }),
            greatest == greatest_of(window@.take(i as int), Scalar { bits: SMALLEST_BITS }),
        decreases window@.len() - i,
    {
        assert(window@.take(i + 1).drop_last() == window@.take(i as int));
        assert(window@.take(i + 1).last() == window@[i as int]);
        let v: Scalar = window[i];
        least = least.min(v);
        greatest = if greatest.is_nan() || greatest.lt(v) {
            v
        } else {
            greatest
        };
        i += 1;
    }
    assert(window@.take(i as int) == window@);
    let low = match min {
        Some(fixed) => fixed,
        None => least,
    };
    let high = match max {
        Some(fixed) => fixed,
        None => greatest,
    };
    ChartRange { min: low, max: high }
}

/// The greatest sample lies nowhere below another one, and the least nowhere
/// above: an auto-fitted chart leaves no sample out.
pub proof fn range_holds_every_sample(values: Seq<Scalar>, i: int)
    requires
        0 <= i < values.len(),
        forall|k: int| 0 <= k < values.len() ==> !(#[trigger] values[k]).nan(),
    ensures
        least_of(values, Scalar { bits: LARGEST_BITS }).at_most(values[i]),
        values[i].at_most(greatest_of(values, Scalar { bits: SMALLEST_BITS })),
        !least_of(values, Scalar { bits: LARGEST_BITS }).nan(),
        !greatest_of(values, Scalar { bits: SMALLEST_BITS }).nan(),
    decreases values.len(),
{
    let rest = values.drop_last();
    assert forall|k: int| 0 <= k < rest.len() implies !(#[trigger] rest[k]).nan() by {
        assert(rest[k] == values[k]);
    }
    extremes_are_numbers(rest);
    if i < rest.len() {
        assert(rest[i] == values[i]);
        range_holds_every_sample(rest, i);
    }
    assert(values[values.len() - 1] == values.last());
}

proof fn extremes_are_numbers(values: Seq<Scalar>)
    requires
        forall|k: int| 0 <= k < values.len() ==> !(#[trigger] values[k]).nan(),
    ensures
        !least_of(values, Scalar { bits: LARGEST_BITS }).nan(),
        !greatest_of(values, Scalar { bits: SMALLEST_BITS }).nan(),
    decreases values.len(),
{
    if values.len() > 0 {
        let rest = values.drop_last();
        assert forall|k: int| 0 <= k < rest.len() implies !(#[trigger] rest[k]).nan() by {
            assert(rest[k] == values[k]);
        }
        extremes_are_numbers(rest);
        assert(values[values.len() - 1] == values.last());
    }
}

/// Samples as a plot takes them: the first of them, each in `0..=1`, and zeros
/// after the last.
pub open spec fn packed(samples: Seq<Scalar>) -> Seq<Scalar> {
    Seq::new(
        MAX_SAMPLES as nat,
        |i: int|
            if i < samples.len() {
                unit(samples[i])
            } else {
                Scalar { bits: ZERO_BITS }
            },
    )
}

/// Pack samples for a plot.
pub fn pack_samples(samples: &Vec<Scalar>) -> (r: Vec<Scalar>)
    ensures
        r@ == packed(samples@),
{
    let mut out: Vec<Scalar> = Vec::new();
    let mut i: usize = 0;
    while i < MAX_SAMPLES
        invariant
            i <= MAX_SAMPLES,
            out@ == packed(samples@).take(i as int),
        decreases MAX_SAMPLES - i,
    {
        let v = if i < samples.len() {
            clamp_unit(samples[i])
        } else {
            Scalar { bits: ZERO_BITS }
        };
        out.push(v);
        assert(packed(samples@).take(i + 1) == packed(samples@).take(i as int).push(
            packed(samples@)[i as int],
        ));
        i += 1;
    }
    assert(packed(samples@).take(i as int) == packed(samples@));
    out
}

/// A waveform as a plot takes it.
pub struct WavePlot {
    /// How many of the samples are drawn.
    pub count: usize,
    pub samples: Vec<Scalar>,
    pub progress: Scalar,
}

/// Pack amplitudes for a waveform: the first of them, or nothing where there are
/// too few to draw.
pub fn wave_plot(amps: &Vec<Scalar>, progress: Scalar) -> (r: Option<WavePlot>)
    ensures
        match r {
            Some(plot) => {
                &&& amps@.len() >= 2
                &&& plot.count == (if amps@.len() <= MAX_SAMPLES {
                    amps@.len()
                } else {
                    MAX_SAMPLES as nat
                })
                &&& plot.samples@ == packed(amps@)
                &&& plot.progress == unit(progress)
            },
            None => amps@.len() < 2,
        },
{
    if amps.len() < 2 {
        return None;
    }
    let count: usize = if amps.len() <= MAX_SAMPLES {
        amps.len()
    } else {
        MAX_SAMPLES
    };
    Some(WavePlot { count, samples: pack_samples(amps), progress: clamp_unit(progress) })
}

/// Where a chart's target line goes: its place in the range where that is
/// inside it, else nowhere.
pub fn target_line(place: Option<Scalar>) -> (r: Scalar)
    ensures
        r == (match place {
            Some(x) if Scalar { bits: ZERO_BITS }.at_most(x) && x.at_most(
                Scalar { bits: ONE_BITS },
            ) => x,
            _ => Scalar { bits: NO_TARGET_BITS },
        }),
{
    match place {
        Some(x) => {
            let zero = Scalar { bits: ZERO_BITS };
            if zero.le(x) && x.le(Scalar { bits: ONE_BITS }) {
                x
            } else {
                Scalar { bits: NO_TARGET_BITS }
            }
        },
        None => Scalar { bits: NO_TARGET_BITS },
    }
}

} // verus!
