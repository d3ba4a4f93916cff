//! The sound of one module.
//!
//! A bar is a full-scale square wave that changes with every sample, so that a
//! waveform display, which draws the least and the greatest sample of each
//! window, shows a filled block. A space is silence.

use crate::symbol::Bar;
use vstd::prelude::*;

verus! {

/// The sample at position `index` of a module's run: the greatest 16-bit
/// amplitude at the even positions of a bar, zero everywhere else.
pub open spec fn amplitude(bar: Bar, index: int) -> i16 {
    if bar.audible() && index % 2 == 0 {
        i16::MAX
    } else {
        0
    }
}

/// The run of samples that stands for `bar` at `sample_rate` samples per second.
pub open spec fn sample_run(bar: Bar, sample_rate: nat) -> Seq<i16> {
    Seq::new(bar.duration(sample_rate), |index: int| amplitude(bar, index))
}

/// Synthesizes the samples of one module. A wide module lasts `sample_rate`
/// samples, a thin one `sample_rate / 3`.
pub fn generate_samples(bar: &Bar, sample_rate: usize) -> (samples: Vec<i16>)
    ensures
        samples@ == sample_run(*bar, sample_rate as nat),
        samples@.len() == bar.duration(sample_rate as nat),
        bar.wide() ==> samples@.len() == sample_rate,
        !bar.wide() ==> samples@.len() == sample_rate / 3,
{
    let length = if bar.is_wide() {
        sample_rate
    } else {
        sample_rate / 3
    };
    let audible = bar.is_bar();
    let mut samples: Vec<i16> = Vec::new();
    let mut index: usize = 0;
    while index < length
        invariant
            index <= length,
            audible == bar.audible(),
            samples@ == Seq::new(index as nat, |k: int| amplitude(*bar, k)),
        decreases length - index,
    {
        let sample: i16 = if audible && index % 2 == 0 {
            i16::MAX
        } else {
            0
        };
        samples.push(sample);
        index += 1;
    }
    samples
}

} // verus!
