use vstd::prelude::*;
use crate::mode::SSTVMode;
use crate::oscillator::{Oscillator, Segment, NS_PER_S, count_total, cycle_of};
use crate::raster::Raster;
use crate::tone::total_ns;
use crate::scan::{encode, fits_mode, transmission, transmission_ns, lemma_transmission_ns};

verus! {

/// Schedules the whole transmission of `image` in `mode` at `sample_rate`
/// samples per second: one run of samples per tone, in order, from a fresh
/// oscillator. The runs join without a phase jump; the runs of the first `k`
/// tones hold `floor(duration of those tones * sample_rate)` samples, so the
/// whole holds exactly `floor(transmission_ns(mode, calibration) *
/// sample_rate / 10^9)`.
pub fn schedule(mode: SSTVMode, image: &Raster, sample_rate: u32, calibration: bool) -> (r: Vec<
    Segment,
>)
    requires
        fits_mode(mode, image),
        sample_rate > 0,
    ensures
        r@.len() == transmission(mode, *image, calibration).len(),
        count_total(r@) == transmission_ns(mode, calibration) * sample_rate / (NS_PER_S as int),
        forall|k: int|
            0 <= k <= r@.len() ==> #[trigger] count_total(r@.take(k)) == total_ns(
                transmission(mode, *image, calibration).take(k),
            ) * sample_rate / (NS_PER_S as int),
        forall|i: int|
            0 <= i < r@.len() ==> (#[trigger] r@[i]).wf() && r@[i].step == transmission(
                mode,
                *image,
                calibration,
            )[i].pitch && r@[i].cycle == cycle_of(sample_rate),
        r@.len() > 0 ==> r@[0].start_phase == 0,
        forall|i: int|
            0 <= i < r@.len() - 1 ==> #[trigger] r@[i + 1].start_phase == r@[i].end_phase(),
{
    let tones = encode(mode, image, calibration);
    let mut osc = Oscillator::new(sample_rate);
    let segs = osc.emit_tones(&tones);
    proof {
        lemma_transmission_ns(mode, *image, calibration);
        assert(tones@.take(tones@.len() as int) =~= tones@);
        assert(segs@.take(segs@.len() as int) =~= segs@);
    }
    segs
}

} // verus!
