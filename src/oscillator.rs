use vstd::prelude::*;
use vstd::arithmetic::div_mod::{
    lemma_add_mod_noop, lemma_fundamental_div_mod, lemma_fundamental_div_mod_converse,
    lemma_mod_pos_bound, lemma_mul_mod_noop,
};
use crate::tone::{Tone, PITCH_PER_HZ, total_ns, lemma_total_ns_concat};

verus! {

pub const NS_PER_S: u64 = 1_000_000_000;

/// The length of one full turn of phase at `sample_rate`: a tone of pitch
/// `p` advances the phase by `p` per sample, that is by `2 pi f / sample_rate`
/// radians.
pub open spec fn cycle_of(sample_rate: u32) -> int {
    sample_rate * PITCH_PER_HZ
}

/// A phase-continuous single-tone generator that turns tones into runs of
/// samples, carrying the phase and the fractional sample count from one tone
/// to the next.
pub struct Oscillator {
    pub sample_rate: u32,
    /// Phase, in steps of `1 / cycle_of(sample_rate)` of a turn.
    pub phase: u64,
    /// Fraction of a sample not yet written, in steps of `1 / NS_PER_S`.
    pub frac: u64,
}

/// A run of samples at one frequency: sample `i` (for `i < count`) sits at
/// phase `(start_phase + i * step) % cycle`, in steps of `1 / cycle` of a
/// turn. A `step` of zero is silence.
#[derive(Clone, Copy, PartialEq, Eq, Structural, Debug)]
pub struct Segment {
    pub count: u128,
    pub start_phase: u64,
    pub step: u64,
    pub cycle: u64,
}

impl Segment {
    pub open spec fn wf(&self) -> bool {
        0 < self.cycle < 0x4_0000_0000_0000 && self.start_phase < self.cycle
    }

    /// Phase at which the run ends: that of the sample after its last one.
    pub open spec fn end_phase(&self) -> int {
        (self.start_phase + self.count * self.step) % (self.cycle as int)
    }

    /// The phase of sample `i` of the run.
    pub fn phase_at(&self, i: u128) -> (r: u64)
        requires
            self.wf(),
        ensures
            r == (self.start_phase + i * self.step) % (self.cycle as int),
    {
        advance(self.start_phase, i, self.step, self.cycle)
    }
}

/// `(phase + n * step) % cycle`, computed without overflow.
fn advance(phase: u64, n: u128, step: u64, cycle: u64) -> (r: u64)
    requires
        0 < cycle < 0x4_0000_0000_0000,
    ensures
        r == (phase + n * step) % (cycle as int),
{
    let c = cycle as u128;
    let a: u128 = n % c;
    let b: u128 = (step as u128) % c;
    proof {
        assert(a * b < 0x4_0000_0000_0000 * 0x4_0000_0000_0000) by (nonlinear_arith)
            requires
                a < 0x4_0000_0000_0000,
                b < 0x4_0000_0000_0000,
        ;
    }
    let m: u128 = (a * b) % c;
    let r: u128 = ((phase as u128) % c + m) % c;
    proof {
        let ci = c as int;
        lemma_mul_mod_noop(n as int, step as int, ci);
        lemma_add_mod_noop(phase as int, n * step, ci);
    }
    r as u64
}

/// The sum of the sample counts of a sequence of runs.
pub open spec fn count_total(s: Seq<Segment>) -> int
    decreases s.len(),
{
    if s.len() == 0 {
        0
    } else {
        count_total(s.drop_last()) + s.last().count
    }
}

impl Oscillator {
    pub open spec fn wf(&self) -> bool {
        self.sample_rate > 0 && self.phase < cycle_of(self.sample_rate) && self.frac < NS_PER_S
    }

    /// A fresh oscillator: phase zero, no fractional sample carried.
    pub fn new(sample_rate: u32) -> (r: Oscillator)
        requires
            sample_rate > 0,
        ensures
            r.wf(),
            r.sample_rate == sample_rate,
            r.phase == 0,
            r.frac == 0,
    {
        Oscillator { sample_rate, phase: 0, frac: 0 }
    }

    /// Schedules one tone: the run holds `floor(duration * sample_rate +
    /// carried fraction)` samples, starts at the current phase, and the phase
    /// and the fraction left over carry on to the next tone.
    pub fn emit_tone(&mut self, t: Tone) -> (seg: Segment)
        requires
            old(self).wf(),
        ensures
            final(self).wf(),
            final(self).sample_rate == old(self).sample_rate,
            seg.wf(),
            seg.count == (old(self).frac + t.duration_ns * old(self).sample_rate) / (
            NS_PER_S as int),
            final(self).frac == (old(self).frac + t.duration_ns * old(self).sample_rate) % (
            NS_PER_S as int),
            seg.start_phase == old(self).phase,
            seg.step == t.pitch,
            seg.cycle == cycle_of(old(self).sample_rate),
            final(self).phase == seg.end_phase(),
    {
        proof {
            assert(t.duration_ns * self.sample_rate <= 0xffff_ffff_ffff_ffff * 0xffff_ffff)
                by (nonlinear_arith)
                requires
                    t.duration_ns <= 0xffff_ffff_ffff_ffff,
                    self.sample_rate <= 0xffff_ffff,
            ;
            assert(self.sample_rate * PITCH_PER_HZ <= 0xffff_ffff * 255_000) by (nonlinear_arith)
                requires
                    self.sample_rate <= 0xffff_ffff,
            ;
        }
        let total: u128 = (t.duration_ns as u128) * (self.sample_rate as u128) + (self.frac as u128);
        let count: u128 = total / (NS_PER_S as u128);
        let frac: u64 = (total % (NS_PER_S as u128)) as u64;
        let cycle: u64 = (self.sample_rate as u64) * PITCH_PER_HZ;
        let seg = Segment { count, start_phase: self.phase, step: t.pitch, cycle };
        self.phase = advance(self.phase, count, t.pitch, cycle);
        self.frac = frac;
        seg
    }

    /// Schedules a sequence of tones in order. The runs follow one another
    /// without a phase jump, and over every prefix the number of samples is
    /// the exact duration so far times the sample rate, plus the fraction
    /// carried in, rounded down: no drift accumulates.
    pub fn emit_tones(&mut self, tones: &Vec<Tone>) -> (r: Vec<Segment>)
        requires
            old(self).wf(),
        ensures
            final(self).wf(),
            final(self).sample_rate == old(self).sample_rate,
            r@.len() == tones@.len(),
            forall|k: int|
                0 <= k <= tones@.len() ==> #[trigger] count_total(r@.take(k)) == (old(self).frac
                    + total_ns(tones@.take(k)) * old(self).sample_rate) / (NS_PER_S as int),
            final(self).frac == (old(self).frac + total_ns(tones@) * old(self).sample_rate) % (
            NS_PER_S as int),
            forall|i: int|
                0 <= i < r@.len() ==> (#[trigger] r@[i]).wf() && r@[i].step == tones@[i].pitch
                    && r@[i].cycle == cycle_of(old(self).sample_rate),
            r@.len() > 0 ==> r@[0].start_phase == old(self).phase,
            forall|i: int|
                0 <= i < r@.len() - 1 ==> #[trigger] r@[i + 1].start_phase == r@[i].end_phase(),
            r@.len() > 0 ==> final(self).phase == r@.last().end_phase(),
            r@.len() == 0 ==> final(self).phase == old(self).phase,
    {
        let ghost f0 = self.frac as int;
        let ghost sr = self.sample_rate as int;
        let mut r: Vec<Segment> = Vec::new();
        let mut i: usize = 0;
        while i < tones.len()
            invariant
                self.wf(),
                self.sample_rate == sr,
                i <= tones@.len(),
                r@.len() == i,
                forall|k: int|
                    0 <= k <= i ==> #[trigger] count_total(r@.take(k)) == (f0 + total_ns(
                        tones@.take(k),
                    ) * sr) / (NS_PER_S as int),
                self.frac == (f0 + total_ns(tones@.take(i as int)) * sr) % (NS_PER_S as int),
                forall|j: int|
                    0 <= j < i ==> (#[trigger] r@[j]).wf() && r@[j].step == tones@[j].pitch
                        && r@[j].cycle == cycle_of(sr as u32),
                i > 0 ==> r@[0].start_phase == old(self).phase,
                forall|j: int| 0 <= j < i - 1 ==> #[trigger] r@[j + 1].start_phase == r@[j].end_phase(),
                i > 0 ==> self.phase == r@.last().end_phase(),
                i == 0 ==> self.phase == old(self).phase,
            decreases tones@.len() - i,
        {
            let ghost prev_frac = self.frac as int;
            let ghost prev_r = r@;
            let t = tones[i];
            let seg = self.emit_tone(t);
            r.push(seg);
            proof {
                let k = i as int;
                let d = t.duration_ns as int;
                let tk = total_ns(tones@.take(k));
                assert(tones@.take(k + 1) =~= tones@.take(k) + seq![t]);
                lemma_total_ns_concat(tones@.take(k), seq![t]);
                assert(total_ns(seq![t]) == d) by {
                    assert(seq![t].drop_last() =~= Seq::<Tone>::empty());
                    assert(total_ns(seq![t].drop_last()) == 0);
                    assert(seq![t].last() == t);
                }
                assert(r@.take(k + 1) =~= r@);
                assert(r@.take(k + 1).drop_last() =~= prev_r.take(k));
                assert(r@.take(k) =~= prev_r.take(k));
                let n = NS_PER_S as int;
                let a = f0 + tk * sr;
                lemma_fundamental_div_mod(a, n);
                let q = a / n;
                let b = prev_frac + d * sr;
                lemma_fundamental_div_mod(b, n);
                assert((tk + d) * sr == tk * sr + d * sr) by (nonlinear_arith);
                assert(f0 + (tk + d) * sr == (q + b / n) * n + b % n) by (nonlinear_arith)
                    requires
                        a == q * n + prev_frac,
                        a == f0 + tk * sr,
                        b == n * (b / n) + b % n,
                        b == prev_frac + d * sr,
                        (tk + d) * sr == tk * sr + d * sr,
                ;
                lemma_mod_pos_bound(b, n);
                lemma_fundamental_div_mod_converse(f0 + (tk + d) * sr, n, q + b / n, b % n);
                assert(count_total(r@.take(k + 1)) == count_total(prev_r.take(k)) + seg.count);
                assert forall|kk: int| 0 <= kk <= i + 1 implies #[trigger] count_total(r@.take(kk))
                    == (f0 + total_ns(tones@.take(kk)) * sr) / n by {
                    if kk <= k {
                        assert(r@.take(kk) =~= prev_r.take(kk));
                    }
                }
            }
            i = i + 1;
        }
        assert(tones@.take(i as int) =~= tones@);
        r
    }
}

/// A run that starts where the previous one ends starts exactly one phase
/// step (`2 pi f / sample_rate`, at the previous run's frequency) past the
/// previous run's last sample: no phase jump at the tone boundary.
pub proof fn lemma_phase_continuity(a: Segment, b: Segment)
    requires
        a.wf(),
        a.count > 0,
        b.start_phase == a.end_phase(),
    ensures
        b.start_phase == ((a.start_phase + (a.count - 1) * a.step) % (a.cycle as int) + a.step) % (
        a.cycle as int),
{
    let c = a.cycle as int;
    let last = a.start_phase + (a.count - 1) * a.step;
    assert(last + a.step == a.start_phase + a.count * a.step) by (nonlinear_arith)
        requires
            last == a.start_phase + (a.count - 1) * a.step,
    ;
    lemma_add_mod_noop(last, a.step as int, c);
    vstd::arithmetic::div_mod::lemma_add_mod_noop_right(last % c, a.step as int, c);
}

/// Over any sequence of tones, a fresh oscillator writes
/// `floor(total duration * sample_rate)` samples: within one sample of the
/// ideal count, however many tones the duration is split into.
pub proof fn lemma_no_drift(sample_rate: u32, tones: Seq<Tone>, segs: Seq<Segment>)
    requires
        sample_rate > 0,
        segs.len() == tones.len(),
        count_total(segs) == (total_ns(tones) * sample_rate) / (NS_PER_S as int),
    ensures
        count_total(segs) * NS_PER_S <= total_ns(tones) * sample_rate,
        total_ns(tones) * sample_rate < (count_total(segs) + 1) * NS_PER_S,
{
    crate::tone::lemma_total_ns_nonneg(tones);
    assert(total_ns(tones) * sample_rate >= 0) by (nonlinear_arith)
        requires
            total_ns(tones) >= 0,
            sample_rate > 0,
    ;
    lemma_fundamental_div_mod(total_ns(tones) * sample_rate, NS_PER_S as int);
    lemma_mod_pos_bound(total_ns(tones) * sample_rate, NS_PER_S as int);
}

} // verus!
