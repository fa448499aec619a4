use vstd::prelude::*;

verus! {

/// Frequencies are counted in steps of `1 / PITCH_PER_HZ` Hz, fine enough to
/// hold every pixel tone of every mode exactly.
pub const PITCH_PER_HZ: u64 = 255_000;

pub const NS_PER_MS: u64 = 1_000_000;

/// One tone of a transmission: a frequency held for a duration.
#[derive(Clone, Copy, PartialEq, Eq, Structural, Debug)]
pub struct Tone {
    /// Frequency, in steps of `1 / PITCH_PER_HZ` Hz; zero means silence.
    pub pitch: u64,
    /// Duration in nanoseconds.
    pub duration_ns: u64,
}

/// The tone of pitch `pitch` (in steps of `1 / PITCH_PER_HZ` Hz) lasting
/// `ns` nanoseconds.
pub open spec fn pitched(pitch: int, ns: int) -> Tone {
    Tone { pitch: pitch as u64, duration_ns: ns as u64 }
}

/// The tone of `hz` Hz lasting `ns` nanoseconds.
pub open spec fn tone(hz: int, ns: int) -> Tone {
    pitched(hz * PITCH_PER_HZ, ns)
}

/// Pitch of a channel level `v / 255` on the 1500..2300 Hz pixel scale:
/// `1500 + 800 * v / 255` Hz.
pub open spec fn level_pitch(v: u8) -> int {
    1500 * PITCH_PER_HZ + 800 * 1000 * v
}

/// Luminance `Y = 0.299 r + 0.587 g + 0.114 b` of normalised channels, scaled
/// by `255 * 1000`.
pub open spec fn luma(r: u8, g: u8, b: u8) -> int {
    299 * r + 587 * g + 114 * b
}

/// Red difference `Cr = r - Y`, scaled by `255 * 1000`.
pub open spec fn chroma_red(r: u8, g: u8, b: u8) -> int {
    1000 * r - luma(r, g, b)
}

/// Blue difference `Cb = b - Y`, scaled by `255 * 1000`.
pub open spec fn chroma_blue(r: u8, g: u8, b: u8) -> int {
    1000 * b - luma(r, g, b)
}

/// Pitch of a luminance `y / 255000`: `1500 + 800 * Y` Hz.
pub open spec fn luma_pitch(y: int) -> int {
    1500 * PITCH_PER_HZ + 800 * y
}

/// Pitch of a colour difference `c / 255000`: `1900 + 400 * C` Hz.
pub open spec fn chroma_pitch(c: int) -> int {
    1900 * PITCH_PER_HZ + 400 * c
}

/// Total duration of a tone sequence, in nanoseconds.
pub open spec fn total_ns(s: Seq<Tone>) -> int
    decreases s.len(),
{
    if s.len() == 0 {
        0
    } else {
        total_ns(s.drop_last()) + s.last().duration_ns
    }
}

pub proof fn lemma_total_ns_nonneg(s: Seq<Tone>)
    ensures
        total_ns(s) >= 0,
    decreases s.len(),
{
    if s.len() > 0 {
        lemma_total_ns_nonneg(s.drop_last());
    }
}

pub proof fn lemma_total_ns_concat(a: Seq<Tone>, b: Seq<Tone>)
    ensures
        total_ns(a + b) == total_ns(a) + total_ns(b),
    decreases b.len(),
{
    if b.len() == 0 {
        assert(a + b =~= a);
    } else {
        lemma_total_ns_concat(a, b.drop_last());
        assert((a + b).drop_last() =~= a + b.drop_last());
    }
}

/// A sequence of `n` tones that all last `ns` nanoseconds lasts `n * ns`.
pub proof fn lemma_total_ns_uniform(s: Seq<Tone>, ns: int)
    requires
        forall|i: int| 0 <= i < s.len() ==> #[trigger] s[i].duration_ns == ns,
    ensures
        total_ns(s) == s.len() * ns,
    decreases s.len(),
{
    if s.len() > 0 {
        lemma_total_ns_uniform(s.drop_last(), ns);
        assert(total_ns(s) == (s.len() - 1) * ns + ns);
        assert((s.len() - 1) * ns + ns == s.len() * ns) by (nonlinear_arith);
    }
}

/// The tone of `hz` Hz lasting `ns` nanoseconds.
pub fn fixed_tone(hz: u64, ns: u64) -> (t: Tone)
    requires
        hz <= u64::MAX / 255_000,
    ensures
        t == tone(hz as int, ns as int),
{
    let p: u64 = hz * 255_000;
    Tone { pitch: p, duration_ns: ns }
}

/// The pixel tone of channel level `v`, lasting `ns` nanoseconds.
pub fn level_tone(v: u8, ns: u64) -> (t: Tone)
    ensures
        t.pitch == level_pitch(v),
        t.duration_ns == ns,
{
    let p: u64 = 382_500_000 + 800_000 * (v as u64);
    Tone { pitch: p, duration_ns: ns }
}

/// `(Y, Cr, Cb)` of a pixel, each scaled by `255 * 1000`.
pub fn rgb_to_ycrcb(red: u8, green: u8, blue: u8) -> (r: (u32, i32, i32))
    ensures
        r.0 == luma(red, green, blue),
        r.1 == chroma_red(red, green, blue),
        r.2 == chroma_blue(red, green, blue),
{
    let y: u32 = 299 * (red as u32) + 587 * (green as u32) + 114 * (blue as u32);
    let cr: i32 = 1000 * (red as i32) - (y as i32);
    let cb: i32 = 1000 * (blue as i32) - (y as i32);
    (y, cr, cb)
}

/// The luminance tone of a pixel, lasting `ns` nanoseconds.
pub fn luma_tone(red: u8, green: u8, blue: u8, ns: u64) -> (t: Tone)
    ensures
        t.pitch == luma_pitch(luma(red, green, blue)),
        t.duration_ns == ns,
{
    let (y, _, _) = rgb_to_ycrcb(red, green, blue);
    let p: u64 = 382_500_000 + 800 * (y as u64);
    Tone { pitch: p, duration_ns: ns }
}

/// The tone of a colour difference `c / 255000` (with `|c| <= 255000`),
/// lasting `ns` nanoseconds.
pub fn chroma_tone(c: i32, ns: u64) -> (t: Tone)
    requires
        -255_000 <= c <= 255_000,
    ensures
        t.pitch == chroma_pitch(c as int),
        t.duration_ns == ns,
{
    let p: i64 = 484_500_000 + 400 * (c as i64);
    Tone { pitch: p as u64, duration_ns: ns }
}

} // verus!
