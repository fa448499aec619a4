use vstd::prelude::*;
use crate::mode::{Family, SSTVMode};
use crate::raster::Raster;
use crate::vis::{
    header_tones, write_vis, calibration_tones, vis_tones, bit_tone, bit, vis_parity,
};
use crate::tone::{
    Tone, tone, pitched, total_ns, lemma_total_ns_concat, lemma_total_ns_uniform, level_pitch, luma, luma_pitch, chroma_red, chroma_blue, chroma_pitch,
    NS_PER_MS, fixed_tone, level_tone, luma_tone, chroma_tone, rgb_to_ycrcb,
};

verus! {

/// One tone per column of row `y`, each sounding channel `c` of its pixel on
/// the 1500..2300 Hz scale for `ns` nanoseconds.
pub open spec fn channel_scan(img: Raster, y: int, c: int, ns: int) -> Seq<Tone> {
    Seq::new(img.width as nat, |x: int| pitched(level_pitch(img.channel(x, y, c)), ns))
}

/// One luminance tone per column of row `y`, `ns` nanoseconds each.
pub open spec fn luma_scan(img: Raster, y: int, ns: int) -> Seq<Tone> {
    Seq::new(
        img.width as nat,
        |x: int|
            pitched(
                luma_pitch(luma(img.channel(x, y, 0), img.channel(x, y, 1), img.channel(x, y, 2))),
                ns,
            ),
    )
}

/// One colour-difference tone per column of row `y` (`Cb` when `blue`, else
/// `Cr`), `ns` nanoseconds each.
pub open spec fn chroma_scan(img: Raster, y: int, blue: bool, ns: int) -> Seq<Tone> {
    Seq::new(
        img.width as nat,
        |x: int|
            {
                let (r, g, b) = (img.channel(x, y, 0), img.channel(x, y, 1), img.channel(x, y, 2));
                pitched(
                    chroma_pitch(
                        if blue {
                            chroma_blue(r, g, b)
                        } else {
                            chroma_red(r, g, b)
                        },
                    ),
                    ns,
                )
            },
    )
}

/// A Martin scanline: sync, separator, then green, blue and red scans each
/// followed by a separator.
pub open spec fn martin_line(img: Raster, y: int, pixel_ns: int) -> Seq<Tone> {
    let sep = tone(1500, 572_000);
    seq![tone(1200, 4_862_000), sep] + channel_scan(img, y, 1, pixel_ns) + seq![sep]
        + channel_scan(img, y, 2, pixel_ns) + seq![sep] + channel_scan(img, y, 0, pixel_ns) + seq![
        sep,
    ]
}

/// A Scottie scanline: separator, green, separator, blue, sync, separator,
/// red.
pub open spec fn scottie_line(img: Raster, y: int, pixel_ns: int) -> Seq<Tone> {
    let sep = tone(1500, 1_500_000);
    seq![sep] + channel_scan(img, y, 1, pixel_ns) + seq![sep] + channel_scan(img, y, 2, pixel_ns)
        + seq![tone(1200, 9_000_000), sep] + channel_scan(img, y, 0, pixel_ns)
}

/// A Robot 36 scanline: sync, separator, luminance, then a chrominance sync
/// of 1500 Hz before `Cr` on even rows and of 2300 Hz before `Cb` on odd rows.
pub open spec fn robot36_line(img: Raster, y: int) -> Seq<Tone> {
    let w = img.width as int;
    let even = y % 2 == 0;
    seq![tone(1200, 9_000_000), tone(1500, 3_000_000)] + luma_scan(img, y, 88_000_000int / w) + seq![
        tone(if even { 1500 } else { 2300 }, 4_500_000),
        tone(1500, 1_500_000),
    ] + chroma_scan(img, y, !even, 44_000_000int / w)
}

/// A Robot 72 scanline: sync, separator, luminance, then `Cr` and `Cb` each
/// behind its own chrominance sync and porch.
pub open spec fn robot72_line(img: Raster, y: int) -> Seq<Tone> {
    let w = img.width as int;
    seq![tone(1200, 8_500_000), tone(1500, 3_000_000)] + luma_scan(img, y, 138_000_000int / w) + seq![
        tone(1500, 4_750_000),
        tone(1900, 1_500_000),
    ] + chroma_scan(img, y, false, 69_000_000int / w) + seq![
        tone(2300, 4_750_000),
        tone(1900, 1_500_000),
    ] + chroma_scan(img, y, true, 69_000_000int / w)
}

/// The tones of row `y` in `mode`.
pub open spec fn line_tones(mode: SSTVMode, img: Raster, y: int) -> Seq<Tone> {
    let pixel_ns = mode.spec_color_scanline_ns() as int / (img.width as int);
    match mode.spec_family() {
        Family::Martin => martin_line(img, y, pixel_ns),
        Family::Scottie => scottie_line(img, y, pixel_ns),
        Family::Robot36 => robot36_line(img, y),
        Family::Robot72 => robot72_line(img, y),
    }
}

/// The tones of the first `n` rows, top to bottom.
pub open spec fn scan_tones(mode: SSTVMode, img: Raster, n: nat) -> Seq<Tone>
    decreases n,
{
    if n == 0 {
        Seq::empty()
    } else {
        scan_tones(mode, img, (n - 1) as nat) + line_tones(mode, img, n - 1)
    }
}

/// Whether `img` has the size that `mode` transmits.
pub open spec fn fits_mode(mode: SSTVMode, img: &Raster) -> bool {
    img.wf() && (img.width, img.height) == mode.spec_resolution()
}

fn push_channel_scan(out: &mut Vec<Tone>, img: &Raster, y: u32, c: u8, ns: u64)
    requires
        img.wf(),
        y < img.height,
        c < 3,
    ensures
        final(out)@ == old(out)@ + channel_scan(*img, y as int, c as int, ns as int),
{
    let ghost start = out@;
    let mut x: u32 = 0;
    while x < img.width
        invariant
            img.wf(),
            y < img.height,
            c < 3,
            x <= img.width,
            out@ == start + Seq::new(
                x as nat,
                |i: int| pitched(level_pitch(img.channel(i, y as int, c as int)), ns as int),
            ),
        decreases img.width - x,
    {
        let (r, g, b) = img.pixel(x, y);
        let v = if c == 0 {
            r
        } else if c == 1 {
            g
        } else {
            b
        };
        out.push(level_tone(v, ns));
        x = x + 1;
        assert(out@ =~= start + Seq::new(
            x as nat,
            |i: int| pitched(level_pitch(img.channel(i, y as int, c as int)), ns as int),
        ));
    }
    assert(out@ =~= start + channel_scan(*img, y as int, c as int, ns as int));
}

fn push_luma_scan(out: &mut Vec<Tone>, img: &Raster, y: u32, ns: u64)
    requires
        img.wf(),
        y < img.height,
    ensures
        final(out)@ == old(out)@ + luma_scan(*img, y as int, ns as int),
{
    let ghost start = out@;
    let ghost full = luma_scan(*img, y as int, ns as int);
    let mut x: u32 = 0;
    while x < img.width
        invariant
            img.wf(),
            y < img.height,
            x <= img.width,
            full == luma_scan(*img, y as int, ns as int),
            out@ == start + full.subrange(0, x as int),
        decreases img.width - x,
    {
        let (r, g, b) = img.pixel(x, y);
        out.push(luma_tone(r, g, b, ns));
        x = x + 1;
        assert(out@ =~= start + full.subrange(0, x as int));
    }
    assert(full.subrange(0, x as int) =~= full);
}

fn push_chroma_scan(out: &mut Vec<Tone>, img: &Raster, y: u32, blue: bool, ns: u64)
    requires
        img.wf(),
        y < img.height,
    ensures
        final(out)@ == old(out)@ + chroma_scan(*img, y as int, blue, ns as int),
{
    let ghost start = out@;
    let ghost full = chroma_scan(*img, y as int, blue, ns as int);
    let mut x: u32 = 0;
    while x < img.width
        invariant
            img.wf(),
            y < img.height,
            x <= img.width,
            full == chroma_scan(*img, y as int, blue, ns as int),
            out@ == start + full.subrange(0, x as int),
        decreases img.width - x,
    {
        let (r, g, b) = img.pixel(x, y);
        let (_, cr, cb) = rgb_to_ycrcb(r, g, b);
        out.push(chroma_tone(if blue { cb } else { cr }, ns));
        x = x + 1;
        assert(out@ =~= start + full.subrange(0, x as int));
    }
    assert(full.subrange(0, x as int) =~= full);
}

/// The whole transmission of `img` in `mode`: the optional calibration
/// prelude, the VIS header, then every row top to bottom.
pub open spec fn transmission(mode: SSTVMode, img: Raster, calibration: bool) -> Seq<Tone> {
    header_tones(mode.spec_vis_code(), calibration) + scan_tones(mode, img, img.height as nat)
}

fn push_martin_line(out: &mut Vec<Tone>, img: &Raster, y: u32, pixel_ns: u64)
    requires
        img.wf(),
        y < img.height,
    ensures
        final(out)@ == old(out)@ + martin_line(*img, y as int, pixel_ns as int),
{
    let ghost start = out@;
    out.push(fixed_tone(1200, 4_862_000));
    out.push(fixed_tone(1500, 572_000));
    push_channel_scan(out, img, y, 1, pixel_ns);
    out.push(fixed_tone(1500, 572_000));
    push_channel_scan(out, img, y, 2, pixel_ns);
    out.push(fixed_tone(1500, 572_000));
    push_channel_scan(out, img, y, 0, pixel_ns);
    out.push(fixed_tone(1500, 572_000));
    assert(out@ =~= start + martin_line(*img, y as int, pixel_ns as int));
}

fn push_scottie_line(out: &mut Vec<Tone>, img: &Raster, y: u32, pixel_ns: u64)
    requires
        img.wf(),
        y < img.height,
    ensures
        final(out)@ == old(out)@ + scottie_line(*img, y as int, pixel_ns as int),
{
    let ghost start = out@;
    out.push(fixed_tone(1500, 1_500_000));
    push_channel_scan(out, img, y, 1, pixel_ns);
    out.push(fixed_tone(1500, 1_500_000));
    push_channel_scan(out, img, y, 2, pixel_ns);
    out.push(fixed_tone(1200, 9_000_000));
    out.push(fixed_tone(1500, 1_500_000));
    push_channel_scan(out, img, y, 0, pixel_ns);
    assert(out@ =~= start + scottie_line(*img, y as int, pixel_ns as int));
}

fn push_robot36_line(out: &mut Vec<Tone>, img: &Raster, y: u32)
    requires
        img.wf(),
        y < img.height,
        img.width > 0,
    ensures
        final(out)@ == old(out)@ + robot36_line(*img, y as int),
{
    let ghost start = out@;
    let w = img.width as u64;
    let even = y % 2 == 0;
    out.push(fixed_tone(1200, 9_000_000));
    out.push(fixed_tone(1500, 3_000_000));
    push_luma_scan(out, img, y, 88_000_000 / w);
    out.push(fixed_tone(if even { 1500 } else { 2300 }, 4_500_000));
    out.push(fixed_tone(1500, 1_500_000));
    push_chroma_scan(out, img, y, !even, 44_000_000 / w);
    assert(out@ =~= start + robot36_line(*img, y as int));
}

fn push_robot72_line(out: &mut Vec<Tone>, img: &Raster, y: u32)
    requires
        img.wf(),
        y < img.height,
        img.width > 0,
    ensures
        final(out)@ == old(out)@ + robot72_line(*img, y as int),
{
    let ghost start = out@;
    let w = img.width as u64;
    out.push(fixed_tone(1200, 8_500_000));
    out.push(fixed_tone(1500, 3_000_000));
    push_luma_scan(out, img, y, 138_000_000 / w);
    out.push(fixed_tone(1500, 4_750_000));
    out.push(fixed_tone(1900, 1_500_000));
    push_chroma_scan(out, img, y, false, 69_000_000 / w);
    out.push(fixed_tone(2300, 4_750_000));
    out.push(fixed_tone(1900, 1_500_000));
    push_chroma_scan(out, img, y, true, 69_000_000 / w);
    assert(out@ =~= start + robot72_line(*img, y as int));
}

impl SSTVMode {
    /// Appends the tones of every row of `image`, top to bottom, following
    /// the mode's scanline protocol.
    pub fn write_scanlines(&self, out: &mut Vec<Tone>, image: &Raster)
        requires
            fits_mode(*self, image),
        ensures
            final(out)@ == old(out)@ + scan_tones(*self, *image, image.height as nat),
    {
        let ghost start = out@;
        let (width, height) = self.resolution();
        let pixel_ns = self.color_scanline_ns() / (width as u64);
        let family = self.family();
        let mut y: u32 = 0;
        while y < height
            invariant
                fits_mode(*self, image),
                (width, height) == self.spec_resolution(),
                pixel_ns == self.spec_color_scanline_ns() as int / (width as int),
                family == self.spec_family(),
                y <= height,
                out@ == start + scan_tones(*self, *image, y as nat),
            decreases height - y,
        {
            let ghost before = out@;
            match family {
                Family::Martin => push_martin_line(out, image, y, pixel_ns),
                Family::Scottie => push_scottie_line(out, image, y, pixel_ns),
                Family::Robot36 => push_robot36_line(out, image, y),
                Family::Robot72 => push_robot72_line(out, image, y),
            }
            assert(out@ == before + line_tones(*self, *image, y as int));
            y = y + 1;
            assert(out@ =~= start + scan_tones(*self, *image, y as nat));
        }
    }
}

/// Every tone that sends `image` in `mode`: the calibration prelude when
/// asked for, the VIS header, then the scanlines.
pub fn encode(mode: SSTVMode, image: &Raster, calibration: bool) -> (r: Vec<Tone>)
    requires
        fits_mode(mode, image),
    ensures
        r@ == transmission(mode, *image, calibration),
{
    let mut out: Vec<Tone> = Vec::new();
    write_vis(&mut out, mode.vis_code(), calibration);
    mode.write_scanlines(&mut out, image);
    assert(out@ =~= transmission(mode, *image, calibration));
    out
}

/// Duration of one scanline of `mode`, in nanoseconds.
pub open spec fn line_ns(mode: SSTVMode) -> int {
    let scan = mode.spec_color_scanline_ns() as int;
    match mode.spec_family() {
        Family::Martin => 4_862_000 + 4 * 572_000 + 3 * scan,
        Family::Scottie => 9_000_000 + 3 * 1_500_000 + 3 * scan,
        Family::Robot36 => 150_000_000,
        Family::Robot72 => 300_000_000,
    }
}

/// Duration of everything sent before the first scanline, in nanoseconds.
pub open spec fn header_ns(calibration: bool) -> int {
    910_000_000 + if calibration {
        800_000_000int
    } else {
        0int
    }
}

/// Duration of a whole transmission in `mode`, in nanoseconds.
pub open spec fn transmission_ns(mode: SSTVMode, calibration: bool) -> int {
    header_ns(calibration) + mode.spec_resolution().1 * line_ns(mode)
}

proof fn lemma_total_ns_pair(a: Tone, b: Tone)
    ensures
        total_ns(seq![a]) == a.duration_ns,
        total_ns(seq![a, b]) == a.duration_ns + b.duration_ns,
{
    assert(seq![a].drop_last() =~= Seq::<Tone>::empty());
    assert(seq![a, b].drop_last() =~= seq![a]);
    assert(total_ns(Seq::<Tone>::empty()) == 0);
    assert(seq![a].last() == a);
    assert(seq![a, b].last() == b);
    assert(total_ns(seq![a]) == a.duration_ns);
}

/// Every Martin and Scottie colour scan divides evenly into pixel tones.
proof fn lemma_pixel_ns_exact(mode: SSTVMode)
    ensures
        mode.spec_resolution().0 * (mode.spec_color_scanline_ns() as int
            / mode.spec_resolution().0 as int) == mode.spec_color_scanline_ns(),
{
}

proof fn lemma_header_ns(code: u8, calibration: bool)
    ensures
        total_ns(header_tones(code, calibration)) == header_ns(calibration),
{
    let lead = seq![tone(1900, 300 * NS_PER_MS), tone(1200, 10 * NS_PER_MS)];
    let lead2 = seq![tone(1900, 300 * NS_PER_MS), tone(1200, 30 * NS_PER_MS)];
    let data = Seq::new(7, |i: int| bit_tone(bit(code as int, i as nat)));
    let tail = seq![bit_tone(vis_parity(code)), tone(1200, 30 * NS_PER_MS)];
    let v = vis_tones(code);
    assert(v =~= lead + lead2 + data + tail);
    lemma_total_ns_pair(tone(1900, 300 * NS_PER_MS), tone(1200, 10 * NS_PER_MS));
    lemma_total_ns_pair(tone(1900, 300 * NS_PER_MS), tone(1200, 30 * NS_PER_MS));
    lemma_total_ns_pair(bit_tone(vis_parity(code)), tone(1200, 30 * NS_PER_MS));
    lemma_total_ns_uniform(data, 30 * NS_PER_MS as int);
    lemma_total_ns_concat(lead, lead2);
    lemma_total_ns_concat(lead + lead2, data);
    lemma_total_ns_concat(lead + lead2 + data, tail);
    if calibration {
        lemma_total_ns_uniform(calibration_tones(), 100 * NS_PER_MS as int);
        lemma_total_ns_concat(calibration_tones(), v);
    }
}

proof fn lemma_line_ns(mode: SSTVMode, img: Raster, y: int)
    requires
        fits_mode(mode, &img),
    ensures
        total_ns(line_tones(mode, img, y)) == line_ns(mode),
{
    let w = img.width as int;
    let pixel_ns = mode.spec_color_scanline_ns() as int / w;
    match mode.spec_family() {
        Family::Martin => {
            let sep = tone(1500, 572_000);
            let (g, b, r) = (
                channel_scan(img, y, 1, pixel_ns),
                channel_scan(img, y, 2, pixel_ns),
                channel_scan(img, y, 0, pixel_ns),
            );
            let head = seq![tone(1200, 4_862_000), sep];
            lemma_total_ns_pair(tone(1200, 4_862_000), sep);
            lemma_total_ns_pair(sep, sep);
            lemma_total_ns_uniform(g, pixel_ns);
            lemma_total_ns_uniform(b, pixel_ns);
            lemma_total_ns_uniform(r, pixel_ns);
            lemma_total_ns_concat(head, g);
            lemma_total_ns_concat(head + g, seq![sep]);
            lemma_total_ns_concat(head + g + seq![sep], b);
            lemma_total_ns_concat(head + g + seq![sep] + b, seq![sep]);
            lemma_total_ns_concat(head + g + seq![sep] + b + seq![sep], r);
            lemma_total_ns_concat(head + g + seq![sep] + b + seq![sep] + r, seq![sep]);
            lemma_pixel_ns_exact(mode);
            assert(total_ns(line_tones(mode, img, y)) == line_ns(mode));
        },
        Family::Scottie => {
            let sep = tone(1500, 1_500_000);
            let sync = tone(1200, 9_000_000);
            let (g, b, r) = (
                channel_scan(img, y, 1, pixel_ns),
                channel_scan(img, y, 2, pixel_ns),
                channel_scan(img, y, 0, pixel_ns),
            );
            lemma_total_ns_pair(sep, sep);
            lemma_total_ns_pair(sync, sep);
            lemma_total_ns_uniform(g, pixel_ns);
            lemma_total_ns_uniform(b, pixel_ns);
            lemma_total_ns_uniform(r, pixel_ns);
            lemma_total_ns_concat(seq![sep], g);
            lemma_total_ns_concat(seq![sep] + g, seq![sep]);
            lemma_total_ns_concat(seq![sep] + g + seq![sep], b);
            lemma_total_ns_concat(seq![sep] + g + seq![sep] + b, seq![sync, sep]);
            lemma_total_ns_concat(seq![sep] + g + seq![sep] + b + seq![sync, sep], r);
            lemma_pixel_ns_exact(mode);
            assert(total_ns(line_tones(mode, img, y)) == line_ns(mode));
        },
        Family::Robot36 => {
            let even = y % 2 == 0;
            let head = seq![tone(1200, 9_000_000), tone(1500, 3_000_000)];
            let mid = seq![tone(if even { 1500 } else { 2300 }, 4_500_000), tone(1500, 1_500_000)];
            let l = luma_scan(img, y, 88_000_000int / w);
            let c = chroma_scan(img, y, !even, 44_000_000int / w);
            lemma_total_ns_pair(tone(1200, 9_000_000), tone(1500, 3_000_000));
            lemma_total_ns_pair(tone(if even { 1500 } else { 2300 }, 4_500_000), tone(1500, 1_500_000));
            lemma_total_ns_uniform(l, 88_000_000int / w);
            lemma_total_ns_uniform(c, 44_000_000int / w);
            lemma_total_ns_concat(head, l);
            lemma_total_ns_concat(head + l, mid);
            lemma_total_ns_concat(head + l + mid, c);
            assert(w == 320);
            assert(88_000_000int / w == 275_000);
            assert(44_000_000int / w == 137_500);
            assert(l.len() == 320 && c.len() == 320);
            assert(line_tones(mode, img, y) == head + l + mid + c);
            assert(total_ns(line_tones(mode, img, y)) == line_ns(mode));
        },
        Family::Robot72 => {
            lemma_robot72_line_ns(img, y);
        },
    }
}

proof fn lemma_robot72_line_ns(img: Raster, y: int)
    requires
        img.width == 320,
    ensures
        total_ns(robot72_line(img, y)) == 300_000_000,
{
    let w = img.width as int;
    assert(138_000_000int / w == 431_250);
    assert(69_000_000int / w == 215_625);
    let head = seq![tone(1200, 8_500_000), tone(1500, 3_000_000)];
    let mid_r = seq![tone(1500, 4_750_000), tone(1900, 1_500_000)];
    let mid_b = seq![tone(2300, 4_750_000), tone(1900, 1_500_000)];
    let l = luma_scan(img, y, 431_250);
    let cr = chroma_scan(img, y, false, 215_625);
    let cb = chroma_scan(img, y, true, 215_625);
    lemma_total_ns_pair(tone(1200, 8_500_000), tone(1500, 3_000_000));
    lemma_total_ns_pair(tone(1500, 4_750_000), tone(1900, 1_500_000));
    lemma_total_ns_pair(tone(2300, 4_750_000), tone(1900, 1_500_000));
    lemma_total_ns_uniform(l, 431_250);
    lemma_total_ns_uniform(cr, 215_625);
    lemma_total_ns_uniform(cb, 215_625);
    assert(total_ns(l) == 138_000_000);
    assert(total_ns(cr) == 69_000_000);
    assert(total_ns(cb) == 69_000_000);
    lemma_total_ns_concat(head, l);
    lemma_total_ns_concat(head + l, mid_r);
    lemma_total_ns_concat(head + l + mid_r, cr);
    lemma_total_ns_concat(head + l + mid_r + cr, mid_b);
    lemma_total_ns_concat(head + l + mid_r + cr + mid_b, cb);
    assert(robot72_line(img, y) == head + l + mid_r + cr + mid_b + cb);
}

proof fn lemma_scan_ns(mode: SSTVMode, img: Raster, n: nat)
    requires
        fits_mode(mode, &img),
    ensures
        total_ns(scan_tones(mode, img, n)) == n * line_ns(mode),
    decreases n,
{
    if n > 0 {
        lemma_scan_ns(mode, img, (n - 1) as nat);
        lemma_line_ns(mode, img, n - 1);
        lemma_total_ns_concat(scan_tones(mode, img, (n - 1) as nat), line_tones(mode, img, n - 1));
        assert((n - 1) * line_ns(mode) + line_ns(mode) == n * line_ns(mode)) by (nonlinear_arith);
    } else {
        assert(total_ns(scan_tones(mode, img, 0)) == 0);
    }
}

/// The tones of a transmission last, in all, exactly the mode's header and
/// scanline timings added up: `transmission_ns(mode, calibration)`.
pub proof fn lemma_transmission_ns(mode: SSTVMode, img: Raster, calibration: bool)
    requires
        fits_mode(mode, &img),
    ensures
        total_ns(transmission(mode, img, calibration)) == transmission_ns(mode, calibration),
{
    lemma_header_ns(mode.spec_vis_code(), calibration);
    lemma_scan_ns(mode, img, img.height as nat);
    lemma_total_ns_concat(
        header_tones(mode.spec_vis_code(), calibration),
        scan_tones(mode, img, img.height as nat),
    );
}

/// The transmission opens with the calibration prelude (when asked for),
/// followed directly by the VIS header announcing the mode.
pub proof fn lemma_transmission_header(mode: SSTVMode, img: Raster, calibration: bool)
    ensures
        calibration ==> transmission(mode, img, calibration).subrange(0, 8)
            == calibration_tones(),
        transmission(mode, img, calibration).subrange(
            if calibration { 8 } else { 0 },
            if calibration { 21 } else { 13 },
        ) == vis_tones(mode.spec_vis_code()),
{
    let t = transmission(mode, img, calibration);
    let v = vis_tones(mode.spec_vis_code());
    assert(v.len() == 13);
    if calibration {
        assert(t.subrange(0, 8) =~= calibration_tones());
        assert(t.subrange(8, 21) =~= v);
    } else {
        assert(t.subrange(0, 13) =~= v);
    }
}

/// Whether every pixel of `img` is the grey `(v, v, v)`.
pub open spec fn is_grey(img: Raster, v: u8) -> bool {
    forall|x: int, y: int|
        0 <= x < img.width && 0 <= y < img.height ==> #[trigger] img.rgb_at(x, y) == (v, v, v)
}

/// Index, within a Martin or Scottie scanline of width `w`, of the tone of
/// column `x` in the `k`-th colour scan sent (`k` = 0 green, 1 blue, 2 red).
pub open spec fn color_slot(family: Family, k: int, x: int, w: int) -> int {
    match family {
        Family::Martin => 2 + k * (w + 1) + x,
        _ => if k == 0 {
            1 + x
        } else if k == 1 {
            2 + w + x
        } else {
            4 + 2 * w + x
        },
    }
}

/// In a Martin or Scottie transmission of an all-grey image `(v, v, v)`,
/// every colour-scan tone of every scanline sounds `1500 + 800 * v / 255` Hz
/// for the mode's pixel time.
pub proof fn lemma_grey_color_tones(mode: SSTVMode, img: Raster, v: u8)
    requires
        fits_mode(mode, &img),
        mode.spec_family() == Family::Martin || mode.spec_family() == Family::Scottie,
        is_grey(img, v),
    ensures
        forall|y: int, k: int, x: int|
            0 <= y < img.height && 0 <= k < 3 && 0 <= x < img.width ==> #[trigger] line_tones(
                mode,
                img,
                y,
            )[color_slot(mode.spec_family(), k, x, img.width as int)] == pitched(
                level_pitch(v),
                mode.spec_color_scanline_ns() as int / img.width as int,
            ),
{
    let w = img.width as int;
    let ns = mode.spec_color_scanline_ns() as int / w;
    assert forall|y: int, k: int, x: int|
        0 <= y < img.height && 0 <= k < 3 && 0 <= x < img.width implies #[trigger] line_tones(
        mode,
        img,
        y,
    )[color_slot(mode.spec_family(), k, x, w)] == pitched(level_pitch(v), ns) by {
        assert(img.rgb_at(x, y) == (v, v, v));
        let c = if k == 0 {
            1int
        } else if k == 1 {
            2int
        } else {
            0int
        };
        assert(channel_scan(img, y, c, ns)[x] == pitched(level_pitch(v), ns));
        if mode.spec_family() == Family::Martin {
            assert(k * (w + 1) == if k == 0 {
                0
            } else if k == 1 {
                w + 1
            } else {
                2 * w + 2
            }) by (nonlinear_arith)
                requires
                    0 <= k < 3,
            ;
        }
    }
}

/// In Robot 36, even rows carry `Cr` behind a 1500 Hz chrominance sync and
/// odd rows carry `Cb` behind a 2300 Hz one.
pub proof fn lemma_robot36_interleave(img: Raster, y: int)
    requires
        fits_mode(SSTVMode::R36, &img),
        0 <= y < img.height,
    ensures
        line_tones(SSTVMode::R36, img, y)[322] == tone(
            if y % 2 == 0 {
                1500
            } else {
                2300
            },
            4_500_000,
        ),
        forall|x: int|
            0 <= x < 320 ==> #[trigger] line_tones(SSTVMode::R36, img, y)[324 + x] == {
                let (r, g, b) = img.rgb_at(x, y);
                pitched(
                    chroma_pitch(
                        if y % 2 == 0 {
                            chroma_red(r, g, b)
                        } else {
                            chroma_blue(r, g, b)
                        },
                    ),
                    137_500,
                )
            },
{
    assert(img.width == 320);
    assert(44_000_000int / 320 == 137_500);
}

} // verus!
