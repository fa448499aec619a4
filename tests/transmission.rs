use sstv::oscillator::{Oscillator, Segment};
use sstv::{encode, schedule, Raster, SSTVMode, Tone, PITCH_PER_HZ};

fn hz(t: &Tone) -> f64 {
    t.pitch as f64 / PITCH_PER_HZ as f64
}

fn tone_of(h: u64, ns: u64) -> Tone {
    Tone { pitch: h * PITCH_PER_HZ, duration_ns: ns }
}

fn total_samples(segs: &[Segment]) -> u128 {
    segs.iter().map(|s| s.count).sum()
}

fn vis_bits(tones: &[Tone], start: usize) -> u8 {
    let mut code: u8 = 0;
    for i in 0..7 {
        if tones[start + i].pitch == 1100 * PITCH_PER_HZ {
            code |= 1 << i;
        }
    }
    code
}

#[test]
fn martin1_grey_sample_count() {
    let img = Raster::filled(320, 256, 128, 128, 128);
    let segs = schedule(SSTVMode::M1, &img, 44100, false);
    // 910 ms of VIS header and 256 lines of 446.446 ms: 115200.176 ms.
    let total_ns: u128 = 910_000_000 + 256 * 446_446_000;
    assert_eq!(total_ns, 115_200_176_000);
    let ideal = total_ns as f64 * 44100.0 / 1e9;
    let n = total_samples(&segs);
    assert_eq!(n, 5_080_327);
    assert!((n as f64 - ideal.round()).abs() <= 1.0);
    let tones = encode(SSTVMode::M1, &img, false);
    assert_eq!(vis_bits(&tones, 4), 0b0101100);
}

#[test]
fn scottie1_calibration_prelude() {
    let img = Raster::filled(320, 256, 128, 128, 128);
    let tones = encode(SSTVMode::S1, &img, true);
    let pattern = [1900, 1500, 1900, 1500, 2300, 1500, 2300, 1500];
    for (i, h) in pattern.iter().enumerate() {
        assert_eq!(tones[i], tone_of(*h, 100_000_000));
    }
    assert_eq!(tones[8], tone_of(1900, 300_000_000));
    let mut osc = Oscillator::new(44100);
    let first: Vec<Tone> = tones[..8].to_vec();
    let segs = osc.emit_tones(&first);
    assert!(segs.iter().all(|s| s.count == 4410));
    assert_eq!(total_samples(&segs), 35_280);
}

#[test]
fn martin2_red_ramp() {
    let mut data = Vec::new();
    for _y in 0..256 {
        for x in 0..160u32 {
            data.extend_from_slice(&[x as u8, 0, 0]);
        }
    }
    let img = Raster::from_rgb(160, 256, data).unwrap();
    let tones = encode(SSTVMode::M2, &img, false);
    let line_len = 2 + 3 * 160 + 3;
    let header = 13;
    for y in [0usize, 100, 255] {
        let line = &tones[header + y * line_len..header + (y + 1) * line_len];
        assert_eq!(line[0], tone_of(1200, 4_862_000));
        let green = &line[2..162];
        let blue = &line[163..323];
        let red = &line[324..484];
        assert!(green.iter().all(|t| t.pitch == 1500 * PITCH_PER_HZ));
        assert!(blue.iter().all(|t| t.pitch == 1500 * PITCH_PER_HZ));
        assert_eq!(red[0].pitch, 1500 * PITCH_PER_HZ);
        assert!((hz(&red[159]) - 1998.8235).abs() < 1e-3);
        for x in 1..160 {
            assert_eq!(red[x].pitch - red[x - 1].pitch, 800_000);
            assert_eq!(red[x].duration_ns, 457_600);
        }
    }
}

#[test]
fn martin3_white_from_one_pixel() {
    let one = Raster::from_rgb(1, 1, vec![255, 255, 255]).unwrap();
    let img = one.fit_to(SSTVMode::M3);
    assert_eq!((img.width, img.height), (320, 128));
    assert!(img.data.iter().all(|b| *b == 255));
    let tones = encode(SSTVMode::M3, &img, false);
    let line_len = 2 + 3 * 320 + 3;
    assert_eq!(tones.len(), 13 + 128 * line_len);
    for y in 0..128 {
        let line = &tones[13 + y * line_len..13 + (y + 1) * line_len];
        assert_eq!(line[0], tone_of(1200, 4_862_000));
        for sep in [1usize, 322, 643, 964] {
            assert_eq!(line[sep], tone_of(1500, 572_000));
        }
        for (i, t) in line.iter().enumerate() {
            if ![0usize, 1, 322, 643, 964].contains(&i) {
                assert_eq!(*t, tone_of(2300, 457_600));
            }
        }
    }
}

#[test]
fn robot72_pure_red() {
    let img = Raster::filled(320, 240, 255, 0, 0);
    let tones = encode(SSTVMode::R72, &img, false);
    let line_len = 2 + 320 + 2 + 320 + 2 + 320;
    assert_eq!(tones.len(), 13 + 240 * line_len);
    let line = &tones[13..13 + line_len];
    assert_eq!(line[0], tone_of(1200, 8_500_000));
    assert_eq!(line[1], tone_of(1500, 3_000_000));
    assert!((hz(&line[2]) - 1739.2).abs() < 1e-9);
    assert_eq!(line[2].duration_ns, 431_250);
    assert_eq!(line[322], tone_of(1500, 4_750_000));
    assert_eq!(line[323], tone_of(1900, 1_500_000));
    assert!((hz(&line[324]) - 2180.4).abs() < 1e-9);
    assert_eq!(line[324].duration_ns, 215_625);
    assert_eq!(line[644], tone_of(2300, 4_750_000));
    assert_eq!(line[645], tone_of(1900, 1_500_000));
    assert!((hz(&line[646]) - 1780.4).abs() < 1e-9);
    assert!(line[2..322].iter().all(|t| *t == line[2]));
    assert!(line[324..644].iter().all(|t| *t == line[324]));
    assert!(line[646..966].iter().all(|t| *t == line[646]));
}

#[test]
fn martin4_vis_parity() {
    let img = Raster::filled(160, 128, 0, 0, 0);
    let tones = encode(SSTVMode::M4, &img, false);
    assert_eq!(vis_bits(&tones, 4), 0b0100000);
    assert_eq!(tones[11], tone_of(1100, 30_000_000));
    assert_eq!(tones[12], tone_of(1200, 30_000_000));
}
