use sstv::oscillator::Oscillator;
use sstv::{
    encode, parse_args, parse_u32, rgb_to_ycrcb, schedule, write_vis, ArgError, Command, Family,
    Raster, SSTVMode, Tone, PITCH_PER_HZ,
};

const MODES: [SSTVMode; 11] = [
    SSTVMode::R36,
    SSTVMode::R72,
    SSTVMode::M1,
    SSTVMode::M2,
    SSTVMode::M3,
    SSTVMode::M4,
    SSTVMode::S1,
    SSTVMode::S2,
    SSTVMode::S3,
    SSTVMode::S4,
    SSTVMode::SDX,
];

fn tone_of(h: u64, ns: u64) -> Tone {
    Tone { pitch: h * PITCH_PER_HZ, duration_ns: ns }
}

fn words(a: &[&str]) -> Vec<String> {
    a.iter().map(|s| s.to_string()).collect()
}

#[test]
fn mode_table() {
    assert_eq!(SSTVMode::M1.resolution(), (320, 256));
    assert_eq!(SSTVMode::S4.resolution(), (160, 128));
    assert_eq!(SSTVMode::R36.resolution(), (320, 240));
    assert_eq!(SSTVMode::SDX.vis_code(), 0b1001100);
    assert_eq!(SSTVMode::R72.vis_code(), 0b0001100);
    assert_eq!(SSTVMode::S2.color_scanline_ns(), 88_064_000);
    assert_eq!(SSTVMode::M3.family(), Family::Martin);
    assert_eq!(SSTVMode::SDX.family(), Family::Scottie);
    assert_eq!(SSTVMode::R72.family(), Family::Robot72);
}

#[test]
fn mode_names() {
    assert_eq!(SSTVMode::from_name("M1"), Some(SSTVMode::M1));
    assert_eq!(SSTVMode::from_name("ScottieDX"), Some(SSTVMode::SDX));
    assert_eq!(SSTVMode::from_name("Robot36"), Some(SSTVMode::R36));
    assert_eq!(SSTVMode::from_name("m1"), None);
    assert_eq!("S3".parse::<SSTVMode>().ok(), Some(SSTVMode::S3));
    let err = "Martin5".parse::<SSTVMode>().err().unwrap();
    assert_eq!(err.name, "Martin5");
}

#[test]
fn ycrcb_of_pure_colours() {
    assert_eq!(rgb_to_ycrcb(255, 0, 0), (76_245, 178_755, -76_245));
    assert_eq!(rgb_to_ycrcb(0, 0, 255), (29_070, -29_070, 225_930));
    assert_eq!(rgb_to_ycrcb(255, 255, 255), (255_000, 0, 0));
    assert_eq!(rgb_to_ycrcb(0, 0, 0), (0, 0, 0));
}

#[test]
fn vis_header_of_scottie_dx() {
    let mut out = vec![tone_of(440, 1)];
    write_vis(&mut out, 0b1001100, false);
    assert_eq!(out.len(), 14);
    assert_eq!(out[0], tone_of(440, 1));
    assert_eq!(out[1], tone_of(1900, 300_000_000));
    assert_eq!(out[2], tone_of(1200, 10_000_000));
    assert_eq!(out[3], tone_of(1900, 300_000_000));
    assert_eq!(out[4], tone_of(1200, 30_000_000));
    let bits = [0, 0, 1, 1, 0, 0, 1];
    for (i, b) in bits.iter().enumerate() {
        let h = if *b == 1 { 1100 } else { 1300 };
        assert_eq!(out[5 + i], tone_of(h, 30_000_000));
    }
    // three ones: the parity bit completes them to an even count
    assert_eq!(out[12], tone_of(1100, 30_000_000));
    assert_eq!(out[13], tone_of(1200, 30_000_000));
}

#[test]
fn vis_parity_even_for_every_mode() {
    for m in MODES {
        let mut out = Vec::new();
        write_vis(&mut out, m.vis_code(), true);
        assert_eq!(out.len(), 8 + 13);
        let marks = out[12..20].iter().filter(|t| t.pitch == 1100 * PITCH_PER_HZ).count();
        assert_eq!(marks % 2, 0);
        let mut code = 0u8;
        for i in 0..7 {
            if out[12 + i].pitch == 1100 * PITCH_PER_HZ {
                code |= 1 << i;
            }
        }
        assert_eq!(code, m.vis_code());
    }
}

#[test]
fn oscillator_carries_fraction() {
    let mut osc = Oscillator::new(44100);
    // 4.862 ms at 44.1 kHz is 214.4142 samples
    let a = osc.emit_tone(tone_of(1200, 4_862_000));
    assert_eq!(a.count, 214);
    assert_eq!(osc.frac, 414_200_000);
    let b = osc.emit_tone(tone_of(1500, 572_000));
    // 25.2252 + 0.4142
    assert_eq!(b.count, 25);
    assert_eq!(osc.frac, 639_400_000);
    let c = osc.emit_tone(tone_of(1500, 572_000));
    assert_eq!(c.count, 25);
    assert_eq!(osc.frac, 864_600_000);
    let d = osc.emit_tone(tone_of(1500, 572_000));
    assert_eq!(d.count, 26);
    assert_eq!(osc.frac, 89_800_000);
}

#[test]
fn oscillator_phase_is_continuous() {
    let mut osc = Oscillator::new(8000);
    let a = osc.emit_tone(tone_of(1000, 1_000_000));
    assert_eq!(a.count, 8);
    assert_eq!(a.start_phase, 0);
    assert_eq!(a.cycle, 8000 * PITCH_PER_HZ);
    // one eighth of a turn per sample
    assert_eq!(a.phase_at(1), PITCH_PER_HZ * 1000);
    assert_eq!(a.phase_at(3), PITCH_PER_HZ * 3000);
    assert_eq!(osc.phase, 0);
    let b = osc.emit_tone(tone_of(3000, 500_000));
    assert_eq!(b.count, 4);
    assert_eq!(b.start_phase, 0);
    assert_eq!(osc.phase, (4 * 3000 * PITCH_PER_HZ) % (8000 * PITCH_PER_HZ));
    let c = osc.emit_tone(tone_of(0, 250_000));
    assert_eq!(c.count, 2);
    assert_eq!(c.step, 0);
    assert_eq!(c.start_phase, osc.phase);
}

#[test]
fn oscillator_empty_tone() {
    let mut osc = Oscillator::new(44100);
    let s = osc.emit_tone(tone_of(1900, 0));
    assert_eq!(s.count, 0);
    assert_eq!(osc.phase, 0);
    assert_eq!(osc.frac, 0);
}

#[test]
fn no_drift_over_many_short_tones() {
    let mut osc = Oscillator::new(44100);
    let tones: Vec<Tone> = (0..10_000u64).map(|i| tone_of(1500 + i % 800, 457_600)).collect();
    let segs = osc.emit_tones(&tones);
    let n: u128 = segs.iter().map(|s| s.count).sum();
    // 10000 * 0.4576 ms = 4576 ms, 201801.6 samples
    assert_eq!(n, 201_801);
    for i in 0..segs.len() - 1 {
        let s = &segs[i];
        let end = ((s.start_phase as u128 + s.count * s.step as u128) % s.cycle as u128) as u64;
        assert_eq!(segs[i + 1].start_phase, end);
    }
}

#[test]
fn transmission_lengths_match_timings() {
    let cases: [(SSTVMode, u128); 4] = [
        (SSTVMode::S1, 256 * (9_000_000 + 3 * 1_500_000 + 3 * 138_240_000)),
        (SSTVMode::M4, 128 * (4_862_000 + 4 * 572_000 + 3 * 73_216_000)),
        (SSTVMode::R36, 240 * 150_000_000),
        (SSTVMode::R72, 240 * 300_000_000),
    ];
    for (m, lines_ns) in cases {
        let (w, h) = m.resolution();
        let img = Raster::filled(w, h, 10, 200, 30);
        let segs = schedule(m, &img, 48000, true);
        let total = 1_710_000_000 + lines_ns;
        let n: u128 = segs.iter().map(|s| s.count).sum();
        assert_eq!(n, total * 48000 / 1_000_000_000);
    }
}

#[test]
fn grey_colour_tones() {
    let img = Raster::filled(160, 256, 51, 51, 51);
    let tones = encode(SSTVMode::S2, &img, false);
    let line_len = 1 + 160 + 1 + 160 + 2 + 160;
    let line = &tones[13..13 + line_len];
    // 1500 + 800 * 51 / 255 = 1660 Hz for 88.064 / 160 ms
    let px = tone_of(1660, 550_400);
    for x in 0..160 {
        assert_eq!(line[1 + x], px);
        assert_eq!(line[162 + x], px);
        assert_eq!(line[324 + x], px);
    }
    assert_eq!(line[0], tone_of(1500, 1_500_000));
    assert_eq!(line[161], tone_of(1500, 1_500_000));
    assert_eq!(line[322], tone_of(1200, 9_000_000));
    assert_eq!(line[323], tone_of(1500, 1_500_000));
}

#[test]
fn robot36_chroma_interleave() {
    let img = Raster::filled(320, 240, 0, 0, 255);
    let tones = encode(SSTVMode::R36, &img, false);
    let line_len = 2 + 320 + 2 + 320;
    for y in 0..4usize {
        let line = &tones[13 + y * line_len..13 + (y + 1) * line_len];
        assert_eq!(line[0], tone_of(1200, 9_000_000));
        assert_eq!(line[2].duration_ns, 275_000);
        let sync = if y % 2 == 0 { 1500 } else { 2300 };
        assert_eq!(line[322], tone_of(sync, 4_500_000));
        assert_eq!(line[323], tone_of(1500, 1_500_000));
        // Cr = -0.114 on even rows, Cb = 0.886 on odd rows
        let c: i64 = if y % 2 == 0 { -29_070 } else { 225_930 };
        let pitch = (1900 * PITCH_PER_HZ as i64 + 400 * c) as u64;
        assert_eq!(line[324], Tone { pitch, duration_ns: 137_500 });
    }
}

#[test]
fn raster_checks_size() {
    assert!(Raster::from_rgb(2, 2, vec![0; 12]).is_some());
    assert!(Raster::from_rgb(2, 2, vec![0; 11]).is_none());
    let img = Raster::from_rgb(2, 1, vec![1, 2, 3, 4, 5, 6]).unwrap();
    assert_eq!(img.pixel(1, 0), (4, 5, 6));
    let same = Raster::filled(160, 128, 7, 8, 9).fit_to(SSTVMode::M4);
    assert_eq!(same.data, Raster::filled(160, 128, 7, 8, 9).data);
}

#[test]
fn decimal_numbers() {
    assert_eq!(parse_u32("44100"), Some(44100));
    assert_eq!(parse_u32("+8000"), Some(8000));
    assert_eq!(parse_u32("4294967295"), Some(u32::MAX));
    assert_eq!(parse_u32("4294967296"), None);
    assert_eq!(parse_u32(""), None);
    assert_eq!(parse_u32("+"), None);
    assert_eq!(parse_u32("12a"), None);
    assert_eq!(parse_u32("-5"), None);
}

#[test]
fn command_line_defaults_and_flags() {
    match parse_args(&words(&["sstv", "in.png"])) {
        Ok(Command::Run(s)) => {
            assert_eq!(s.mode, SSTVMode::S1);
            assert_eq!(s.volume, None);
            assert_eq!(s.sample_rate, 44100);
            assert_eq!(s.infile, "in.png");
            assert_eq!(s.outfile, "out.wav");
            assert!(s.calibration);
        }
        _ => panic!("expected settings"),
    }
    let a = words(&["sstv", "-m", "Martin2", "in.png", "-v", "80", "-s", "+22050", "-o", "x.wav", "-c", "NO"]);
    match parse_args(&a) {
        Ok(Command::Run(s)) => {
            assert_eq!(s.mode, SSTVMode::M2);
            assert_eq!(s.volume, Some("80".to_string()));
            assert_eq!(s.sample_rate, 22050);
            assert_eq!(s.infile, "in.png");
            assert_eq!(s.outfile, "x.wav");
            assert!(!s.calibration);
        }
        _ => panic!("expected settings"),
    }
    match parse_args(&words(&["sstv", "-c", "YeRp", "pic.jpg"])) {
        Ok(Command::Run(s)) => assert!(s.calibration),
        _ => panic!("expected settings"),
    }
}

#[test]
fn command_line_help_and_version() {
    assert!(matches!(parse_args(&words(&["sstv"])), Ok(Command::Help)));
    assert!(matches!(parse_args(&words(&["sstv", "in.png", "--help"])), Ok(Command::Help)));
    assert!(matches!(parse_args(&words(&["sstv", "--version", "-h"])), Ok(Command::Version)));
}

#[test]
fn command_line_errors() {
    match parse_args(&words(&["sstv", "-m", "Martin9"])) {
        Err(ArgError::InvalidMode(a)) => assert_eq!(a, "Martin9"),
        _ => panic!("expected a mode error"),
    }
    match parse_args(&words(&["sstv", "-s", "fast"])) {
        Err(ArgError::InvalidSampleRate(a)) => assert_eq!(a, "fast"),
        _ => panic!("expected a sample rate error"),
    }
    match parse_args(&words(&["sstv", "-c", "maybe", "-h"])) {
        Err(ArgError::InvalidCalibration(a)) => assert_eq!(a, "maybe"),
        _ => panic!("expected a calibration error"),
    }
}

#[test]
fn mode_from_str_short_and_long() {
    assert_eq!("Martin2".parse::<SSTVMode>().ok(), Some(SSTVMode::M2));
    assert_eq!("SDX".parse::<SSTVMode>().ok(), Some(SSTVMode::SDX));
    assert_eq!("m2".parse::<SSTVMode>().err().unwrap().name, "m2");
    assert_eq!("".parse::<SSTVMode>().err().unwrap().name, "");
    for m in MODES {
        assert_eq!(format!("{:?}", m).parse::<SSTVMode>().ok(), Some(m));
    }
}
