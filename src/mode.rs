use vstd::prelude::*;

verus! {

/// The scanline protocol that a mode follows.
#[derive(Clone, Copy, PartialEq, Eq, Structural, Debug)]
pub enum Family {
    Martin,
    Scottie,
    Robot36,
    Robot72,
}

/// One of the supported SSTV transmission modes.
#[derive(Clone, Copy, PartialEq, Eq, Structural, Debug)]
pub enum SSTVMode {
    R36,
    R72,
    M1,
    M2,
    M3,
    M4,
    S1,
    S2,
    S3,
    S4,
    SDX,
}

impl SSTVMode {
    /// Canonical image size `(width, height)` in pixels.
    pub open spec fn spec_resolution(self) -> (u32, u32) {
        match self {
            SSTVMode::R36 => (320, 240),
            SSTVMode::R72 => (320, 240),
            SSTVMode::M1 => (320, 256),
            SSTVMode::M2 => (160, 256),
            SSTVMode::M3 => (320, 128),
            SSTVMode::M4 => (160, 128),
            SSTVMode::S1 => (320, 256),
            SSTVMode::S2 => (160, 256),
            SSTVMode::S3 => (320, 128),
            SSTVMode::S4 => (160, 128),
            SSTVMode::SDX => (320, 256),
        }
    }

    /// The seven VIS data bits that announce the mode.
    pub open spec fn spec_vis_code(self) -> u8 {
        match self {
            SSTVMode::R36 => 0b0001000,
            SSTVMode::R72 => 0b0001100,
            SSTVMode::M1 => 0b0101100,
            SSTVMode::M2 => 0b0101000,
            SSTVMode::M3 => 0b0100100,
            SSTVMode::M4 => 0b0100000,
            SSTVMode::S1 => 0b0111100,
            SSTVMode::S2 => 0b0111000,
            SSTVMode::S3 => 0b0110100,
            SSTVMode::S4 => 0b0110000,
            SSTVMode::SDX => 0b1001100,
        }
    }

    /// Duration of one colour-channel scan of a line, in nanoseconds
    /// (Martin and Scottie; the Robot modes carry their timings in their
    /// own scanline protocol and report zero here).
    pub open spec fn spec_color_scanline_ns(self) -> u64 {
        match self {
            SSTVMode::R36 => 0,
            SSTVMode::R72 => 0,
            SSTVMode::M1 => 146_432_000,
            SSTVMode::M2 => 73_216_000,
            SSTVMode::M3 => 146_432_000,
            SSTVMode::M4 => 73_216_000,
            SSTVMode::S1 => 138_240_000,
            SSTVMode::S2 => 88_064_000,
            SSTVMode::S3 => 138_240_000,
            SSTVMode::S4 => 88_064_000,
            SSTVMode::SDX => 345_600_000,
        }
    }

    pub open spec fn spec_family(self) -> Family {
        match self {
            SSTVMode::R36 => Family::Robot36,
            SSTVMode::R72 => Family::Robot72,
            SSTVMode::M1 | SSTVMode::M2 | SSTVMode::M3 | SSTVMode::M4 => Family::Martin,
            _ => Family::Scottie,
        }
    }

    pub fn resolution(&self) -> (r: (u32, u32))
        ensures
            r == self.spec_resolution(),
    {
        match self {
            SSTVMode::R36 => (320, 240),
            SSTVMode::R72 => (320, 240),
            SSTVMode::M1 => (320, 256),
            SSTVMode::M2 => (160, 256),
            SSTVMode::M3 => (320, 128),
            SSTVMode::M4 => (160, 128),
            SSTVMode::S1 => (320, 256),
            SSTVMode::S2 => (160, 256),
            SSTVMode::S3 => (320, 128),
            SSTVMode::S4 => (160, 128),
            SSTVMode::SDX => (320, 256),
        }
    }

    pub fn vis_code(&self) -> (r: u8)
        ensures
            r == self.spec_vis_code(),
            r < 128,
    {
        match self {
            SSTVMode::R36 => 0b0001000,
            SSTVMode::R72 => 0b0001100,
            SSTVMode::M1 => 0b0101100,
            SSTVMode::M2 => 0b0101000,
            SSTVMode::M3 => 0b0100100,
            SSTVMode::M4 => 0b0100000,
            SSTVMode::S1 => 0b0111100,
            SSTVMode::S2 => 0b0111000,
            SSTVMode::S3 => 0b0110100,
            SSTVMode::S4 => 0b0110000,
            SSTVMode::SDX => 0b1001100,
        }
    }

    pub fn color_scanline_ns(&self) -> (r: u64)
        ensures
            r == self.spec_color_scanline_ns(),
    {
        match self {
            SSTVMode::R36 => 0,
            SSTVMode::R72 => 0,
            SSTVMode::M1 => 146_432_000,
            SSTVMode::M2 => 73_216_000,
            SSTVMode::M3 => 146_432_000,
            SSTVMode::M4 => 73_216_000,
            SSTVMode::S1 => 138_240_000,
            SSTVMode::S2 => 88_064_000,
            SSTVMode::S3 => 138_240_000,
            SSTVMode::S4 => 88_064_000,
            SSTVMode::SDX => 345_600_000,
        }
    }

    pub fn family(&self) -> (r: Family)
        ensures
            r == self.spec_family(),
    {
        match self {
            SSTVMode::R36 => Family::Robot36,
            SSTVMode::R72 => Family::Robot72,
            SSTVMode::M1 | SSTVMode::M2 | SSTVMode::M3 | SSTVMode::M4 => Family::Martin,
            _ => Family::Scottie,
        }
    }
}

/// Whether `s` and `t` hold the same characters.
pub fn text_is(s: &str, t: &str) -> (r: bool)
    ensures
        r == (s@ == t@),
{
    let n = s.unicode_len();
    if n != t.unicode_len() {
        return false;
    }
    let mut i: usize = 0;
    while i < n
        invariant
            n == s@.len(),
            n == t@.len(),
            i <= n,
            forall|j: int| 0 <= j < i ==> s@[j] == t@[j],
        decreases n - i,
    {
        if s.get_char(i) != t.get_char(i) {
            return false;
        }
        i = i + 1;
    }
    assert(s@ =~= t@);
    true
}

/// The mode that `name` calls for, by its short (`M1`) or long (`Martin1`)
/// name.
pub open spec fn mode_named(name: Seq<char>) -> Option<SSTVMode> {
    if name == "R36"@ || name == "Robot36"@ {
        Some(SSTVMode::R36)
    } else if name == "R72"@ || name == "Robot72"@ {
        Some(SSTVMode::R72)
    } else if name == "M1"@ || name == "Martin1"@ {
        Some(SSTVMode::M1)
    } else if name == "M2"@ || name == "Martin2"@ {
        Some(SSTVMode::M2)
    } else if name == "M3"@ || name == "Martin3"@ {
        Some(SSTVMode::M3)
    } else if name == "M4"@ || name == "Martin4"@ {
        Some(SSTVMode::M4)
    } else if name == "S1"@ || name == "Scottie1"@ {
        Some(SSTVMode::S1)
    } else if name == "S2"@ || name == "Scottie2"@ {
        Some(SSTVMode::S2)
    } else if name == "S3"@ || name == "Scottie3"@ {
        Some(SSTVMode::S3)
    } else if name == "S4"@ || name == "Scottie4"@ {
        Some(SSTVMode::S4)
    } else if name == "SDX"@ || name == "ScottieDX"@ {
        Some(SSTVMode::SDX)
    } else {
        None
    }
}

/// A mode name that is not one of the supported modes.
pub struct UnknownMode {
    pub name: String,
}

impl SSTVMode {
    /// The mode named `name`, if there is one.
    pub fn from_name(name: &str) -> (r: Option<SSTVMode>)
        ensures
            r == mode_named(name@),
    {
        if text_is(name, "R36") || text_is(name, "Robot36") {
            Some(SSTVMode::R36)
        } else if text_is(name, "R72") || text_is(name, "Robot72") {
            Some(SSTVMode::R72)
        } else if text_is(name, "M1") || text_is(name, "Martin1") {
            Some(SSTVMode::M1)
        } else if text_is(name, "M2") || text_is(name, "Martin2") {
            Some(SSTVMode::M2)
        } else if text_is(name, "M3") || text_is(name, "Martin3") {
            Some(SSTVMode::M3)
        } else if text_is(name, "M4") || text_is(name, "Martin4") {
            Some(SSTVMode::M4)
        } else if text_is(name, "S1") || text_is(name, "Scottie1") {
            Some(SSTVMode::S1)
        } else if text_is(name, "S2") || text_is(name, "Scottie2") {
            Some(SSTVMode::S2)
        } else if text_is(name, "S3") || text_is(name, "Scottie3") {
            Some(SSTVMode::S3)
        } else if text_is(name, "S4") || text_is(name, "Scottie4") {
            Some(SSTVMode::S4)
        } else if text_is(name, "SDX") || text_is(name, "ScottieDX") {
            Some(SSTVMode::SDX)
        } else {
            None
        }
    }
}

impl std::str::FromStr for SSTVMode {
    type Err = UnknownMode;

    fn from_str(s: &str) -> (r: Result<SSTVMode, UnknownMode>)
        ensures
            r is Ok <==> mode_named(s@) is Some,
            r matches Ok(m) ==> mode_named(s@) == Some(m),
            r matches Err(e) ==> e.name@ == s@,
    {
        match SSTVMode::from_name(s) {
            Some(m) => Ok(m),
            None => Err(UnknownMode { name: s.to_owned() }),
        }
    }
}

} // verus!
