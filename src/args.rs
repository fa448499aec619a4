use vstd::prelude::*;
use crate::mode::{SSTVMode, mode_named, text_is};

verus! {

/// What `str::to_lowercase` makes of a string.
pub uninterp spec fn lower_of(s: Seq<char>) -> Seq<char>;

/// Relies on `str::to_lowercase`: the lowercase form of `s`, which depends
/// on the characters of `s` alone.
#[verifier::external_body]
fn lowercase(s: &str) -> (r: String)
    ensures
        r@ == lower_of(s@),
{
    s.to_lowercase()
}

/// The value of a decimal digit character.
pub open spec fn digit_value(c: char) -> int {
    c as int - '0' as int
}

pub open spec fn is_digit(c: char) -> bool {
    '0' <= c <= '9'
}

/// The number written by a string of decimal digits.
pub open spec fn decimal_value(s: Seq<char>) -> int
    decreases s.len(),
{
    if s.len() == 0 {
        0
    } else {
        decimal_value(s.drop_last()) * 10 + digit_value(s.last())
    }
}

/// `s` without one leading `+`.
pub open spec fn unsigned_part(s: Seq<char>) -> Seq<char> {
    if s.len() > 0 && s[0] == '+' {
        s.drop_first()
    } else {
        s
    }
}

pub open spec fn all_digits(d: Seq<char>) -> bool {
    forall|i: int| 0 <= i < d.len() ==> is_digit(#[trigger] d[i])
}

/// The `u32` that `s` writes in decimal, after an optional `+`, if it writes
/// one: at least one digit, nothing else, and no more than `u32::MAX`.
pub open spec fn decimal_u32(s: Seq<char>) -> Option<u32> {
    let d = unsigned_part(s);
    if d.len() > 0 && all_digits(d) && decimal_value(d) <= u32::MAX {
        Some(decimal_value(d) as u32)
    } else {
        None
    }
}

proof fn lemma_decimal_value_nonneg(s: Seq<char>)
    requires
        forall|i: int| 0 <= i < s.len() ==> is_digit(#[trigger] s[i]),
    ensures
        decimal_value(s) >= 0,
    decreases s.len(),
{
    if s.len() > 0 {
        lemma_decimal_value_nonneg(s.drop_last());
    }
}

/// Reads a sample rate written in decimal.
pub fn parse_u32(s: &str) -> (r: Option<u32>)
    ensures
        r == decimal_u32(s@),
{
    let n = s.unicode_len();
    let mut i: usize = 0;
    if n > 0 && s.get_char(0) == '+' {
        i = 1;
    }
    let start = i;
    let ghost d = s@.subrange(start as int, n as int);
    proof {
        if start == 1 {
            assert(d =~= s@.drop_first());
        } else {
            assert(d =~= s@);
        }
    }
    if i == n {
        return None;
    }
    let mut value: u64 = 0;
    while i < n
        invariant
            n == s@.len(),
            start <= i <= n,
            start < n,
            d == s@.subrange(start as int, n as int),
            d == unsigned_part(s@),
            forall|j: int| 0 <= j < i - start ==> is_digit(#[trigger] d[j]),
            value == decimal_value(d.subrange(0, i - start)),
            value <= u32::MAX,
        decreases n - i,
    {
        let c = s.get_char(i);
        if !('0' <= c && c <= '9') {
            proof {
                assert(d[i - start] == c);
                assert(!is_digit(d[i - start]));
                assert(!all_digits(d));
            }
            return None;
        }
        let digit = (c as u32 - '0' as u32) as u64;
        let next = value * 10 + digit;
        proof {
            let k = i - start;
            assert(d.subrange(0, k + 1).drop_last() =~= d.subrange(0, k));
            assert(d.subrange(0, k + 1).last() == c);
        }
        i = i + 1;
        if next > 0xffff_ffff {
            proof {
                let k = i - start;
                assert forall|j: int| 0 <= j < k implies is_digit(#[trigger] d.subrange(0, k)[j]) by {
                    assert(d.subrange(0, k)[j] == d[j]);
                }
                assert(next == decimal_value(d.subrange(0, k)));
                lemma_decimal_prefix_grows(d, k);
                assert(d.subrange(0, d.len() as int) =~= d);
                if all_digits(d) {
                    assert(decimal_value(d) > u32::MAX);
                }
            }
            return None;
        }
        value = next;
    }
    proof {
        assert(d.subrange(0, n - start) =~= d);
    }
    Some(value as u32)
}

/// Extending a digit string never lowers its value.
proof fn lemma_decimal_prefix_grows(d: Seq<char>, k: int)
    requires
        0 <= k <= d.len(),
        forall|j: int| 0 <= j < k ==> is_digit(#[trigger] d[j]),
    ensures
        forall|m: int| k <= m <= d.len() && (forall|j: int| 0 <= j < m ==> is_digit(#[trigger] d[j]))
            ==> decimal_value(d.subrange(0, k)) <= #[trigger] decimal_value(d.subrange(0, m)),
{
    assert forall|m: int| k <= m <= d.len() && (forall|j: int| 0 <= j < m ==> is_digit(#[trigger] d[j]))
        implies decimal_value(d.subrange(0, k)) <= #[trigger] decimal_value(d.subrange(0, m)) by {
        lemma_decimal_prefix_grows_to(d, k, m);
    }
}

proof fn lemma_decimal_prefix_grows_to(d: Seq<char>, k: int, m: int)
    requires
        0 <= k <= m <= d.len(),
        forall|j: int| 0 <= j < m ==> is_digit(#[trigger] d[j]),
    ensures
        decimal_value(d.subrange(0, k)) <= decimal_value(d.subrange(0, m)),
    decreases m - k,
{
    if k < m {
        lemma_decimal_prefix_grows_to(d, k, m - 1);
        assert(d.subrange(0, m).drop_last() =~= d.subrange(0, m - 1));
        let p = d.subrange(0, m - 1);
        assert forall|j: int| 0 <= j < p.len() implies is_digit(#[trigger] p[j]) by {
            assert(p[j] == d[j]);
        }
        lemma_decimal_value_nonneg(p);
        assert(is_digit(d[m - 1]));
    }
}

/// The value that a flag waits for in the next argument.
#[derive(Clone, Copy, PartialEq, Eq, Structural, Debug)]
pub enum Pending {
    Nothing,
    Mode,
    Volume,
    SampleRate,
    Output,
    Calibration,
}

/// The settings of one encoding run, as the command line gives them.
pub struct Settings {
    pub mode: SSTVMode,
    /// The text of the last volume given, a percentage, if any.
    pub volume: Option<String>,
    pub sample_rate: u32,
    pub infile: String,
    pub outfile: String,
    pub calibration: bool,
}

pub struct SettingsView {
    pub mode: SSTVMode,
    pub volume: Option<Seq<char>>,
    pub sample_rate: u32,
    pub infile: Seq<char>,
    pub outfile: Seq<char>,
    pub calibration: bool,
}

impl View for Settings {
    type V = SettingsView;

    open spec fn view(&self) -> SettingsView {
        SettingsView {
            mode: self.mode,
            volume: match self.volume {
                Some(v) => Some(v@),
                None => None,
            },
            sample_rate: self.sample_rate,
            infile: self.infile@,
            outfile: self.outfile@,
            calibration: self.calibration,
        }
    }
}

/// What the command line asks for.
pub enum Command {
    Run(Settings),
    Help,
    Version,
}

/// An argument that the command line cannot take.
pub enum ArgError {
    InvalidMode(String),
    InvalidSampleRate(String),
    InvalidCalibration(String),
}

/// What the command line asks for, or why it cannot be taken.
pub enum Outcome {
    Run(SettingsView),
    Help,
    Version,
    InvalidMode(Seq<char>),
    InvalidSampleRate(Seq<char>),
    InvalidCalibration(Seq<char>),
}

pub open spec fn outcome_of(r: Result<Command, ArgError>) -> Outcome {
    match r {
        Ok(Command::Run(s)) => Outcome::Run(s@),
        Ok(Command::Help) => Outcome::Help,
        Ok(Command::Version) => Outcome::Version,
        Err(ArgError::InvalidMode(a)) => Outcome::InvalidMode(a@),
        Err(ArgError::InvalidSampleRate(a)) => Outcome::InvalidSampleRate(a@),
        Err(ArgError::InvalidCalibration(a)) => Outcome::InvalidCalibration(a@),
    }
}

/// Mode S1, volume 50, 44100 Hz, output `out.wav`, calibration on.
pub open spec fn default_settings() -> SettingsView {
    SettingsView {
        mode: SSTVMode::S1,
        volume: None,
        sample_rate: 44100,
        infile: Seq::empty(),
        outfile: "out.wav"@,
        calibration: true,
    }
}

/// The yes-or-no that a (lowercase) word of the calibration flag means.
pub open spec fn calibration_word(w: Seq<char>) -> Option<bool> {
    if w == "true"@ || w == "yes"@ || w == "t"@ || w == "yerp"@ || w == "yuhuh"@ || w
        == "please"@ || w == "pwease"@ || w == "ya"@ || w == "yer"@ || w == "ye"@ || w == "y"@
        || w == "da"@ {
        Some(true)
    } else if w == "false"@ || w == "no"@ || w == "n"@ || w == "f"@ || w == "nerp"@ || w
        == "nuhuh"@ || w == "nu"@ || w == "ner"@ {
        Some(false)
    } else {
        None
    }
}

/// The flag that `a` names, if it names one that takes a value.
pub open spec fn flag_of(a: Seq<char>) -> Pending {
    if a == "-m"@ || a == "--mode"@ {
        Pending::Mode
    } else if a == "-v"@ || a == "--volume"@ {
        Pending::Volume
    } else if a == "-s"@ || a == "--sample-rate"@ {
        Pending::SampleRate
    } else if a == "-o"@ {
        Pending::Output
    } else if a == "-c"@ {
        Pending::Calibration
    } else {
        Pending::Nothing
    }
}

/// Reads `args` in order from settings `s`, with `p` the value that the
/// previous argument waits for. A flag's value is the next argument;
/// `-h`/`--help` and `--version` end the reading; any other argument names
/// the input file. A flag left without a value is ignored.
pub open spec fn parse_from(s: SettingsView, p: Pending, args: Seq<Seq<char>>) -> Outcome
    decreases args.len(),
{
    if args.len() == 0 {
        Outcome::Run(s)
    } else {
        let a = args[0];
        let rest = args.drop_first();
        match p {
            Pending::Mode => match mode_named(a) {
                Some(m) => parse_from(SettingsView { mode: m, ..s }, Pending::Nothing, rest),
                None => Outcome::InvalidMode(a),
            },
            Pending::Volume => parse_from(
                SettingsView { volume: Some(a), ..s },
                Pending::Nothing,
                rest,
            ),
            Pending::SampleRate => match decimal_u32(a) {
                Some(n) => parse_from(SettingsView { sample_rate: n, ..s }, Pending::Nothing, rest),
                None => Outcome::InvalidSampleRate(a),
            },
            Pending::Output => parse_from(SettingsView { outfile: a, ..s }, Pending::Nothing, rest),
            Pending::Calibration => match calibration_word(lower_of(a)) {
                Some(b) => parse_from(SettingsView { calibration: b, ..s }, Pending::Nothing, rest),
                None => Outcome::InvalidCalibration(a),
            },
            Pending::Nothing => if a == "-h"@ || a == "--help"@ {
                Outcome::Help
            } else if a == "--version"@ {
                Outcome::Version
            } else if flag_of(a) != Pending::Nothing {
                parse_from(s, flag_of(a), rest)
            } else {
                parse_from(SettingsView { infile: a, ..s }, Pending::Nothing, rest)
            },
        }
    }
}

/// What a whole command line (program name first) asks for: help when it
/// holds no argument, else every word read in order from the defaults.
pub open spec fn parse_outcome(args: Seq<Seq<char>>) -> Outcome {
    if args.len() < 2 {
        Outcome::Help
    } else {
        parse_from(default_settings(), Pending::Nothing, args)
    }
}

fn calibration_value(w: &str) -> (r: Option<bool>)
    ensures
        r == calibration_word(w@),
{
    if text_is(w, "true") || text_is(w, "yes") || text_is(w, "t") || text_is(w, "yerp")
        || text_is(w, "yuhuh") || text_is(w, "please") || text_is(w, "pwease") || text_is(w, "ya")
        || text_is(w, "yer") || text_is(w, "ye") || text_is(w, "y") || text_is(w, "da") {
        Some(true)
    } else if text_is(w, "false") || text_is(w, "no") || text_is(w, "n") || text_is(w, "f")
        || text_is(w, "nerp") || text_is(w, "nuhuh") || text_is(w, "nu") || text_is(w, "ner") {
        Some(false)
    } else {
        None
    }
}

fn flag_value(a: &str) -> (r: Pending)
    ensures
        r == flag_of(a@),
{
    if text_is(a, "-m") || text_is(a, "--mode") {
        Pending::Mode
    } else if text_is(a, "-v") || text_is(a, "--volume") {
        Pending::Volume
    } else if text_is(a, "-s") || text_is(a, "--sample-rate") {
        Pending::SampleRate
    } else if text_is(a, "-o") {
        Pending::Output
    } else if text_is(a, "-c") {
        Pending::Calibration
    } else {
        Pending::Nothing
    }
}

/// Reads the command line `args`, program name first.
pub fn parse_args(args: &Vec<String>) -> (r: Result<Command, ArgError>)
    ensures
        outcome_of(r) == parse_outcome(args@.map_values(|a: String| a@)),
{
    let ghost words = args@.map_values(|a: String| a@);
    if args.len() < 2 {
        return Ok(Command::Help);
    }
    let mut s = Settings {
        mode: SSTVMode::S1,
        volume: None,
        sample_rate: 44100,
        infile: String::new(),
        outfile: "out.wav".to_owned(),
        calibration: true,
    };
    let mut p = Pending::Nothing;
    let mut i: usize = 0;
    proof {
        assert(s@ == default_settings());
        assert(words.skip(0) =~= words);
    }
    while i < args.len()
        invariant
            words == args@.map_values(|a: String| a@),
            words.len() >= 2,
            i <= args@.len(),
            parse_outcome(words) == parse_from(s@, p, words.skip(i as int)),
        decreases args@.len() - i,
    {
        let a: &str = args[i].as_str();
        let ghost here = words.skip(i as int);
        proof {
            assert(here[0] == a@);
            assert(here.drop_first() =~= words.skip(i + 1));
        }
        match p {
            Pending::Mode => {
                match SSTVMode::from_name(a) {
                    Some(m) => s.mode = m,
                    None => return Err(ArgError::InvalidMode(a.to_owned())),
                }
            },
            Pending::Volume => {
                s.volume = Some(a.to_owned());
            },
            Pending::SampleRate => {
                match parse_u32(a) {
                    Some(n) => s.sample_rate = n,
                    None => return Err(ArgError::InvalidSampleRate(a.to_owned())),
                }
            },
            Pending::Output => {
                s.outfile = a.to_owned();
            },
            Pending::Calibration => {
                let w = lowercase(a);
                match calibration_value(w.as_str()) {
                    Some(b) => s.calibration = b,
                    None => return Err(ArgError::InvalidCalibration(a.to_owned())),
                }
            },
            Pending::Nothing => {
                if text_is(a, "-h") || text_is(a, "--help") {
                    return Ok(Command::Help);
                } else if text_is(a, "--version") {
                    return Ok(Command::Version);
                }
            },
        }
        if p == Pending::Nothing {
            let f = flag_value(a);
            if f == Pending::Nothing {
                s.infile = a.to_owned();
            }
            p = f;
        } else {
            p = Pending::Nothing;
        }
        i = i + 1;
    }
    proof {
        assert(words.skip(i as int) =~= Seq::<Seq<char>>::empty());
    }
    Ok(Command::Run(s))
}

} // verus!
