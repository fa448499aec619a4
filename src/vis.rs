use vstd::prelude::*;
use vstd::arithmetic::div_mod::lemma_mod_breakdown;
use crate::tone::{Tone, tone, fixed_tone, NS_PER_MS, PITCH_PER_HZ, total_ns};

verus! {

/// Bit `i` of `code`, counting from the least significant.
pub open spec fn bit(code: int, i: nat) -> bool
    decreases i,
{
    if i == 0 {
        code % 2 == 1
    } else {
        bit(code / 2, (i - 1) as nat)
    }
}

/// The number of 1-bits among the lowest `n` bits of `code`.
pub open spec fn ones_below(code: int, n: nat) -> nat
    decreases n,
{
    if n == 0 {
        0
    } else {
        ones_below(code, (n - 1) as nat) + if bit(code, (n - 1) as nat) {
            1nat
        } else {
            0nat
        }
    }
}

/// The even-parity completion of the seven data bits of `code`.
pub open spec fn vis_parity(code: u8) -> bool {
    ones_below(code as int, 7) % 2 == 1
}

/// A VIS data or parity bit: 1100 Hz for 1, 1300 Hz for 0, 30 ms.
pub open spec fn bit_tone(b: bool) -> Tone {
    tone(if b { 1100 } else { 1300 }, 30 * NS_PER_MS)
}

/// The calibration prelude: eight 100 ms tones.
pub open spec fn calibration_tones() -> Seq<Tone> {
    let ms = 100 * NS_PER_MS;
    seq![
        tone(1900, ms),
        tone(1500, ms),
        tone(1900, ms),
        tone(1500, ms),
        tone(2300, ms),
        tone(1500, ms),
        tone(2300, ms),
        tone(1500, ms),
    ]
}

/// The VIS header for `code`: leader, break, leader, start bit, seven data
/// bits least significant first, parity bit, stop bit.
pub open spec fn vis_tones(code: u8) -> Seq<Tone> {
    seq![
        tone(1900, 300 * NS_PER_MS),
        tone(1200, 10 * NS_PER_MS),
        tone(1900, 300 * NS_PER_MS),
        tone(1200, 30 * NS_PER_MS),
    ] + Seq::new(7, |i: int| bit_tone(bit(code as int, i as nat))) + seq![
        bit_tone(vis_parity(code)),
        tone(1200, 30 * NS_PER_MS),
    ]
}

/// Everything sent before the first scanline.
pub open spec fn header_tones(code: u8, calibration: bool) -> Seq<Tone> {
    if calibration {
        calibration_tones() + vis_tones(code)
    } else {
        vis_tones(code)
    }
}

/// Whether a tone is the 1100 Hz mark of a 1-bit.
pub open spec fn is_mark(t: Tone) -> bool {
    t.pitch == 1100 * PITCH_PER_HZ
}

/// The number written by a sequence of bits, least significant first.
pub open spec fn bits_value(b: Seq<bool>) -> int
    decreases b.len(),
{
    if b.len() == 0 {
        0
    } else {
        (if b[0] {
            1int
        } else {
            0int
        }) + 2 * bits_value(b.drop_first())
    }
}

/// The number of marks in a tone sequence.
pub open spec fn count_marks(t: Seq<Tone>) -> nat
    decreases t.len(),
{
    if t.len() == 0 {
        0
    } else {
        count_marks(t.drop_last()) + if is_mark(t.last()) {
            1nat
        } else {
            0nat
        }
    }
}

pub open spec fn two_to(n: nat) -> int
    decreases n,
{
    if n == 0 {
        1
    } else {
        2 * two_to((n - 1) as nat)
    }
}

proof fn lemma_two_to_pos(n: nat)
    ensures
        two_to(n) > 0,
    decreases n,
{
    if n > 0 {
        lemma_two_to_pos((n - 1) as nat);
    }
}

/// The lowest `n` bits of `code` read back as a number are `code % 2^n`.
proof fn lemma_bits_value(code: int, n: nat)
    requires
        code >= 0,
    ensures
        bits_value(Seq::new(n, |i: int| bit(code, i as nat))) == code % two_to(n),
    decreases n,
{
    let b = Seq::new(n, |i: int| bit(code, i as nat));
    if n > 0 {
        let rest = Seq::new((n - 1) as nat, |i: int| bit(code / 2, i as nat));
        assert(b.drop_first() =~= rest);
        lemma_bits_value(code / 2, (n - 1) as nat);
        lemma_two_to_pos((n - 1) as nat);
        lemma_mod_breakdown(code, 2, two_to((n - 1) as nat));
    }
}

/// The marks of the data tones count the 1-bits of the code.
proof fn lemma_count_marks_bits(code: u8, n: nat)
    requires
        n <= 7,
    ensures
        count_marks(Seq::new(n, |i: int| bit_tone(bit(code as int, i as nat)))) == ones_below(
            code as int,
            n,
        ),
    decreases n,
{
    let s = Seq::new(n, |i: int| bit_tone(bit(code as int, i as nat)));
    if n > 0 {
        assert(s.drop_last() =~= Seq::new(
            (n - 1) as nat,
            |i: int| bit_tone(bit(code as int, i as nat)),
        ));
        lemma_count_marks_bits(code, (n - 1) as nat);
    }
}

proof fn lemma_count_marks_concat(a: Seq<Tone>, b: Seq<Tone>)
    ensures
        count_marks(a + b) == count_marks(a) + count_marks(b),
    decreases b.len(),
{
    if b.len() == 0 {
        assert(a + b =~= a);
    } else {
        lemma_count_marks_concat(a, b.drop_last());
        assert((a + b).drop_last() =~= a + b.drop_last());
    }
}

/// Reading the VIS header back recovers the mode code: the seven data tones,
/// taken as 1 where they sit at 1100 Hz, spell `code` least significant bit
/// first, and the data and parity tones together hold an even number of
/// 1-bits.
pub proof fn lemma_vis_round_trip(code: u8)
    requires
        code < 128,
    ensures
        bits_value(vis_tones(code).subrange(4, 11).map_values(|t: Tone| is_mark(t))) == code,
        count_marks(vis_tones(code).subrange(4, 12)) % 2 == 0,
{
    let v = vis_tones(code);
    let data = Seq::new(7, |i: int| bit_tone(bit(code as int, i as nat)));
    assert(v.subrange(4, 11) =~= data);
    let bits = Seq::new(7, |i: int| bit(code as int, i as nat));
    assert(data.map_values(|t: Tone| is_mark(t)) =~= bits);
    lemma_bits_value(code as int, 7);
    assert(two_to(7) == 128) by {
        reveal_with_fuel(two_to, 8);
    }
    assert(v.subrange(4, 12) =~= data + seq![bit_tone(vis_parity(code))]);
    lemma_count_marks_concat(data, seq![bit_tone(vis_parity(code))]);
    lemma_count_marks_bits(code, 7);
    assert(count_marks(seq![bit_tone(vis_parity(code))]) == if vis_parity(code) {
        1nat
    } else {
        0nat
    }) by {
        let one = seq![bit_tone(vis_parity(code))];
        assert(one.drop_last() =~= Seq::<Tone>::empty());
        assert(count_marks(one.drop_last()) == 0);
        assert(one.last() == bit_tone(vis_parity(code)));
    }
}

/// Appends the calibration prelude (when asked for) and the VIS header for
/// `vis_code` to `out`.
pub fn write_vis(out: &mut Vec<Tone>, vis_code: u8, incl_calibration: bool)
    ensures
        final(out)@ == old(out)@ + header_tones(vis_code, incl_calibration),
{
    let ghost start = out@;
    if incl_calibration {
        let ms: u64 = 100 * NS_PER_MS;
        out.push(fixed_tone(1900, ms));
        out.push(fixed_tone(1500, ms));
        out.push(fixed_tone(1900, ms));
        out.push(fixed_tone(1500, ms));
        out.push(fixed_tone(2300, ms));
        out.push(fixed_tone(1500, ms));
        out.push(fixed_tone(2300, ms));
        out.push(fixed_tone(1500, ms));
        assert(out@ =~= start + calibration_tones());
    }
    let ghost before_vis = out@;
    out.push(fixed_tone(1900, 300 * NS_PER_MS));
    out.push(fixed_tone(1200, 10 * NS_PER_MS));
    out.push(fixed_tone(1900, 300 * NS_PER_MS));
    out.push(fixed_tone(1200, 30 * NS_PER_MS));
    let ghost lead = out@;
    let mut code: u8 = vis_code;
    let mut parity = false;
    let mut i: u8 = 0;
    while i < 7
        invariant
            i <= 7,
            out@ == lead + Seq::new(i as nat, |j: int| bit_tone(bit(vis_code as int, j as nat))),
            forall|j: nat| #[trigger] bit(code as int, j) == bit(vis_code as int, j + i as nat),
            parity == (ones_below(vis_code as int, i as nat) % 2 == 1),
        decreases 7 - i,
    {
        let ghost prev = out@;
        let one = code % 2 == 1;
        assert(one == bit(vis_code as int, i as nat)) by {
            assert(bit(code as int, 0) == bit(vis_code as int, 0 + i as nat));
        }
        if one {
            out.push(fixed_tone(1100, 30 * NS_PER_MS));
            parity = !parity;
        } else {
            out.push(fixed_tone(1300, 30 * NS_PER_MS));
        }
        let ghost old_code = code;
        code = code / 2;
        assert forall|j: nat| #[trigger] bit(code as int, j) == bit(vis_code as int, j + (i + 1) as nat) by {
            assert(bit(old_code as int, j + 1) == bit(code as int, j));
            assert(bit(old_code as int, j + 1) == bit(vis_code as int, (j + 1) + i as nat));
        }
        i = i + 1;
        assert(out@ =~= lead + Seq::new(i as nat, |j: int| bit_tone(bit(vis_code as int, j as nat))));
    }
    out.push(fixed_tone(if parity { 1100 } else { 1300 }, 30 * NS_PER_MS));
    out.push(fixed_tone(1200, 30 * NS_PER_MS));
    assert(out@ =~= before_vis + vis_tones(vis_code));
    assert(out@ =~= start + header_tones(vis_code, incl_calibration));
}

} // verus!
