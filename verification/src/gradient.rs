//! The colour gradient of the heatmap: six stops, from black over blue,
//! cyan, green and yellow to red, with straight lines between them.
//!
//! A point on the gradient is given as a fraction, a numerator over a
//! denominator, and everything is computed in whole numbers: the colour of a
//! fraction is exact, with each channel rounded towards the stop below it.

use vstd::prelude::*;
use crate::color::{Channel, Color};

verus! {

/// The number of steps between the stops.
pub const STEPS: u64 = 5;

/// The stops of the gradient, in order.
pub open spec fn gradient() -> Seq<Color> {
    seq![
        Color { red: 0, green: 0, blue: 0 },
        Color { red: 0, green: 0, blue: 255 },
        Color { red: 0, green: 255, blue: 255 },
        Color { red: 0, green: 255, blue: 0 },
        Color { red: 255, green: 255, blue: 0 },
        Color { red: 255, green: 0, blue: 0 },
    ]
}

/// The channel that lies the fraction `part / whole` of the way from `lo`
/// to `hi`. The distance gone is rounded down, so the result is rounded
/// towards `lo`.
pub open spec fn spec_blend(lo: u8, hi: u8, part: nat, whole: nat) -> u8 {
    if hi >= lo {
        (lo + ((hi - lo) * part) / (whole as int)) as u8
    } else {
        (lo - ((lo - hi) * part) / (whole as int)) as u8
    }
}

/// The stop below the fraction `num / den`, for a fraction under one.
pub open spec fn spec_segment(num: nat, den: nat) -> int {
    (STEPS * num) / (den as int)
}

/// How far the fraction `num / den` lies above the stop below it, in
/// `den`-ths of a step.
pub open spec fn spec_offset(num: nat, den: nat) -> nat {
    ((STEPS * num) % (den as int)) as nat
}

/// The colour of the gradient at the fraction `num / den`: the first stop
/// at zero, the last stop at one and above, and between two stops each
/// channel on the straight line from the one to the other.
pub open spec fn spec_interpolate(num: nat, den: nat) -> Color
    recommends
        den > 0,
{
    if num == 0 {
        gradient()[0]
    } else if num >= den {
        gradient()[STEPS as int]
    } else {
        let lo = gradient()[spec_segment(num, den)];
        let hi = gradient()[spec_segment(num, den) + 1];
        let part = spec_offset(num, den);
        Color {
            red: spec_blend(lo.red, hi.red, part, den),
            green: spec_blend(lo.green, hi.green, part, den),
            blue: spec_blend(lo.blue, hi.blue, part, den),
        }
    }
}

/// Whether `c` lies between `a` and `b`, whichever of the two is larger.
pub open spec fn between(a: u8, c: u8, b: u8) -> bool {
    (a <= c <= b) || (b <= c <= a)
}

/// A blend of two channels lies between them.
pub proof fn lemma_blend_between(lo: u8, hi: u8, part: nat, whole: nat)
    requires
        whole > 0,
        part < whole,
    ensures
        between(lo, spec_blend(lo, hi, part, whole), hi),
        part == 0 ==> spec_blend(lo, hi, part, whole) == lo,
{
    let span: int = if hi >= lo { hi - lo } else { lo - hi };
    let gone: int = (span * part) / (whole as int);
    assert(0 <= gone <= span) by (nonlinear_arith)
        requires
            0 <= span,
            0 <= part < whole,
            gone == (span * part) / (whole as int),
    ;
    assert(part == 0 ==> gone == 0) by (nonlinear_arith)
        requires
            whole > 0,
            gone == (span * part) / (whole as int),
    ;
}

/// A fraction under one has one of the five steps below it and lies less
/// than one step above it.
pub proof fn lemma_segment_bounds(num: nat, den: nat)
    requires
        num < den,
    ensures
        0 <= spec_segment(num, den) < STEPS,
        spec_offset(num, den) < den,
        STEPS * num == spec_segment(num, den) * den + spec_offset(num, den),
{
    let scaled: int = STEPS * num;
    let d: int = den as int;
    assert(0 <= scaled / d < 5 && 0 <= scaled % d < d && scaled == (scaled / d) * d + scaled % d)
        by (nonlinear_arith)
        requires
            0 <= scaled < 5 * d,
            d > 0,
    ;
}

/// Of two fractions of the way from `lo` to `hi`, the larger one leads at
/// least as far: its blend is nearer to `hi`, or the same.
pub proof fn lemma_blend_monotonic(lo: u8, hi: u8, part1: nat, whole1: nat, part2: nat, whole2: nat)
    requires
        part1 < whole1,
        part2 < whole2,
        part1 * whole2 <= part2 * whole1,
    ensures
        lo <= hi ==> spec_blend(lo, hi, part1, whole1) <= spec_blend(lo, hi, part2, whole2),
        lo >= hi ==> spec_blend(lo, hi, part1, whole1) >= spec_blend(lo, hi, part2, whole2),
{
    let span: int = if hi >= lo { hi - lo } else { lo - hi };
    let w1: int = whole1 as int;
    let w2: int = whole2 as int;
    let gone1: int = (span * part1) / w1;
    let gone2: int = (span * part2) / w2;
    assert(0 <= gone1 <= span) by (nonlinear_arith)
        requires
            0 <= span,
            0 <= part1 < w1,
            gone1 == (span * part1) / w1,
    ;
    assert(0 <= gone2 <= span) by (nonlinear_arith)
        requires
            0 <= span,
            0 <= part2 < w2,
            gone2 == (span * part2) / w2,
    ;
    assert(gone1 * w1 <= span * part1) by (nonlinear_arith)
        requires
            w1 > 0,
            gone1 == (span * part1) / w1,
    ;
    assert(span * part2 < (gone2 + 1) * w2) by (nonlinear_arith)
        requires
            w2 > 0,
            gone2 == (span * part2) / w2,
    ;
    assert(gone1 <= gone2) by (nonlinear_arith)
        requires
            w1 > 0,
            w2 > 0,
            span >= 0,
            gone1 * w1 <= span * part1,
            span * part2 < (gone2 + 1) * w2,
            part1 * w2 <= part2 * w1,
    {
        if gone1 >= gone2 + 1 {
            assert(gone1 * w1 * w2 <= span * part1 * w2);
            assert(span * part1 * w2 <= span * part2 * w1);
            assert(span * part2 * w1 < (gone2 + 1) * w2 * w1);
            assert((gone2 + 1) * w2 * w1 <= gone1 * w1 * w2);
        }
    }
}

/// At zero the gradient shows its first stop; at one, and above, its last.
pub proof fn lemma_interpolate_ends(num: nat, den: nat)
    requires
        den > 0,
    ensures
        spec_interpolate(0, den) == gradient()[0],
        num >= den ==> spec_interpolate(num, den) == gradient()[STEPS as int],
{
}

/// At the fraction `index / 5` the gradient shows the stop with that
/// number.
pub proof fn lemma_interpolate_at_stop(index: nat, den: nat)
    requires
        index <= STEPS,
        den > 0,
    ensures
        spec_interpolate(index * den, 5 * den) == gradient()[index as int],
{
    let num: nat = index * den;
    let whole: nat = 5 * den;
    assert(num < whole <==> index < 5) by (nonlinear_arith)
        requires
            den > 0,
            num == index * den,
            whole == 5 * den,
    ;
    if 0 < index < 5 {
        assert(num > 0) by (nonlinear_arith)
            requires
                index > 0,
                den > 0,
                num == index * den,
        ;
        let scaled: int = STEPS * num;
        assert(scaled == index * whole + 0) by (nonlinear_arith)
            requires
                scaled == 5 * num,
                num == index * den,
                whole == 5 * den,
        ;
        vstd::arithmetic::div_mod::lemma_fundamental_div_mod_converse(
            scaled,
            whole as int,
            index as int,
            0,
        );
        assert(spec_segment(num, whole) == index);
        assert(spec_offset(num, whole) == 0);
        let lo = gradient()[index as int];
        let hi = gradient()[index as int + 1];
        lemma_blend_between(lo.red, hi.red, 0, whole);
        lemma_blend_between(lo.green, hi.green, 0, whole);
        lemma_blend_between(lo.blue, hi.blue, 0, whole);
    } else if index == 0 {
        assert(num == 0) by (nonlinear_arith)
            requires
                index == 0,
                num == index * den,
        ;
    }
}

/// Between two stops every channel of the gradient lies between that
/// channel of the stop below and that of the stop above.
pub proof fn lemma_interpolate_between(num: nat, den: nat)
    requires
        num < den,
    ensures
        0 <= spec_segment(num, den) < STEPS,
        ({
            let lo = gradient()[spec_segment(num, den)];
            let hi = gradient()[spec_segment(num, den) + 1];
            let c = spec_interpolate(num, den);
            &&& between(lo.red, c.red, hi.red)
            &&& between(lo.green, c.green, hi.green)
            &&& between(lo.blue, c.blue, hi.blue)
        }),
{
    lemma_segment_bounds(num, den);
    let lo = gradient()[spec_segment(num, den)];
    let hi = gradient()[spec_segment(num, den) + 1];
    let part = spec_offset(num, den);
    lemma_blend_between(lo.red, hi.red, part, den);
    lemma_blend_between(lo.green, hi.green, part, den);
    lemma_blend_between(lo.blue, hi.blue, part, den);
}

/// Between two stops every channel of the gradient moves one way only:
/// of two fractions above the same stop, the larger one has each channel
/// at least as near to the stop above.
pub proof fn lemma_interpolate_monotonic(num1: nat, den1: nat, num2: nat, den2: nat)
    requires
        num1 < den1,
        num2 < den2,
        num1 * den2 <= num2 * den1,
        spec_segment(num1, den1) == spec_segment(num2, den2),
    ensures
        ({
            let lo = gradient()[spec_segment(num1, den1)];
            let hi = gradient()[spec_segment(num1, den1) + 1];
            let c1 = spec_interpolate(num1, den1);
            let c2 = spec_interpolate(num2, den2);
            &&& lo.red <= hi.red ==> c1.red <= c2.red
            &&& lo.red >= hi.red ==> c1.red >= c2.red
            &&& lo.green <= hi.green ==> c1.green <= c2.green
            &&& lo.green >= hi.green ==> c1.green >= c2.green
            &&& lo.blue <= hi.blue ==> c1.blue <= c2.blue
            &&& lo.blue >= hi.blue ==> c1.blue >= c2.blue
        }),
{
    lemma_segment_bounds(num1, den1);
    lemma_segment_bounds(num2, den2);
    let segment = spec_segment(num1, den1);
    let lo = gradient()[segment];
    let hi = gradient()[segment + 1];
    let part1 = spec_offset(num1, den1);
    let part2 = spec_offset(num2, den2);
    assert(part1 * den2 <= part2 * den1) by (nonlinear_arith)
        requires
            5 * num1 == segment * den1 + part1,
            5 * num2 == segment * den2 + part2,
            num1 * den2 <= num2 * den1,
    {
        assert(5 * num1 * den2 <= 5 * num2 * den1);
        assert((segment * den1 + part1) * den2 == segment * den1 * den2 + part1 * den2);
        assert((segment * den2 + part2) * den1 == segment * den1 * den2 + part2 * den1);
    }
    lemma_blend_monotonic(lo.red, hi.red, part1, den1, part2, den2);
    lemma_blend_monotonic(lo.green, hi.green, part1, den1, part2, den2);
    lemma_blend_monotonic(lo.blue, hi.blue, part1, den1, part2, den2);
    if num1 == 0 {
        assert(segment == 0 && part1 == 0) by (nonlinear_arith)
            requires
                num1 == 0,
                den1 > 0,
                5 * num1 == segment * den1 + part1,
                0 <= segment,
                0 <= part1 < den1,
        ;
        lemma_blend_between(lo.red, hi.red, 0, den1);
        lemma_blend_between(lo.green, hi.green, 0, den1);
        lemma_blend_between(lo.blue, hi.blue, 0, den1);
    }
    if num2 == 0 {
        assert(segment == 0 && part2 == 0) by (nonlinear_arith)
            requires
                num2 == 0,
                den2 > 0,
                5 * num2 == segment * den2 + part2,
                0 <= segment,
                0 <= part2 < den2,
        ;
        lemma_blend_between(lo.red, hi.red, 0, den2);
        lemma_blend_between(lo.green, hi.green, 0, den2);
        lemma_blend_between(lo.blue, hi.blue, 0, den2);
    }
}

/// The larger of two fractions under one has no lower stop below it.
pub proof fn lemma_segment_monotonic(num1: nat, den1: nat, num2: nat, den2: nat)
    requires
        num1 < den1,
        num2 < den2,
        num1 * den2 <= num2 * den1,
    ensures
        spec_segment(num1, den1) <= spec_segment(num2, den2),
{
    lemma_segment_bounds(num1, den1);
    lemma_segment_bounds(num2, den2);
    let s1 = spec_segment(num1, den1);
    let s2 = spec_segment(num2, den2);
    let r1 = spec_offset(num1, den1);
    let r2 = spec_offset(num2, den2);
    assert(s1 <= s2) by (nonlinear_arith)
        requires
            5 * num1 == s1 * den1 + r1,
            5 * num2 == s2 * den2 + r2,
            0 <= r1,
            r2 < den2,
            den1 > 0,
            den2 > 0,
            num1 * den2 <= num2 * den1,
    {
        if s1 >= s2 + 1 {
            assert(s1 * den1 * den2 <= 5 * num1 * den2);
            assert(5 * num1 * den2 <= 5 * num2 * den1);
            assert(5 * num2 * den1 < (s2 + 1) * den2 * den1);
            assert((s2 + 1) * den2 * den1 <= s1 * den1 * den2);
        }
    }
}

/// Whether the channel does not fall from any stop to the next, from the
/// stop `from` to the stop `to`.
pub open spec fn rising(channel: Channel, from: int, to: int) -> bool {
    forall|i: int| from <= i < to ==> (#[trigger] gradient()[i]).spec_channel(channel) <= gradient()[i
        + 1].spec_channel(channel)
}

/// Whether the channel does not rise from any stop to the next, from the
/// stop `from` to the stop `to`.
pub open spec fn falling(channel: Channel, from: int, to: int) -> bool {
    forall|i: int| from <= i < to ==> (#[trigger] gradient()[i]).spec_channel(channel) >= gradient()[i
        + 1].spec_channel(channel)
}

/// Over stops between which a channel does not fall, the stops further on
/// have the channel at least as high.
proof fn lemma_stops_rise(channel: Channel, from: int, to: int)
    requires
        0 <= from <= to <= STEPS,
        rising(channel, from, to),
    ensures
        gradient()[from].spec_channel(channel) <= gradient()[to].spec_channel(channel),
    decreases to - from,
{
    if from < to {
        lemma_stops_rise(channel, from, to - 1);
        assert(gradient()[to - 1].spec_channel(channel) <= gradient()[to - 1 + 1].spec_channel(
            channel,
        ));
    }
}

/// Over stops between which a channel does not rise, the stops further on
/// have the channel at most as high.
proof fn lemma_stops_fall(channel: Channel, from: int, to: int)
    requires
        0 <= from <= to <= STEPS,
        falling(channel, from, to),
    ensures
        gradient()[from].spec_channel(channel) >= gradient()[to].spec_channel(channel),
    decreases to - from,
{
    if from < to {
        lemma_stops_fall(channel, from, to - 1);
        assert(gradient()[to - 1].spec_channel(channel) >= gradient()[to - 1 + 1].spec_channel(
            channel,
        ));
    }
}

/// Where a channel does not fall from stop to stop, it does not fall along
/// the gradient; where it does not rise from stop to stop, it does not rise
/// along the gradient. This holds of any two fractions under one and the
/// stops from the one below the smaller fraction to the one above the
/// larger: red, which never falls from stop to stop, never falls at all.
pub proof fn lemma_interpolate_follows_stops(
    channel: Channel,
    num1: nat,
    den1: nat,
    num2: nat,
    den2: nat,
)
    requires
        num1 < den1,
        num2 < den2,
        num1 * den2 <= num2 * den1,
    ensures
        spec_segment(num1, den1) <= spec_segment(num2, den2) < STEPS,
        rising(channel, spec_segment(num1, den1), spec_segment(num2, den2) + 1)
            ==> spec_interpolate(num1, den1).spec_channel(channel) <= spec_interpolate(
            num2,
            den2,
        ).spec_channel(channel),
        falling(channel, spec_segment(num1, den1), spec_segment(num2, den2) + 1)
            ==> spec_interpolate(num1, den1).spec_channel(channel) >= spec_interpolate(
            num2,
            den2,
        ).spec_channel(channel),
{
    let s1 = spec_segment(num1, den1);
    let s2 = spec_segment(num2, den2);
    lemma_segment_monotonic(num1, den1, num2, den2);
    lemma_interpolate_between(num1, den1);
    lemma_interpolate_between(num2, den2);
    if s1 == s2 {
        lemma_interpolate_monotonic(num1, den1, num2, den2);
        if rising(channel, s1, s2 + 1) {
            assert(gradient()[s1].spec_channel(channel) <= gradient()[s1 + 1].spec_channel(channel));
        }
        if falling(channel, s1, s2 + 1) {
            assert(gradient()[s1].spec_channel(channel) >= gradient()[s1 + 1].spec_channel(channel));
        }
    } else {
        if rising(channel, s1, s2 + 1) {
            assert(rising(channel, s1 + 1, s2));
            lemma_stops_rise(channel, s1 + 1, s2);
            assert(gradient()[s1].spec_channel(channel) <= gradient()[s1 + 1].spec_channel(channel));
            assert(gradient()[s2].spec_channel(channel) <= gradient()[s2 + 1].spec_channel(channel));
        }
        if falling(channel, s1, s2 + 1) {
            assert(falling(channel, s1 + 1, s2));
            lemma_stops_fall(channel, s1 + 1, s2);
            assert(gradient()[s1].spec_channel(channel) >= gradient()[s1 + 1].spec_channel(channel));
            assert(gradient()[s2].spec_channel(channel) >= gradient()[s2 + 1].spec_channel(channel));
        }
    }
}

/// Red never falls along the gradient.
pub proof fn lemma_red_never_falls(num1: nat, den1: nat, num2: nat, den2: nat)
    requires
        den1 > 0,
        den2 > 0,
        num1 * den2 <= num2 * den1,
    ensures
        spec_interpolate(num1, den1).red <= spec_interpolate(num2, den2).red,
{
    if num2 >= den2 {
        if num1 < den1 {
            lemma_interpolate_between(num1, den1);
        }
    } else {
        assert(num1 < den1) by (nonlinear_arith)
            requires
                num2 < den2,
                den1 > 0,
                num1 * den2 <= num2 * den1,
        {
            if num1 >= den1 {
                assert(num1 * den2 >= den1 * den2);
                assert(num2 * den1 < den2 * den1);
            }
        }
        assert(rising(Channel::Red, 0, STEPS as int));
        lemma_interpolate_follows_stops(Channel::Red, num1, den1, num2, den2);
    }
}

/// Blends one channel in whole numbers.
fn blend(lo: u8, hi: u8, part: u64, whole: u64) -> (c: u8)
    requires
        whole > 0,
        part < whole,
    ensures
        c == spec_blend(lo, hi, part as nat, whole as nat),
{
    proof {
        lemma_blend_between(lo, hi, part as nat, whole as nat);
    }
    if hi >= lo {
        assert((hi - lo) * part <= 255 * u64::MAX) by (nonlinear_arith)
            requires
                0 <= hi - lo <= 255,
                0 <= part <= u64::MAX,
        ;
        let gone: u128 = (((hi - lo) as u128) * (part as u128)) / (whole as u128);
        assert(gone <= hi - lo) by (nonlinear_arith)
            requires
                gone == ((hi - lo) * part) / (whole as int),
                0 <= part < whole,
                lo <= hi,
        ;
        lo + (gone as u8)
    } else {
        assert((lo - hi) * part <= 255 * u64::MAX) by (nonlinear_arith)
            requires
                0 <= lo - hi <= 255,
                0 <= part <= u64::MAX,
        ;
        let gone: u128 = (((lo - hi) as u128) * (part as u128)) / (whole as u128);
        assert(gone <= lo - hi) by (nonlinear_arith)
            requires
                gone == ((lo - hi) * part) / (whole as int),
                0 <= part < whole,
                hi < lo,
        ;
        lo - (gone as u8)
    }
}

/// The stop with the given number.
fn stop(index: usize) -> (c: Color)
    requires
        index <= STEPS,
    ensures
        c == gradient()[index as int],
{
    let stops: [Color; 6] = [
        Color { red: 0, green: 0, blue: 0 },
        Color { red: 0, green: 0, blue: 255 },
        Color { red: 0, green: 255, blue: 255 },
        Color { red: 0, green: 255, blue: 0 },
        Color { red: 255, green: 255, blue: 0 },
        Color { red: 255, green: 0, blue: 0 },
    ];
    stops[index]
}

/// The colour of the gradient at the fraction `num / den`.
pub fn interpolate(num: u64, den: u64) -> (c: Color)
    requires
        den > 0,
    ensures
        c == spec_interpolate(num as nat, den as nat),
{
    if num == 0 {
        stop(0)
    } else if num >= den {
        stop(5)
    } else {
        proof {
            lemma_segment_bounds(num as nat, den as nat);
        }
        let scaled: u128 = (STEPS as u128) * (num as u128);
        let segment: u128 = scaled / (den as u128);
        let part: u128 = scaled % (den as u128);
        let lo: Color = stop(segment as usize);
        let hi: Color = stop(segment as usize + 1);
        Color {
            red: blend(lo.red, hi.red, part as u64, den),
            green: blend(lo.green, hi.green, part as u64, den),
            blue: blend(lo.blue, hi.blue, part as u64, den),
        }
    }
}

} // verus!
