//! The average of a student's marks.
//!
//! The average is the quotient of two 32-bit counts in double-precision
//! binary floating point: of all the numbers `m / 2^e` with a 53-bit `m`, the
//! one nearest to the exact quotient. The library computes that number in
//! integers, as the pair of `m` and `2^e`, so that every comparison and every
//! printed digit is exact and can be reasoned about.

use vstd::prelude::*;
use vstd::arithmetic::div_mod::{lemma_fundamental_div_mod, lemma_mod_bound};
use crate::text::{push_two_places, two_places};

verus! {

/// The least significand of a normal double-precision number, 2^52.
pub const SIGNIFICAND_MIN: u64 = 0x10_0000_0000_0000;

/// A non-negative number `significand / scale`.
pub struct Dyadic {
    pub significand: nat,
    pub scale: nat,
}

impl Dyadic {
    /// The number zero.
    pub open spec fn zero() -> Dyadic {
        Dyadic { significand: 0, scale: 1 }
    }

    /// `self >= bound`.
    pub open spec fn at_least(self, bound: nat) -> bool {
        self.significand >= bound * self.scale
    }

    /// `self <= other`, for positive scales.
    pub open spec fn le(self, other: Dyadic) -> bool {
        self.significand * other.scale <= other.significand * self.scale
    }

    /// The number of hundredths nearest to `self`, the even one of two that
    /// are equally near.
    pub open spec fn hundredths(self) -> nat {
        round_half_even(100 * self.significand, self.scale)
    }
}

/// `n / d` rounded to the nearest integer. A quotient that lies exactly
/// halfway between two integers goes to the even one.
pub open spec fn round_half_even(n: nat, d: nat) -> nat {
    let q = n / d;
    let r = n % d;
    if 2 * r < d || (2 * r == d && q % 2 == 0) {
        q
    } else {
        q + 1
    }
}

/// The least power of two that takes `total / subjects` to 2^52 or above,
/// and 1 where `total` is zero.
pub open spec fn binary_scale(total: nat, subjects: nat) -> nat
    decreases 2 * (SIGNIFICAND_MIN * subjects) - total,
{
    if total == 0 || total >= SIGNIFICAND_MIN * subjects {
        1
    } else {
        2 * binary_scale(2 * total, subjects)
    }
}

/// The average of `total` marks over `subjects` subjects: zero without
/// subjects, else the quotient rounded to 53 significant bits.
pub open spec fn average_of(total: nat, subjects: nat) -> Dyadic {
    if subjects == 0 {
        Dyadic::zero()
    } else {
        let scale = binary_scale(total, subjects);
        Dyadic { significand: round_half_even(total * scale, subjects), scale }
    }
}

/// An average of marks: zero, or a quotient rounded to 53 significant bits.
#[derive(Clone, Copy, Debug)]
pub struct Average {
    significand: u64,
    scale: u128,
}

impl View for Average {
    type V = Dyadic;

    closed spec fn view(&self) -> Dyadic {
        Dyadic { significand: self.significand as nat, scale: self.scale as nat }
    }
}

impl Average {
    #[verifier::type_invariant]
    spec fn bounded(self) -> bool {
        &&& 1 <= self.scale <= 0x20_0000_0000_0000_0000_0000
        &&& self.significand <= 2 * SIGNIFICAND_MIN
    }

    /// The average of `total_marks` over `num_subjects` subjects.
    pub fn of(total_marks: u32, num_subjects: u32) -> (average: Average)
        ensures
            average@ == average_of(total_marks as nat, num_subjects as nat),
    {
        if num_subjects == 0 || total_marks == 0 {
            return Average { significand: 0, scale: 1 };
        }
        let subjects: u128 = num_subjects as u128;
        let normal: u128 = SIGNIFICAND_MIN as u128 * subjects;
        let mut scaled: u128 = total_marks as u128;
        let mut scale: u128 = 1;
        while scaled < normal
            invariant
                normal == SIGNIFICAND_MIN * subjects,
                0 < subjects < 0x1_0000_0000,
                0 < scale <= scaled < 2 * normal,
                scaled == total_marks * scale,
                binary_scale(total_marks as nat, subjects as nat) == scale * binary_scale(
                    scaled as nat,
                    subjects as nat,
                ),
            decreases 2 * normal - scaled,
        {
            proof {
                let inner = binary_scale(2 * scaled as nat, subjects as nat);
                assert(scale * (2 * inner) == (2 * scale) * inner) by (nonlinear_arith);
                assert(2 * (total_marks * scale) == total_marks * (2 * scale))
                    by (nonlinear_arith);
            }
            scaled = 2 * scaled;
            scale = 2 * scale;
        }
        let significand: u128 = round_half_even_u128(scaled, subjects);
        proof {
            let rest = binary_scale(scaled as nat, subjects as nat);
            assert(scale * rest == scale) by (nonlinear_arith)
                requires
                    rest == 1,
            ;
            lemma_round_half_even_nearest(scaled as nat, subjects as nat);
            assert(significand <= 2 * SIGNIFICAND_MIN) by (nonlinear_arith)
                requires
                    -subjects <= 2 * (scaled - significand * subjects) <= subjects,
                    scaled < 2 * (SIGNIFICAND_MIN * subjects),
                    subjects > 0,
            ;
        }
        Average { significand: significand as u64, scale }
    }

    /// The numerator of the average.
    pub fn significand(&self) -> (significand: u64)
        ensures
            significand == self@.significand,
    {
        self.significand
    }

    /// The denominator of the average, a power of two.
    pub fn scale(&self) -> (scale: u128)
        ensures
            scale == self@.scale,
    {
        self.scale
    }

    /// Whether the average is `bound` or more.
    pub fn at_least(&self, bound: u32) -> (reached: bool)
        ensures
            reached == self@.at_least(bound as nat),
    {
        proof {
            use_type_invariant(self);
            assert(bound * self.scale <= 0x1_0000_0000 * 0x20_0000_0000_0000_0000_0000)
                by (nonlinear_arith)
                requires
                    bound < 0x1_0000_0000,
                    self.scale <= 0x20_0000_0000_0000_0000_0000,
            ;
        }
        self.significand as u128 >= bound as u128 * self.scale
    }

    /// The average in hundredths, rounded to the nearest and to the even one
    /// of two.
    pub fn hundredths(&self) -> (count: u64)
        ensures
            count == self@.hundredths(),
    {
        proof {
            use_type_invariant(self);
        }
        let rounded: u128 = round_half_even_u128(100 * (self.significand as u128), self.scale);
        proof {
            lemma_round_half_even_nearest(100 * self.significand as nat, self.scale as nat);
            assert(rounded <= 200 * self.significand + 1) by (nonlinear_arith)
                requires
                    2 * (100 * self.significand - rounded * self.scale) >= -self.scale,
                    self.scale >= 1,
            ;
        }
        rounded as u64
    }

    /// The average as a decimal number with two places after the point.
    pub fn to_text(&self) -> (text: String)
        ensures
            text@ == two_places(self@.hundredths()),
    {
        let mut text = String::new();
        push_two_places(&mut text, self.hundredths());
        text
    }
}

/// `n / d`, rounded to the nearest integer and to the even one of two.
fn round_half_even_u128(n: u128, d: u128) -> (rounded: u128)
    requires
        d > 0,
        n < u128::MAX,
    ensures
        rounded == round_half_even(n as nat, d as nat),
{
    let q: u128 = n / d;
    let r: u128 = n % d;
    proof {
        lemma_fundamental_div_mod(n as int, d as int);
        assert(q <= n) by (nonlinear_arith)
            requires
                n == d * q + r,
                d > 0,
                r >= 0,
                q >= 0,
        ;
    }
    if r < d - r || (r == d - r && q % 2 == 0) {
        q
    } else {
        q + 1
    }
}

/// The rounded quotient is within half a unit of the exact one.
pub proof fn lemma_round_half_even_nearest(n: nat, d: nat)
    requires
        d > 0,
    ensures
        -d <= 2 * (n - round_half_even(n, d) * d) <= d,
{
    lemma_fundamental_div_mod(n as int, d as int);
    lemma_mod_bound(n as int, d as int);
    let q = n / d;
    assert((q + 1) * d == q * d + d) by (nonlinear_arith);
    assert(d * q == q * d) by (nonlinear_arith);
}

/// Rounding keeps the order of the numerators.
pub proof fn lemma_round_half_even_monotonic(n1: nat, n2: nat, d: nat)
    requires
        d > 0,
        n1 <= n2,
    ensures
        round_half_even(n1, d) <= round_half_even(n2, d),
{
    lemma_round_half_even_nearest(n1, d);
    lemma_round_half_even_nearest(n2, d);
    let h1 = round_half_even(n1, d);
    let h2 = round_half_even(n2, d);
    if h1 > h2 {
        assert(h1 * d >= h2 * d + d) by (nonlinear_arith)
            requires
                h1 >= h2 + 1,
                d > 0,
        ;
    }
}

/// A multiple of the denominator is divided without rounding.
pub proof fn lemma_round_half_even_exact(k: nat, d: nat)
    requires
        d > 0,
    ensures
        round_half_even(k * d, d) == k,
{
    lemma_round_half_even_nearest(k * d, d);
    let h = round_half_even(k * d, d);
    assert(h == k) by (nonlinear_arith)
        requires
            -d <= 2 * (k * d - h * d) <= d,
            d > 0,
    ;
}

/// The scale of a positive sum takes the quotient to 2^52 or above, and not
/// to 2^53 where the quotient was below that.
pub proof fn lemma_binary_scale_normalizes(total: nat, subjects: nat)
    requires
        total > 0,
        subjects > 0,
    ensures
        binary_scale(total, subjects) >= 1,
        total * binary_scale(total, subjects) >= SIGNIFICAND_MIN * subjects,
        total < 2 * (SIGNIFICAND_MIN * subjects) ==> total * binary_scale(total, subjects) < 2 * (
        SIGNIFICAND_MIN * subjects),
    decreases 2 * (SIGNIFICAND_MIN * subjects) - total,
{
    if total < SIGNIFICAND_MIN * subjects {
        lemma_binary_scale_normalizes(2 * total, subjects);
        let inner = binary_scale(2 * total, subjects);
        assert(total * (2 * inner) == (2 * total) * inner) by (nonlinear_arith);
    }
}

/// A larger sum has the same scale as a smaller one, or at most half of it.
pub proof fn lemma_binary_scale_steps(smaller: nat, larger: nat, subjects: nat)
    requires
        0 < smaller <= larger,
        subjects > 0,
    ensures
        binary_scale(larger, subjects) == binary_scale(smaller, subjects) || 2 * binary_scale(
            larger,
            subjects,
        ) <= binary_scale(smaller, subjects),
    decreases 2 * (SIGNIFICAND_MIN * subjects) - smaller,
{
    if larger < SIGNIFICAND_MIN * subjects {
        lemma_binary_scale_steps(2 * smaller, 2 * larger, subjects);
    } else if smaller < SIGNIFICAND_MIN * subjects {
        lemma_binary_scale_normalizes(2 * smaller, subjects);
    }
}

/// The significand of the average of a positive sum has 53 bits, or is 2^53.
pub proof fn lemma_average_normal(total: nat, subjects: nat)
    requires
        total > 0,
        subjects > 0,
    ensures
        average_of(total, subjects).scale >= 1,
        average_of(total, subjects).significand >= SIGNIFICAND_MIN,
        total < 2 * (SIGNIFICAND_MIN * subjects) ==> average_of(total, subjects).significand <= 2
            * SIGNIFICAND_MIN,
{
    lemma_binary_scale_normalizes(total, subjects);
    let scale = binary_scale(total, subjects);
    let significand = round_half_even(total * scale, subjects);
    lemma_round_half_even_nearest(total * scale, subjects);
    assert(significand >= SIGNIFICAND_MIN) by (nonlinear_arith)
        requires
            2 * (total * scale - significand * subjects) <= subjects,
            total * scale >= SIGNIFICAND_MIN * subjects,
            subjects > 0,
    ;
    if total < 2 * (SIGNIFICAND_MIN * subjects) {
        assert(significand <= 2 * SIGNIFICAND_MIN) by (nonlinear_arith)
            requires
                -subjects <= 2 * (total * scale - significand * subjects),
                total * scale < 2 * (SIGNIFICAND_MIN * subjects),
                subjects > 0,
        ;
    }
}

/// The average lies within half a unit in the last place of the exact
/// quotient: `|significand / scale - total / subjects| <= 1 / (2 * scale)`.
pub proof fn lemma_average_nearest(total: nat, subjects: nat)
    requires
        subjects > 0,
    ensures
        ({
            let average = average_of(total, subjects);
            -subjects <= 2 * (total * average.scale - average.significand * subjects) <= subjects
        }),
{
    lemma_round_half_even_nearest(total * binary_scale(total, subjects), subjects);
}

/// For a fixed number of subjects the average does not fall when the sum of
/// the marks grows.
pub proof fn lemma_average_monotonic(smaller: nat, larger: nat, subjects: nat)
    requires
        smaller <= larger,
        subjects > 0,
    ensures
        average_of(smaller, subjects).le(average_of(larger, subjects)),
{
    let low = average_of(smaller, subjects);
    let high = average_of(larger, subjects);
    if smaller == 0 {
        lemma_round_half_even_exact(0, subjects);
        assert(low.significand * high.scale == 0) by (nonlinear_arith)
            requires
                low.significand == 0,
        ;
    } else {
        lemma_binary_scale_steps(smaller, larger, subjects);
        lemma_average_normal(smaller, subjects);
        lemma_average_normal(larger, subjects);
        if high.scale == low.scale {
            assert(smaller * low.scale <= larger * low.scale) by (nonlinear_arith)
                requires
                    smaller <= larger,
            ;
            lemma_round_half_even_monotonic(
                smaller * low.scale,
                larger * low.scale,
                subjects,
            );
            assert(low.significand * high.scale <= high.significand * low.scale)
                by (nonlinear_arith)
                requires
                    low.significand <= high.significand,
                    high.scale == low.scale,
            ;
        } else {
            assert(low.significand * high.scale <= high.significand * low.scale)
                by (nonlinear_arith)
                requires
                    low.significand <= 2 * SIGNIFICAND_MIN,
                    high.significand >= SIGNIFICAND_MIN,
                    2 * high.scale <= low.scale,
                    high.scale >= 1,
            ;
        }
    }
}

/// Rounding the quotient does not move the average across a whole number of
/// marks: the average is `bound` or more exactly where the marks sum to
/// `bound` for each subject, or more.
pub proof fn lemma_at_least_is_exact(total: nat, subjects: nat, bound: nat)
    requires
        subjects > 0,
        bound * subjects <= SIGNIFICAND_MIN,
    ensures
        average_of(total, subjects).at_least(bound) <==> total >= bound * subjects,
{
    let average = average_of(total, subjects);
    let scale = average.scale;
    let significand = average.significand;
    lemma_average_nearest(total, subjects);
    if total >= bound * subjects {
        assert(significand >= bound * scale) by (nonlinear_arith)
            requires
                2 * (total * scale - significand * subjects) <= subjects,
                total >= bound * subjects,
                subjects > 0,
                scale >= 0,
        ;
    } else if total == 0 {
        lemma_round_half_even_exact(0, subjects);
        assert(bound * scale >= 1) by (nonlinear_arith)
            requires
                bound * subjects > 0,
                scale == 1,
        ;
    } else {
        lemma_binary_scale_normalizes(total, subjects);
        assert(scale > subjects) by (nonlinear_arith)
            requires
                total * scale >= SIGNIFICAND_MIN * subjects,
                total < bound * subjects,
                bound * subjects <= SIGNIFICAND_MIN,
                subjects > 0,
                scale >= 1,
        ;
        assert(significand < bound * scale) by (nonlinear_arith)
            requires
                -subjects <= 2 * (total * scale - significand * subjects),
                total + 1 <= bound * subjects,
                scale > subjects,
                subjects > 0,
        ;
    }
}

/// An average that is a whole number of marks is held without error, and so
/// are its hundredths.
pub proof fn lemma_whole_average(marks: nat, subjects: nat)
    requires
        subjects > 0,
    ensures
        ({
            let average = average_of(marks * subjects, subjects);
            average.significand == marks * average.scale
        }),
        average_of(marks * subjects, subjects).hundredths() == 100 * marks,
{
    let average = average_of(marks * subjects, subjects);
    let scale = average.scale;
    assert(scale >= 1) by {
        if marks * subjects > 0 {
            lemma_binary_scale_normalizes(marks * subjects, subjects);
        }
    }
    assert((marks * subjects) * scale == (marks * scale) * subjects) by (nonlinear_arith);
    lemma_round_half_even_exact(marks * scale, subjects);
    assert(100 * (marks * scale) == (100 * marks) * scale) by (nonlinear_arith);
    lemma_round_half_even_exact(100 * marks, scale);
}

/// The hundredths of an average, read as a decimal number, lie within 0.005
/// of the average.
pub proof fn lemma_hundredths_nearest(average: Dyadic)
    requires
        average.scale > 0,
    ensures
        -average.scale <= 2 * (100 * average.significand - average.hundredths() * average.scale)
            <= average.scale,
{
    lemma_round_half_even_nearest(100 * average.significand, average.scale);
}

} // verus!
