//! Fixed-point scores in `[0, 1]`.
//!
//! A score is the expected value of a position for White: a win counts 1, a
//! draw one half and a loss 0. It is stored as an unsigned 32-bit number with
//! 31 fractional bits, so that `bits` stands for the rational `bits / 2^31`.
//! The arithmetic is done by the `fixed` crate on `FixedU32<U31>`.

use fixed::FixedU32;
use fixed::types::extra::U31;
use vstd::prelude::*;

verus! {

/// The bit pattern of the score 1.
pub const ONE_BITS: u32 = 0x8000_0000;

/// The bit pattern of the score one half.
pub const HALF_BITS: u32 = 0x4000_0000;

/// A fixed-point number with one integer bit and 31 fractional bits.
#[derive(Clone, Copy, Debug, PartialEq, Eq, PartialOrd, Ord, Hash, Structural)]
pub struct Score {
    pub bits: u32,
}

/// The bits of the sum of two scores, if it can be represented.
pub open spec fn add_bits(a: u32, b: u32) -> Option<u32> {
    if a + b <= u32::MAX {
        Some((a + b) as u32)
    } else {
        None
    }
}

/// The bits of the difference of two scores, if it is not negative.
pub open spec fn sub_bits(a: u32, b: u32) -> Option<u32> {
    if a >= b {
        Some((a - b) as u32)
    } else {
        None
    }
}

/// The bits of the product of two scores, rounded down, if it can be
/// represented.
pub open spec fn mul_bits(a: u32, b: u32) -> Option<u32> {
    if a * b < 0x8000_0000_0000_0000 {
        Some(((a * b) / 0x8000_0000) as u32)
    } else {
        None
    }
}

/// The bits of the quotient of two scores, rounded down, if the divisor is
/// not zero and the quotient can be represented.
pub open spec fn div_bits(a: u32, b: u32) -> Option<u32> {
    if b != 0 && (a * 0x8000_0000) / (b as int) <= u32::MAX {
        Some(((a * 0x8000_0000) / (b as int)) as u32)
    } else {
        None
    }
}

/// `FixedU32::<U31>::checked_add`: the sum of the two bit patterns, or
/// `None` where it does not fit in 32 bits.
#[verifier::external_body]
fn fixed_checked_add(a: u32, b: u32) -> (r: Option<u32>)
    ensures
        r == add_bits(a, b),
{
    match FixedU32::<U31>::from_bits(a).checked_add(FixedU32::<U31>::from_bits(b)) {
        Some(x) => Some(x.to_bits()),
        None => None,
    }
}

/// `FixedU32::<U31>::checked_sub`: the difference of the two bit patterns,
/// or `None` where the second is the larger.
#[verifier::external_body]
fn fixed_checked_sub(a: u32, b: u32) -> (r: Option<u32>)
    ensures
        r == sub_bits(a, b),
{
    match FixedU32::<U31>::from_bits(a).checked_sub(FixedU32::<U31>::from_bits(b)) {
        Some(x) => Some(x.to_bits()),
        None => None,
    }
}

/// `FixedU32::<U31>::checked_mul`: the 64-bit product of the two bit
/// patterns shifted right by 31, or `None` where the doubled product does
/// not fit in 64 bits.
#[verifier::external_body]
fn fixed_checked_mul(a: u32, b: u32) -> (r: Option<u32>)
    ensures
        r == mul_bits(a, b),
{
    match FixedU32::<U31>::from_bits(a).checked_mul(FixedU32::<U31>::from_bits(b)) {
        Some(x) => Some(x.to_bits()),
        None => None,
    }
}

/// `FixedU32::<U31>::checked_div`: the first bit pattern shifted left by 31
/// and divided by the second, or `None` where the divisor is zero or the
/// quotient does not fit in 32 bits.
#[verifier::external_body]
fn fixed_checked_div(a: u32, b: u32) -> (r: Option<u32>)
    ensures
        r == div_bits(a, b),
{
    match FixedU32::<U31>::from_bits(a).checked_div(FixedU32::<U31>::from_bits(b)) {
        Some(x) => Some(x.to_bits()),
        None => None,
    }
}

/// Division of a `FixedU32<U31>` by an integer: the bit pattern divided by
/// the integer, rounded down.
#[verifier::external_body]
fn fixed_div_int(a: u32, n: u32) -> (r: u32)
    requires
        n != 0,
    ensures
        r == a / n,
{
    (FixedU32::<U31>::from_bits(a) / n).to_bits()
}

/// The product of two bit patterns of scores in `[0, 1]`, shifted back, is
/// not above either of them.
pub proof fn lemma_product_bounds(a: int, b: int)
    requires
        0 <= a <= 0x8000_0000,
        0 <= b <= 0x8000_0000,
    ensures
        0 <= a * b <= 0x4000_0000_0000_0000,
        0 <= (a * b) / 0x8000_0000 <= a,
        (a * b) / 0x8000_0000 <= b,
{
    assert(0 <= a * b <= 0x8000_0000 * a && a * b <= 0x8000_0000 * b) by (nonlinear_arith)
        requires
            0 <= a <= 0x8000_0000,
            0 <= b <= 0x8000_0000,
    ;
}

/// The bits of the score nearest to `num / den`.
pub open spec fn ratio_bits(num: nat, den: nat) -> nat {
    (num * 0x1_0000_0000 + den) / (2 * den)
}

/// The nearest score to a ratio of at most 1 is at most 1.
pub proof fn lemma_ratio_in_unit(num: nat, den: nat)
    requires
        0 < den,
        num <= den,
    ensures
        ratio_bits(num, den) <= 0x8000_0000,
{
    assert((num * 0x1_0000_0000 + den) / (2 * den) <= 0x8000_0000) by (nonlinear_arith)
        requires
            0 < den,
            num <= den,
    {
        assert(num * 0x1_0000_0000 + den < (2 * den) * 0x8000_0001);
    }
}

/// Lifts a bit pattern, where there is one, to a score.
pub open spec fn lift(bits: Option<u32>) -> Option<Score> {
    match bits {
        Some(b) => Some(Score { bits: b }),
        None => None,
    }
}

fn lift_bits(bits: Option<u32>) -> (r: Option<Score>)
    ensures
        r == lift(bits),
{
    match bits {
        Some(b) => Some(Score { bits: b }),
        None => None,
    }
}

impl Score {
    /// The score 0: a certain loss for White.
    pub open spec fn spec_zero() -> Score {
        Score { bits: 0 }
    }

    /// The score 1: a certain win for White.
    pub open spec fn spec_one() -> Score {
        Score { bits: ONE_BITS }
    }

    /// The smallest positive score, `2^-31`.
    pub open spec fn spec_delta() -> Score {
        Score { bits: 1 }
    }

    /// The score one half: a certain draw.
    pub open spec fn spec_half() -> Score {
        Score { bits: HALF_BITS }
    }

    /// Whether the score lies in `[0, 1]`.
    pub open spec fn in_unit(self) -> bool {
        self.bits <= ONE_BITS
    }

    #[verifier::when_used_as_spec(spec_zero)]
    pub fn zero() -> (r: Score)
        ensures
            r == Score::spec_zero(),
    {
        Score { bits: 0 }
    }

    #[verifier::when_used_as_spec(spec_one)]
    pub fn one() -> (r: Score)
        ensures
            r == Score::spec_one(),
    {
        Score { bits: ONE_BITS }
    }

    #[verifier::when_used_as_spec(spec_delta)]
    pub fn delta() -> (r: Score)
        ensures
            r == Score::spec_delta(),
    {
        Score { bits: 1 }
    }

    #[verifier::when_used_as_spec(spec_half)]
    pub fn half() -> (r: Score)
        ensures
            r == Score::spec_half(),
    {
        Score { bits: HALF_BITS }
    }

    /// The score with the given bit pattern.
    pub fn from_bits(bits: u32) -> (r: Score)
        ensures
            r.bits == bits,
    {
        Score { bits }
    }

    /// The bit pattern of the score.
    pub fn to_bits(self) -> (r: u32)
        ensures
            r == self.bits,
    {
        self.bits
    }

    /// The score nearest to `num / den`, a ratio of at most 1.
    pub fn from_ratio(num: u32, den: u32) -> (r: Score)
        requires
            0 < den,
            num <= den,
        ensures
            r.bits == ratio_bits(num as nat, den as nat),
            r.in_unit(),
    {
        proof {
            lemma_ratio_in_unit(num as nat, den as nat);
            assert(num * 0x1_0000_0000 + den <= u64::MAX) by (nonlinear_arith)
                requires
                    num <= 0xffff_ffff,
                    den <= 0xffff_ffff,
            ;
        }
        let scaled: u64 = (num as u64) * 0x1_0000_0000 + (den as u64);
        let bits: u64 = scaled / (2 * (den as u64));
        Score { bits: bits as u32 }
    }

    /// The sum, or `None` on overflow.
    pub fn checked_add(self, rhs: Score) -> (r: Option<Score>)
        ensures
            r == lift(add_bits(self.bits, rhs.bits)),
    {
        lift_bits(fixed_checked_add(self.bits, rhs.bits))
    }

    /// The difference, or `None` where `rhs` is the larger.
    pub fn checked_sub(self, rhs: Score) -> (r: Option<Score>)
        ensures
            r == lift(sub_bits(self.bits, rhs.bits)),
    {
        lift_bits(fixed_checked_sub(self.bits, rhs.bits))
    }

    /// The product rounded down, or `None` on overflow.
    pub fn checked_mul(self, rhs: Score) -> (r: Option<Score>)
        ensures
            r == lift(mul_bits(self.bits, rhs.bits)),
    {
        lift_bits(fixed_checked_mul(self.bits, rhs.bits))
    }

    /// The quotient rounded down, or `None` where `rhs` is zero or the
    /// quotient is 2 or more.
    pub fn checked_div(self, rhs: Score) -> (r: Option<Score>)
        ensures
            r == lift(div_bits(self.bits, rhs.bits)),
    {
        lift_bits(fixed_checked_div(self.bits, rhs.bits))
    }

    /// The sum of two scores that add up to less than 2.
    pub fn plus(self, rhs: Score) -> (r: Score)
        requires
            self.bits + rhs.bits <= u32::MAX,
        ensures
            r.bits == self.bits + rhs.bits,
    {
        match self.checked_add(rhs) {
            Some(sum) => sum,
            None => vstd::pervasive::unreached(),
        }
    }

    /// The difference of two scores, the second not above the first.
    pub fn minus(self, rhs: Score) -> (r: Score)
        requires
            rhs.bits <= self.bits,
        ensures
            r.bits == self.bits - rhs.bits,
    {
        match self.checked_sub(rhs) {
            Some(difference) => difference,
            None => vstd::pervasive::unreached(),
        }
    }

    /// The product of two scores in `[0, 1]`, rounded down.
    pub open spec fn spec_times(self, rhs: Score) -> Score {
        Score { bits: ((self.bits * rhs.bits) / 0x8000_0000) as u32 }
    }

    /// The product of two scores in `[0, 1]`, rounded down to a multiple of
    /// `2^-31`. It is again in `[0, 1]`, and not above either factor.
    #[verifier::when_used_as_spec(spec_times)]
    pub fn times(self, rhs: Score) -> (r: Score)
        requires
            self.in_unit(),
            rhs.in_unit(),
        ensures
            r == self.spec_times(rhs),
            r.bits <= self.bits,
            r.bits <= rhs.bits,
    {
        proof {
            lemma_product_bounds(self.bits as int, rhs.bits as int);
        }
        match self.checked_mul(rhs) {
            Some(product) => product,
            None => vstd::pervasive::unreached(),
        }
    }

    /// The score divided by a whole number, rounded down.
    pub fn div_int(self, n: u32) -> (r: Score)
        requires
            n != 0,
        ensures
            r.bits == self.bits / n,
    {
        Score { bits: fixed_div_int(self.bits, n) }
    }
}

} // verus!
