//! Fixed-point decimal amounts.
//!
//! An `Amount` holds the parts of a `rust_decimal::Decimal`: a signed 96-bit
//! mantissa, a scale between 0 and 28, and the sign bit, which a decimal
//! keeps even for zero (`-0`). Its value is `mantissa / 10^scale`. Arithmetic, comparison and rounding are done by
//! `rust_decimal`; the functions below hand it the parts and take the parts of
//! its answer back.

use rust_decimal::Decimal;
use vstd::prelude::*;

verus! {

/// One more than the largest magnitude a 96-bit mantissa can hold.
pub open spec fn mantissa_bound() -> int {
    0x1_0000_0000_0000_0000_0000_0000
}

/// Largest scale a decimal can have.
pub const MAX_SCALE: u32 = 28;

/// Number of decimal places that account balances are reported with.
pub const REPORTED_PLACES: u32 = 4;

/// `10^n`.
pub open spec fn pow10(n: nat) -> int
    decreases n,
{
    if n == 0 {
        1
    } else {
        10 * pow10((n - 1) as nat)
    }
}

/// A decimal amount of money: `mantissa / 10^scale`. `sign_negative` is
/// the decimal's sign bit: it follows the mantissa's sign, and for zero tells
/// `-0` from `0`.
#[derive(Clone, Copy, Debug)]
pub struct Amount {
    pub mantissa: i128,
    pub scale: u32,
    pub sign_negative: bool,
}

impl Amount {
    /// The parts are those of some `rust_decimal::Decimal`.
    pub open spec fn wf(self) -> bool {
        &&& -mantissa_bound() < self.mantissa < mantissa_bound()
        &&& self.scale <= MAX_SCALE
        &&& self.mantissa != 0 ==> self.sign_negative == (self.mantissa < 0)
    }

    /// The value counted in units of `10^-28`: every decimal is a whole
    /// number of such units, so values compare and add as integers.
    pub open spec fn units(self) -> int {
        self.mantissa * pow10((MAX_SCALE - self.scale) as nat)
    }

    /// The amount zero, as a decimal with scale 0.
    pub fn zero() -> (r: Amount)
        ensures
            r.wf(),
            r.mantissa == 0,
            r.scale == 0,
            !r.sign_negative,
            r.units() == 0,
    {
        Amount { mantissa: 0, scale: 0, sign_negative: false }
    }

    /// Builds the amount `mantissa / 10^scale` (a zero mantissa gives `0`, not
    /// `-0`), or `None` where no decimal has these parts.
    pub fn from_parts(mantissa: i128, scale: u32) -> (r: Option<Amount>)
        ensures
            r matches Some(a) ==> a.wf() && a.mantissa == mantissa && a.scale == scale
                && a.sign_negative == (mantissa < 0),
            r is None <==> !(Amount { mantissa, scale, sign_negative: mantissa < 0 }).wf(),
    {
        let a = Amount { mantissa, scale, sign_negative: mantissa < 0 };
        if a.is_wf() {
            Some(a)
        } else {
            None
        }
    }

    /// True when the parts are those of some decimal.
    pub fn is_wf(&self) -> (r: bool)
        ensures
            r == self.wf(),
    {
        let bound: i128 = 0x1_0000_0000_0000_0000_0000_0000;
        -bound < self.mantissa && self.mantissa < bound && self.scale <= MAX_SCALE && (self.mantissa
            == 0 || self.sign_negative == (self.mantissa < 0))
    }

    /// True when `self < other` as numbers.
    pub fn is_less_than(&self, other: &Amount) -> (r: bool)
        requires
            self.wf(),
            other.wf(),
        ensures
            r == (self.units() < other.units()),
    {
        decimal_less_than(*self, *other)
    }

    /// True when the value is below zero.
    pub fn is_negative(&self) -> (r: bool)
        requires
            self.wf(),
        ensures
            r == (self.units() < 0),
    {
        let zero = Amount::zero();
        decimal_less_than(*self, zero)
    }

    /// `self + other`, or `None` where the sum overflows a decimal.
    pub fn checked_add(&self, other: &Amount) -> (r: Option<Amount>)
        requires
            self.wf(),
            other.wf(),
        ensures
            r == decimal_sum(*self, *other),
            sum_facts(*self, *other, r),
    {
        decimal_checked_add(*self, *other)
    }

    /// `self - other`, or `None` where the difference overflows a decimal.
    pub fn checked_sub(&self, other: &Amount) -> (r: Option<Amount>)
        requires
            self.wf(),
            other.wf(),
        ensures
            r == decimal_difference(*self, *other),
            difference_facts(*self, *other, r),
    {
        decimal_checked_sub(*self, *other)
    }

    /// The amount rounded to four decimal places, halves to even.
    pub fn round_reported(&self) -> (r: Amount)
        requires
            self.wf(),
        ensures
            r == rounded_to(*self, REPORTED_PLACES),
            r.wf(),
    {
        decimal_round_dp(*self, REPORTED_PLACES)
    }
}

impl PartialEq for Amount {
    /// Equal in value, whatever the scales: `1.0 == 1.00`.
    fn eq(&self, other: &Amount) -> (r: bool) {
        if self.is_wf() && other.is_wf() {
            decimal_equal(*self, *other)
        } else {
            self.mantissa == other.mantissa && self.scale == other.scale && self.sign_negative
                == other.sign_negative
        }
    }
}

impl vstd::std_specs::cmp::PartialEqSpecImpl for Amount {
    open spec fn obeys_eq_spec() -> bool {
        true
    }

    open spec fn eq_spec(&self, other: &Amount) -> bool {
        if self.wf() && other.wf() {
            self.units() == other.units()
        } else {
            self.mantissa == other.mantissa && self.scale == other.scale && self.sign_negative
                == other.sign_negative
        }
    }
}

/// Powers of ten are positive.
pub proof fn lemma_pow10_positive(n: nat)
    ensures
        pow10(n) > 0,
    decreases n,
{
    if n > 0 {
        lemma_pow10_positive((n - 1) as nat);
    }
}

/// Two amounts at the same scale whose mantissas together stay below
/// `2^96` in magnitude add and subtract without rounding.
pub proof fn lemma_same_scale_fits(a: Amount, b: Amount)
    requires
        a.scale == b.scale,
        a.scale <= MAX_SCALE,
        (if a.mantissa < 0 {
            -a.mantissa
        } else {
            a.mantissa as int
        }) + (if b.mantissa < 0 {
            -b.mantissa
        } else {
            b.mantissa as int
        }) < mantissa_bound(),
    ensures
        aligned_fit(a, b, a.units() + b.units()),
        aligned_fit(a, b, a.units() - b.units()),
{
    let p = pow10((MAX_SCALE - a.scale) as nat);
    lemma_pow10_positive((MAX_SCALE - a.scale) as nat);
    let bound = mantissa_bound();
    let ma = a.mantissa as int;
    let mb = b.mantissa as int;
    assert(-bound * p < ma * p < bound * p && -bound * p < mb * p < bound * p && -bound * p < ma
        * p + mb * p < bound * p && -bound * p < ma * p - mb * p < bound * p) by (nonlinear_arith)
        requires
            p > 0,
            -bound < ma + mb < bound,
            -bound < ma - mb < bound,
            -bound < ma < bound,
            -bound < mb < bound,
    ;
}

/// The larger of the two scales.
pub open spec fn max_scale(a: Amount, b: Amount) -> u32 {
    if a.scale >= b.scale {
        a.scale
    } else {
        b.scale
    }
}

/// True when `v` units of `10^-28`, written at `scale`, need a mantissa of
/// fewer than 96 bits.
pub open spec fn fits_at(v: int, scale: u32) -> bool {
    let bound = mantissa_bound() * pow10((MAX_SCALE - scale) as nat);
    -bound < v < bound
}

/// True when both operands and the exact result `r` fit in a 96-bit mantissa
/// at the larger of the two scales: then no rounding is needed.
pub open spec fn aligned_fit(a: Amount, b: Amount, r: int) -> bool {
    let s = max_scale(a, b);
    &&& fits_at(a.units(), s)
    &&& fits_at(b.units(), s)
    &&& fits_at(r, s)
}

/// What `rust_decimal` computes for `a + b`; `None` on overflow.
pub uninterp spec fn decimal_sum(a: Amount, b: Amount) -> Option<Amount>;

/// What `rust_decimal` computes for `a - b`; `None` on overflow.
pub uninterp spec fn decimal_difference(a: Amount, b: Amount) -> Option<Amount>;

/// `r` is present and its value is `v` units of `10^-28`.
pub open spec fn holds_value(r: Option<Amount>, v: int) -> bool {
    r matches Some(s) && s.units() == v
}

/// `x` and `y` are both negative, both zero, or both positive.
pub open spec fn same_sign(x: int, y: int) -> bool {
    &&& (x < 0 <==> y < 0)
    &&& (x == 0 <==> y == 0)
}

/// What is known of `r`, the decimal sum of `a` and `b`.
pub open spec fn sum_facts(a: Amount, b: Amount, r: Option<Amount>) -> bool {
    let exact = a.units() + b.units();
    &&& r matches Some(s) ==> s.wf() && same_sign(s.units(), exact)
    &&& a.mantissa == 0 ==> r == Some(b)
    &&& a.mantissa != 0 && b.mantissa == 0 ==> r == Some(a)
    &&& aligned_fit(a, b, exact) ==> holds_value(r, exact)
    &&& aligned_fit(a, b, exact) && a.mantissa != 0 && b.mantissa != 0 ==> (r matches Some(s)
        && s.scale == max_scale(a, b))
}

/// What is known of `r`, the decimal difference of `a` and `b`.
pub open spec fn difference_facts(a: Amount, b: Amount, r: Option<Amount>) -> bool {
    let exact = a.units() - b.units();
    &&& r matches Some(s) ==> s.wf() && same_sign(s.units(), exact)
    &&& a.mantissa == 0 && b.mantissa != 0 ==> r == Some(
        Amount { mantissa: (-b.mantissa) as i128, scale: b.scale, sign_negative: !b.sign_negative },
    )
    &&& a.mantissa == 0 && b.mantissa == 0 ==> r == Some(b)
    &&& a.mantissa != 0 && b.mantissa == 0 ==> r == Some(a)
    &&& aligned_fit(a, b, exact) ==> holds_value(r, exact)
    &&& aligned_fit(a, b, exact) && a.mantissa != 0 && b.mantissa != 0 ==> (r matches Some(s)
        && s.scale == max_scale(a, b))
}

/// The decimal sum exists and equals the exact sum.
pub open spec fn sum_exact(a: Amount, b: Amount) -> bool {
    decimal_sum(a, b) matches Some(s) && s.wf() && s.units() == a.units() + b.units()
}

/// The decimal difference exists and equals the exact difference.
pub open spec fn difference_exact(a: Amount, b: Amount) -> bool {
    decimal_difference(a, b) matches Some(s) && s.wf() && s.units() == a.units() - b.units()
}

/// `a` rounded to `places` decimal places, a half going to the even
/// neighbour; an amount with at most `places` places is left as it is. A
/// zero keeps its sign bit; a non-zero amount that rounds to zero becomes
/// `0`.
pub open spec fn rounded_to(a: Amount, places: u32) -> Amount {
    if a.scale <= places {
        a
    } else {
        let p = pow10((a.scale - places) as nat);
        let magnitude = if a.mantissa < 0 {
            -a.mantissa
        } else {
            a.mantissa as int
        };
        let q = magnitude / p;
        let rest = magnitude % p;
        let up = rest * 2 > p || (rest * 2 == p && q % 2 == 1);
        let q2 = if up {
            q + 1
        } else {
            q
        };
        Amount {
            mantissa: (if a.mantissa < 0 {
                -q2
            } else {
                q2
            }) as i128,
            scale: places,
            sign_negative: if a.mantissa == 0 {
                a.sign_negative
            } else {
                a.mantissa < 0 && q2 != 0
            },
        }
    }
}

/// Calls `Decimal::checked_add` on the two amounts. Claimed (`sum_facts`):
/// the result is the named `decimal_sum`; a result has the parts of a
/// decimal; adding to zero gives the other operand as it is; when both
/// operands and the exact sum fit in 96 bits at the larger scale, the result
/// is present and equal in value to the exact sum, at the larger scale where
/// neither operand is zero (the scales are then aligned without loss and no
/// rounding is needed); and a result always has the sign of the exact sum
/// (rounding only drops low digits of a large magnitude). Which rounded value
/// comes back where rounding is needed is left to the name.
#[verifier::external_body]
fn decimal_checked_add(a: Amount, b: Amount) -> (r: Option<Amount>)
    requires
        a.wf(),
        b.wf(),
    ensures
        r == decimal_sum(a, b),
        sum_facts(a, b, r),
{
    let mut x = Decimal::from_i128_with_scale(a.mantissa, a.scale);
    x.set_sign_negative(a.sign_negative);
    let mut y = Decimal::from_i128_with_scale(b.mantissa, b.scale);
    y.set_sign_negative(b.sign_negative);
    match x.checked_add(y) {
        Some(s) => Some(
            Amount { mantissa: s.mantissa(), scale: s.scale(), sign_negative: s.is_sign_negative() },
        ),
        None => None,
    }
}

/// Calls `Decimal::checked_sub` on the two amounts. Claimed as for
/// `decimal_checked_add` (`difference_facts`), with the exact difference in
/// place of the sum; subtracting from zero gives the other operand negated,
/// and subtracting zero gives the first operand as it is.
#[verifier::external_body]
fn decimal_checked_sub(a: Amount, b: Amount) -> (r: Option<Amount>)
    requires
        a.wf(),
        b.wf(),
    ensures
        r == decimal_difference(a, b),
        difference_facts(a, b, r),
{
    let mut x = Decimal::from_i128_with_scale(a.mantissa, a.scale);
    x.set_sign_negative(a.sign_negative);
    let mut y = Decimal::from_i128_with_scale(b.mantissa, b.scale);
    y.set_sign_negative(b.sign_negative);
    match x.checked_sub(y) {
        Some(s) => Some(
            Amount { mantissa: s.mantissa(), scale: s.scale(), sign_negative: s.is_sign_negative() },
        ),
        None => None,
    }
}

/// Calls `<` of `Decimal`'s `PartialOrd`. Claimed: it compares the two
/// values as numbers.
#[verifier::external_body]
fn decimal_less_than(a: Amount, b: Amount) -> (r: bool)
    requires
        a.wf(),
        b.wf(),
    ensures
        r == (a.units() < b.units()),
{
    let mut x = Decimal::from_i128_with_scale(a.mantissa, a.scale);
    x.set_sign_negative(a.sign_negative);
    let mut y = Decimal::from_i128_with_scale(b.mantissa, b.scale);
    y.set_sign_negative(b.sign_negative);
    x < y
}

/// Calls `==` of `Decimal`'s `PartialEq`. Claimed: it compares the two
/// values as numbers, whatever their scales.
#[verifier::external_body]
fn decimal_equal(a: Amount, b: Amount) -> (r: bool)
    requires
        a.wf(),
        b.wf(),
    ensures
        r == (a.units() == b.units()),
{
    let mut x = Decimal::from_i128_with_scale(a.mantissa, a.scale);
    x.set_sign_negative(a.sign_negative);
    let mut y = Decimal::from_i128_with_scale(b.mantissa, b.scale);
    y.set_sign_negative(b.sign_negative);
    x == y
}

/// Calls `Decimal::round_dp`. Claimed: the result is the amount rounded to
/// `places` decimal places with halves going to the even neighbour, at scale
/// `places`; an amount with no more places than that comes back unchanged.
#[verifier::external_body]
fn decimal_round_dp(a: Amount, places: u32) -> (r: Amount)
    requires
        a.wf(),
    ensures
        r == rounded_to(a, places),
        r.wf(),
{
    let mut x = Decimal::from_i128_with_scale(a.mantissa, a.scale);
    x.set_sign_negative(a.sign_negative);
    let s = x.round_dp(places);
    Amount { mantissa: s.mantissa(), scale: s.scale(), sign_negative: s.is_sign_negative() }
}

} // verus!
